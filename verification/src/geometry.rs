//! Positions on the hex grid and the distance between them.

use vstd::prelude::*;

verus! {

/// A tile of the map, in axial hex coordinates.
#[derive(Clone, Copy, PartialEq, Eq, Structural, Debug, Hash)]
pub struct MapPos {
    pub x: i32,
    pub y: i32,
}

/// A place inside a tile: the tile and one of its slots. Units that share a
/// tile stand in different slots.
#[derive(Clone, Copy, PartialEq, Eq, Structural, Debug, Hash)]
pub struct ExactPos {
    pub map_pos: MapPos,
    pub slot_id: u8,
}

/// The dimensions of a rectangular map.
#[derive(Clone, Copy, PartialEq, Eq, Structural, Debug, Hash)]
pub struct Size2 {
    pub w: i32,
    pub h: i32,
}

impl Size2 {
    /// `pos` lies on a map of this size.
    pub open spec fn spec_contains(self, pos: MapPos) -> bool {
        0 <= pos.x < self.w && 0 <= pos.y < self.h
    }

    /// The number of tiles of a map of this size. A map with a dimension
    /// that is not positive has none.
    pub open spec fn tile_count(self) -> nat {
        if self.w > 0 && self.h > 0 {
            (self.w * self.h) as nat
        } else {
            0
        }
    }

    /// The place of a tile in the row-major order of the tiles: rows from
    /// `y == 0` up, each row from `x == 0` up.
    pub open spec fn spec_index(self, pos: MapPos) -> int {
        pos.y * self.w + pos.x
    }

    /// The tile at place `i` of the row-major order.
    pub open spec fn spec_pos_at(self, i: int) -> MapPos {
        MapPos { x: (i % (self.w as int)) as i32, y: (i / (self.w as int)) as i32 }
    }

    /// All tiles of a map of this size, in row-major order.
    pub open spec fn spec_positions(self) -> Seq<MapPos> {
        Seq::new(self.tile_count(), |i: int| self.spec_pos_at(i))
    }

    /// The tiles of a map of this size, as a set.
    pub open spec fn tiles(self) -> Set<MapPos> {
        Set::new(|pos: MapPos| self.spec_contains(pos))
    }

    /// Whether `pos` lies on a map of this size.
    pub fn contains(self, pos: MapPos) -> (b: bool)
        ensures
            b == self.spec_contains(pos),
    {
        0 <= pos.x && pos.x < self.w && 0 <= pos.y && pos.y < self.h
    }

    /// All tiles of a map of this size, in row-major order.
    pub fn positions(self) -> (v: Vec<MapPos>)
        ensures
            v@ == self.spec_positions(),
    {
        let mut v: Vec<MapPos> = Vec::new();
        if self.w <= 0 || self.h <= 0 {
            return v;
        }
        let mut y: i32 = 0;
        while y < self.h
            invariant
                self.w > 0,
                self.h > 0,
                0 <= y <= self.h,
                v@.len() == y * self.w,
                forall|i: int| 0 <= i < v@.len() ==> v@[i] == self.spec_pos_at(i),
            decreases self.h - y,
        {
            let mut x: i32 = 0;
            while x < self.w
                invariant
                    self.w > 0,
                    self.h > 0,
                    0 <= y < self.h,
                    0 <= x <= self.w,
                    v@.len() == y * self.w + x,
                    forall|i: int| 0 <= i < v@.len() ==> v@[i] == self.spec_pos_at(i),
                decreases self.w - x,
            {
                proof {
                    lemma_index_inverts(self, MapPos { x, y });
                }
                v.push(MapPos { x, y });
                x = x + 1;
            }
            assert((y + 1) * self.w == y * self.w + self.w) by (nonlinear_arith);
            y = y + 1;
        }
        assert(self.h * self.w == self.w * self.h) by (nonlinear_arith);
        v
    }
}

/// A tile of the map has a place below the number of tiles, and that place
/// leads back to the tile.
pub proof fn lemma_index_inverts(size: Size2, pos: MapPos)
    requires
        size.spec_contains(pos),
    ensures
        0 <= size.spec_index(pos) < size.tile_count(),
        size.spec_pos_at(size.spec_index(pos)) == pos,
{
    let w = size.w as int;
    let h = size.h as int;
    let x = pos.x as int;
    let y = pos.y as int;
    assert(0 <= y * w + x < w * h) by (nonlinear_arith)
        requires
            0 <= x < w,
            0 <= y < h,
    ;
    vstd::arithmetic::div_mod::lemma_fundamental_div_mod_converse(y * w + x, w, y, x);
}

/// A place below the number of tiles holds a tile of the map, and that tile
/// leads back to the place.
pub proof fn lemma_pos_at_inverts(size: Size2, i: int)
    requires
        0 <= i < size.tile_count(),
    ensures
        size.spec_contains(size.spec_pos_at(i)),
        size.spec_index(size.spec_pos_at(i)) == i,
{
    let w = size.w as int;
    let h = size.h as int;
    vstd::arithmetic::div_mod::lemma_fundamental_div_mod(i, w);
    let q = i / w;
    let r = i % w;
    assert(0 <= q < h) by (nonlinear_arith)
        requires
            0 <= i < w * h,
            i == w * q + r,
            0 <= r < w,
            w > 0,
    ;
    assert(w * q == q * w) by (nonlinear_arith);
}

/// The row-major order lists every tile of the map, and each tile once.
pub proof fn lemma_positions_cover(size: Size2)
    ensures
        size.spec_positions().no_duplicates(),
        size.spec_positions().to_set() == size.tiles(),
{
    let s = size.spec_positions();
    assert forall|i: int, j: int| 0 <= i < s.len() && 0 <= j < s.len() && i != j implies s[i]
        != s[j] by {
        lemma_pos_at_inverts(size, i);
        lemma_pos_at_inverts(size, j);
    }
    assert forall|pos: MapPos| s.to_set().contains(pos) <==> size.tiles().contains(pos) by {
        if s.contains(pos) {
            let i = choose|i: int| 0 <= i < s.len() && s[i] == pos;
            lemma_pos_at_inverts(size, i);
        }
        if size.spec_contains(pos) {
            lemma_index_inverts(size, pos);
            assert(s[size.spec_index(pos)] == pos);
        }
    }
}

/// The absolute value of an integer.
pub open spec fn abs(i: int) -> int {
    if i < 0 {
        -i
    } else {
        i
    }
}

/// The distance between two tiles in steps over the hex grid: the norm of
/// their difference in cube coordinates, which is the largest of the
/// absolute differences along the three axes.
pub open spec fn hex_distance(from: MapPos, to: MapPos) -> int {
    let dx = to.x - from.x;
    let dy = to.y - from.y;
    let dz = dx + dy;
    if abs(dx) >= abs(dy) && abs(dx) >= abs(dz) {
        abs(dx)
    } else if abs(dy) >= abs(dz) {
        abs(dy)
    } else {
        abs(dz)
    }
}

/// The hex distance is half the sum of the absolute differences along the
/// three cube axes.
pub proof fn lemma_hex_distance_half_sum(from: MapPos, to: MapPos)
    ensures
        2 * hex_distance(from, to) == abs(to.x - from.x) + abs(to.y - from.y) + abs(
            (to.x - from.x) + (to.y - from.y),
        ),
{
}

/// The hex distance is a metric: it is zero exactly between a tile and
/// itself, symmetric, and obeys the triangle inequality.
pub proof fn lemma_hex_distance_metric(a: MapPos, b: MapPos, c: MapPos)
    ensures
        hex_distance(a, b) >= 0,
        hex_distance(a, b) == 0 <==> a == b,
        hex_distance(a, b) == hex_distance(b, a),
        hex_distance(a, c) <= hex_distance(a, b) + hex_distance(b, c),
{
}

/// The distance between two tiles in steps over the hex grid.
pub fn distance(from: MapPos, to: MapPos) -> (d: i64)
    ensures
        d == hex_distance(from, to),
{
    let dx: i64 = to.x as i64 - from.x as i64;
    let dy: i64 = to.y as i64 - from.y as i64;
    let dz: i64 = dx + dy;
    let ax: i64 = if dx < 0 { -dx } else { dx };
    let ay: i64 = if dy < 0 { -dy } else { dy };
    let az: i64 = if dz < 0 { -dz } else { dz };
    proof {
        lemma_hex_distance_half_sum(from, to);
    }
    (ax + ay + az) / 2
}

} // verus!
