//! A rectangular map that holds one value for every tile.

use crate::geometry::{lemma_index_inverts, lemma_pos_at_inverts, MapPos, Size2};
use vstd::prelude::*;

verus! {

/// A map of fixed size with one value of type `T` on every tile.
///
/// Its view is the mathematical map from the tiles on the map to their
/// values.
#[derive(Clone, Debug)]
pub struct TileMap<T> {
    size: Size2,
    tiles: Vec<T>,
}

impl<T> View for TileMap<T> {
    type V = Map<MapPos, T>;

    closed spec fn view(&self) -> Map<MapPos, T> {
        Map::new(
            |pos: MapPos| self.size.spec_contains(pos),
            |pos: MapPos| self.tiles@[self.size.spec_index(pos)],
        )
    }
}

impl<T> TileMap<T> {
    /// The dimensions of the map.
    pub closed spec fn spec_size(&self) -> Size2 {
        self.size
    }

    /// The map holds exactly one value for each of its tiles.
    pub closed spec fn wf(&self) -> bool {
        self.tiles@.len() == self.size.tile_count()
    }

    /// The view is defined on the tiles of the map and on nothing else.
    pub proof fn lemma_view_dom(&self)
        ensures
            self@.dom() == self.spec_size().tiles(),
            forall|pos: MapPos| self@.dom().contains(pos) <==> self.spec_size().spec_contains(pos),
    {
    }

    /// A map of the given size with `value` on every tile.
    pub fn new(size: Size2, value: T) -> (m: TileMap<T>) where T: Copy
        ensures
            m.wf(),
            m.spec_size() == size,
            m@ == Map::new(|pos: MapPos| size.spec_contains(pos), |pos: MapPos| value),
    {
        let mut tiles: Vec<T> = Vec::new();
        if size.w > 0 && size.h > 0 {
            let mut y: i32 = 0;
            while y < size.h
                invariant
                    size.w > 0,
                    0 <= y <= size.h,
                    tiles@.len() == y * size.w,
                    forall|i: int| 0 <= i < tiles@.len() ==> tiles@[i] == value,
                decreases size.h - y,
            {
                let mut x: i32 = 0;
                while x < size.w
                    invariant
                        0 <= y < size.h,
                        0 <= x <= size.w,
                        tiles@.len() == y * size.w + x,
                        forall|i: int| 0 <= i < tiles@.len() ==> tiles@[i] == value,
                    decreases size.w - x,
                {
                    tiles.push(value);
                    x = x + 1;
                }
                assert((y + 1) * size.w == y * size.w + size.w) by (nonlinear_arith);
                y = y + 1;
            }
            assert(size.h * size.w == size.w * size.h) by (nonlinear_arith);
        }
        let m = TileMap { size, tiles };
        proof {
            assert forall|pos: MapPos| size.spec_contains(pos) implies m@[pos] == value by {
                lemma_index_inverts(size, pos);
            }
        }
        m
    }

    /// The dimensions of the map.
    pub fn size(&self) -> (size: Size2)
        ensures
            size == self.spec_size(),
    {
        self.size
    }

    /// Whether `pos` is a tile of the map.
    pub fn is_inboard(&self, pos: MapPos) -> (b: bool)
        ensures
            b == self@.dom().contains(pos),
            b == self.spec_size().spec_contains(pos),
    {
        self.size.contains(pos)
    }

    /// The place of the value of `pos` in `tiles`.
    fn index(&self, pos: MapPos) -> (i: usize)
        requires
            self.wf(),
            self.size.spec_contains(pos),
        ensures
            i == self.size.spec_index(pos),
            i < self.tiles@.len(),
    {
        proof {
            lemma_index_inverts(self.size, pos);
            assert(self.tiles@.len() == self.tiles.len());
            assert(0 <= pos.y * self.size.w <= pos.y * self.size.w + pos.x) by (nonlinear_arith)
                requires
                    0 <= pos.x,
                    0 <= pos.y,
                    0 < self.size.w,
            ;
        }
        (pos.y as usize) * (self.size.w as usize) + (pos.x as usize)
    }

    /// The value on the tile `pos`.
    pub fn tile(&self, pos: MapPos) -> (value: &T)
        requires
            self.wf(),
            self@.dom().contains(pos),
        ensures
            *value == self@[pos],
    {
        let i = self.index(pos);
        &self.tiles[i]
    }

    /// Puts `value` on the tile `pos` and leaves every other tile as it was.
    pub fn set_tile(&mut self, pos: MapPos, value: T)
        requires
            old(self).wf(),
            old(self)@.dom().contains(pos),
        ensures
            final(self).wf(),
            final(self).spec_size() == old(self).spec_size(),
            final(self)@ == old(self)@.insert(pos, value),
    {
        let i = self.index(pos);
        self.tiles.set(i, value);
        proof {
            let size = self.size;
            let after = old(self)@.insert(pos, value);
            lemma_index_inverts(size, pos);
            assert forall|other: MapPos| size.spec_contains(other) implies self@[other]
                == after[other] by {
                lemma_index_inverts(size, other);
            }
        }
    }

    /// All tiles of the map, in row-major order.
    pub fn get_iter(&self) -> (v: Vec<MapPos>)
        ensures
            v@ == self.spec_size().spec_positions(),
    {
        self.size.positions()
    }
}

} // verus!
