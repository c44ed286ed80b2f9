//! What a unit sees: how well it sees a tile, and the sweep that merges its
//! sight into a visibility map.

use crate::fov::{describes, disc, is_fov_primitive, sight_of, simple_fov};
use crate::geometry::{distance, hex_distance, MapPos};
use crate::grid::TileMap;
use crate::state::{class_conceals, terrain_conceals, GameState, ObjectClass, Terrain};
use crate::unit::{unit_type_of, Db, Unit, UnitType};
use crate::visibility::TileVisibility;
use vstd::prelude::*;

verus! {

/// How well a unit of type `unit_type` that stands on `origin` sees the tile
/// `pos`, given that nothing blocks its line of sight.
///
/// Beyond the unit's range it sees nothing. Within its cover range it sees
/// everything. In between, cover on the tile hides what is in it.
pub open spec fn visibility_of(
    state: &GameState,
    unit_type: UnitType,
    origin: MapPos,
    pos: MapPos,
) -> TileVisibility {
    let d = hex_distance(origin, pos);
    if d > unit_type.los_range {
        TileVisibility::No
    } else if d <= unit_type.cover_los_range {
        TileVisibility::Excellent
    } else if state.conceals(pos) {
        TileVisibility::Normal
    } else {
        TileVisibility::Excellent
    }
}

/// How well a unit of type `unit_type` that stands on `origin` sees the tile
/// `pos`, given that nothing blocks its line of sight.
///
/// The terrain is consulted only for a tile beyond the cover range and
/// within the range, and only such a tile has to lie on the map.
pub fn calc_visibility(
    state: &GameState,
    unit_type: &UnitType,
    origin: MapPos,
    pos: MapPos,
) -> (vis: TileVisibility)
    requires
        state.wf(),
        state.on_map(pos) || hex_distance(origin, pos) > unit_type.los_range || hex_distance(
            origin,
            pos,
        ) <= unit_type.cover_los_range,
    ensures
        vis == visibility_of(state, *unit_type, origin, pos),
{
    let d = distance(origin, pos);
    if d > unit_type.los_range as i64 {
        return TileVisibility::No;
    }
    if d <= unit_type.cover_los_range as i64 {
        return TileVisibility::Excellent;
    }
    proof {
        state.lemma_terrain_dom();
        state.lemma_conceals(pos);
    }
    let mut vis = match *state.map().tile(pos) {
        Terrain::City | Terrain::Trees => TileVisibility::Normal,
        Terrain::Plain | Terrain::Water => TileVisibility::Excellent,
    };
    let objects = state.objects_at(pos);
    let mut i: usize = 0;
    while i < objects.len()
        invariant
            0 <= i <= objects@.len(),
            vis == TileVisibility::Normal || vis == TileVisibility::Excellent,
            vis == TileVisibility::Normal <==> terrain_conceals(state.terrain()[pos])
                || exists|j: int|
                0 <= j < i && class_conceals((#[trigger] objects@[j]).class),
        decreases objects@.len() - i,
    {
        match objects[i].class {
            ObjectClass::Building | ObjectClass::Smoke => {
                vis = TileVisibility::Normal;
            },
            ObjectClass::Road | ObjectClass::ReinforcementSector => {},
        }
        i = i + 1;
    }
    vis
}

/// What an observer contributes to the visibility of the tile `pos`: how well
/// it sees the tile if its field of view `seen` holds it, and nothing
/// otherwise.
pub open spec fn observed(
    state: &GameState,
    unit_type: UnitType,
    origin: MapPos,
    seen: Set<MapPos>,
    pos: MapPos,
) -> TileVisibility {
    if seen.contains(pos) {
        visibility_of(state, unit_type, origin, pos)
    } else {
        TileVisibility::No
    }
}

/// The visibility map `fow` after an observer with the field of view `seen`
/// was merged into it: on every tile the join of what was there and what the
/// observer contributes.
pub open spec fn swept(
    fow: Map<MapPos, TileVisibility>,
    state: &GameState,
    unit_type: UnitType,
    origin: MapPos,
    seen: Set<MapPos>,
) -> Map<MapPos, TileVisibility> {
    Map::new(
        |pos: MapPos| fow.dom().contains(pos),
        |pos: MapPos| fow[pos].spec_join(observed(state, unit_type, origin, seen, pos)),
    )
}

/// Merges into `fow` what an observer of type `unit_type` on `origin` sees
/// of the tiles `seen`, which its field of view has found: each of them is
/// raised to how well the observer sees it, unless it is seen better
/// already, and no other tile changes.
pub fn merge_sight(
    state: &GameState,
    unit_type: &UnitType,
    origin: MapPos,
    fow: &mut TileMap<TileVisibility>,
    seen: &Vec<MapPos>,
)
    requires
        state.wf(),
        old(fow).wf(),
        old(fow).spec_size() == state.size(),
        forall|i: int| 0 <= i < seen@.len() ==> state.on_map(#[trigger] seen@[i]),
    ensures
        final(fow).wf(),
        final(fow).spec_size() == old(fow).spec_size(),
        final(fow)@ == swept(old(fow)@, state, *unit_type, origin, seen@.to_set()),
{
    let mut i: usize = 0;
    proof {
        assert(fow@ =~= swept(
            old(fow)@,
            state,
            *unit_type,
            origin,
            seen@.take(0).to_set(),
        ));
    }
    while i < seen.len()
        invariant
            0 <= i <= seen@.len(),
            state.wf(),
            fow.wf(),
            fow.spec_size() == old(fow).spec_size(),
            fow.spec_size() == state.size(),
            forall|k: int| 0 <= k < seen@.len() ==> state.on_map(#[trigger] seen@[k]),
            fow@ == swept(old(fow)@, state, *unit_type, origin, seen@.take(i as int).to_set()),
        decreases seen@.len() - i,
    {
        let pos = seen[i];
        proof {
            fow.lemma_view_dom();
        }
        let vis = calc_visibility(state, unit_type, origin, pos);
        if vis > *fow.tile(pos) {
            fow.set_tile(pos, vis);
        }
        proof {
            let earlier = seen@.take(i as int);
            assert(seen@.take(i + 1) =~= earlier.push(pos));
            earlier.lemma_push_to_set_commute(pos);
        }
        i = i + 1;
    }
    proof {
        assert(seen@.take(i as int) =~= seen@);
    }
}

/// The field of view of `unit`: the unobstructed disc of its range for an
/// air unit, and what the terrain-aware field of view `los` sees over its
/// range for any other.
pub open spec fn sight(
    types: Seq<UnitType>,
    state: &GameState,
    unit: Unit,
    los: spec_fn(MapPos, i32) -> Set<MapPos>,
) -> Set<MapPos> {
    let unit_type = unit_type_of(types, unit.type_id);
    if unit_type.is_air {
        disc(state.size(), unit.pos.map_pos, unit_type.los_range as int)
    } else {
        los(unit.pos.map_pos, unit_type.los_range)
    }
}

/// What `unit` contributes to the visibility of the tile `pos`.
pub open spec fn contribution(
    types: Seq<UnitType>,
    state: &GameState,
    unit: Unit,
    los: spec_fn(MapPos, i32) -> Set<MapPos>,
    pos: MapPos,
) -> TileVisibility {
    observed(
        state,
        unit_type_of(types, unit.type_id),
        unit.pos.map_pos,
        sight(types, state, unit, los),
        pos,
    )
}

/// The visibility map `fow` after the sight of `unit` was merged into it.
pub open spec fn spec_fov_unit(
    fow: Map<MapPos, TileVisibility>,
    types: Seq<UnitType>,
    state: &GameState,
    unit: Unit,
    los: spec_fn(MapPos, i32) -> Set<MapPos>,
) -> Map<MapPos, TileVisibility> {
    swept(
        fow,
        state,
        unit_type_of(types, unit.type_id),
        unit.pos.map_pos,
        sight(types, state, unit, los),
    )
}

/// Merges the sight of the living unit `unit` into the visibility map `fow`.
///
/// The field of view of an air unit is the unobstructed disc of its range;
/// that of any other unit is what `fov` returns for its position and range.
/// Every tile in the field of view is raised to how well the unit sees it,
/// unless it is seen better already. No tile's visibility decreases, and no
/// tile outside the field of view changes.
pub fn fov_unit<F: Fn(&GameState, MapPos, i32) -> Vec<MapPos>>(
    db: &Db,
    state: &GameState,
    fow: &mut TileMap<TileVisibility>,
    unit: &Unit,
    fov: &F,
)
    requires
        state.wf(),
        old(fow).wf(),
        old(fow).spec_size() == state.size(),
        unit.is_alive,
        db.spec_has(unit.type_id),
        is_fov_primitive(fov, state),
    ensures
        final(fow).wf(),
        final(fow).spec_size() == old(fow).spec_size(),
        final(fow)@ == spec_fov_unit(old(fow)@, db@, state, *unit, sight_of(fov, state)),
        forall|los: spec_fn(MapPos, i32) -> Set<MapPos>| #[trigger]
            describes(fov, state, los) ==> final(fow)@ == spec_fov_unit(
                old(fow)@,
                db@,
                state,
                *unit,
                los,
            ),
        forall|pos: MapPos|
            old(fow)@.dom().contains(pos) ==> old(fow)@[pos].spec_le(#[trigger] final(fow)@[pos]),
        forall|pos: MapPos|
            old(fow)@.dom().contains(pos) && !sight(
                db@,
                state,
                *unit,
                sight_of(fov, state),
            ).contains(pos) ==> #[trigger] final(fow)@[pos] == old(fow)@[pos],
{
    let origin = unit.pos.map_pos;
    let unit_type = db.unit_type(unit.type_id);
    let range = unit_type.los_range;
    let seen = if unit_type.is_air {
        let seen = simple_fov(state, origin, range);
        proof {
            assert forall|i: int| 0 <= i < seen@.len() implies state.on_map(
                #[trigger] seen@[i],
            ) by {
                assert(seen@.to_set().contains(seen@[i]));
            }
        }
        seen
    } else {
        fov(state, origin, range)
    };
    merge_sight(state, unit_type, origin, fow, &seen);
}

/// Merging the sight of a unit twice in a row gives the same map as merging
/// it once.
pub proof fn lemma_fov_unit_idempotent(
    fow: Map<MapPos, TileVisibility>,
    types: Seq<UnitType>,
    state: &GameState,
    unit: Unit,
    los: spec_fn(MapPos, i32) -> Set<MapPos>,
)
    ensures
        spec_fov_unit(spec_fov_unit(fow, types, state, unit, los), types, state, unit, los)
            == spec_fov_unit(fow, types, state, unit, los),
{
    assert(spec_fov_unit(spec_fov_unit(fow, types, state, unit, los), types, state, unit, los)
        =~= spec_fov_unit(fow, types, state, unit, los));
}

/// Merging the sights of two units gives the same map in either order.
pub proof fn lemma_fov_unit_commutes(
    fow: Map<MapPos, TileVisibility>,
    types: Seq<UnitType>,
    state: &GameState,
    first: Unit,
    second: Unit,
    los: spec_fn(MapPos, i32) -> Set<MapPos>,
)
    ensures
        spec_fov_unit(spec_fov_unit(fow, types, state, first, los), types, state, second, los)
            == spec_fov_unit(
            spec_fov_unit(fow, types, state, second, los),
            types,
            state,
            first,
            los,
        ),
{
    assert(spec_fov_unit(spec_fov_unit(fow, types, state, first, los), types, state, second, los)
        =~= spec_fov_unit(
        spec_fov_unit(fow, types, state, second, los),
        types,
        state,
        first,
        los,
    ));
}

/// Merging the sight of a unit keeps the tiles of the map, lowers the
/// visibility of none, and changes none outside the unit's field of view.
pub proof fn lemma_fov_unit_monotone(
    fow: Map<MapPos, TileVisibility>,
    types: Seq<UnitType>,
    state: &GameState,
    unit: Unit,
    los: spec_fn(MapPos, i32) -> Set<MapPos>,
)
    ensures
        spec_fov_unit(fow, types, state, unit, los).dom() == fow.dom(),
        forall|pos: MapPos|
            fow.dom().contains(pos) ==> fow[pos].spec_le(
                #[trigger] spec_fov_unit(fow, types, state, unit, los)[pos],
            ),
        forall|pos: MapPos|
            fow.dom().contains(pos) && !sight(types, state, unit, los).contains(pos)
                ==> #[trigger] spec_fov_unit(fow, types, state, unit, los)[pos] == fow[pos],
{
}

} // verus!
