//! The fog of war of one player: the rules by which it answers whether a
//! unit is seen and by which events change it, and the controller that owns
//! the visibility map.

use crate::event::CoreEvent;
use crate::fov::{describes, is_fov_primitive, sight_of};
use crate::geometry::{distance, hex_distance, lemma_positions_cover, ExactPos, MapPos, Size2};
use crate::grid::TileMap;
use crate::state::GameState;
use crate::sweep::{contribution, fov_unit, lemma_fov_unit_monotone, spec_fov_unit};
use crate::unit::{has_unit_type, unit_type_of, Db, PlayerId, Unit, UnitId, UnitType};
use crate::visibility::TileVisibility;
use std::rc::Rc;
use vstd::prelude::*;

verus! {

/// A tile with the given visibility shows a unit on it: always where the
/// visibility is excellent, only a unit that is no infantry where it is
/// normal, and never where there is none.
pub open spec fn shows(visibility: TileVisibility, is_infantry: bool) -> bool {
    match visibility {
        TileVisibility::Excellent => true,
        TileVisibility::Normal => !is_infantry,
        TileVisibility::No => false,
    }
}

/// `observer` spots an air unit `unit` over the tile `pos`: it belongs to
/// another player than the air unit, and the tile is within its range.
pub open spec fn spots(types: Seq<UnitType>, observer: Unit, unit: Unit, pos: MapPos) -> bool {
    observer.player_id != unit.player_id && hex_distance(pos, observer.pos.map_pos)
        <= unit_type_of(types, observer.type_id).los_range
}

/// Some unit of `state` spots the air unit `unit` over the tile `pos`.
pub open spec fn spotted(types: Seq<UnitType>, state: &GameState, unit: Unit, pos: MapPos) -> bool {
    exists|i: int|
        0 <= i < state.spec_units().len() && spots(
            types,
            #[trigger] state.spec_units()[i],
            unit,
            pos,
        )
}

/// Every unit of `state` that belongs to another player than `unit` has its
/// type in `types`.
pub open spec fn spotters_known(types: Seq<UnitType>, state: &GameState, unit: Unit) -> bool {
    forall|i: int|
        0 <= i < state.spec_units().len() && (#[trigger] state.spec_units()[i]).player_id
            != unit.player_id ==> has_unit_type(types, state.spec_units()[i].type_id)
}

/// The question whether `unit` is seen at `pos` can be answered: unless the
/// unit is loaded, its type is in `types`; for an air unit, so are the types
/// of the units of the other players; and the tile lies on the map, unless
/// the unit is an air unit that is spotted there.
pub open spec fn query_ready(
    fow: Map<MapPos, TileVisibility>,
    types: Seq<UnitType>,
    state: &GameState,
    unit: Unit,
    pos: ExactPos,
) -> bool {
    unit.is_loaded || {
        &&& has_unit_type(types, unit.type_id)
        &&& unit_type_of(types, unit.type_id).is_air ==> spotters_known(types, state, unit)
        &&& fow.dom().contains(pos.map_pos) || (unit_type_of(types, unit.type_id).is_air
            && spotted(types, state, unit, pos.map_pos))
    }
}

/// Whether the owner of the visibility map `fow` sees `unit` at `pos`.
///
/// A loaded unit is never seen. An air unit is seen where a unit of another
/// player spots it, and any unit is seen where the visibility of its tile
/// shows it.
pub open spec fn spec_is_visible(
    fow: Map<MapPos, TileVisibility>,
    types: Seq<UnitType>,
    state: &GameState,
    unit: Unit,
    pos: ExactPos,
) -> bool {
    let unit_type = unit_type_of(types, unit.type_id);
    &&& !unit.is_loaded
    &&& (unit_type.is_air && spotted(types, state, unit, pos.map_pos)) || shows(
        fow[pos.map_pos],
        unit_type.is_infantry,
    )
}

/// The visibility map `fow` with nothing seen on any tile.
pub open spec fn cleared(fow: Map<MapPos, TileVisibility>) -> Map<MapPos, TileVisibility> {
    Map::new(|pos: MapPos| fow.dom().contains(pos), |pos: MapPos| TileVisibility::No)
}

/// `unit` adds its sight to the fog of war of `player`: it belongs to the
/// player and is alive.
pub open spec fn contributes(unit: Unit, player: PlayerId) -> bool {
    unit.player_id == player && unit.is_alive
}

/// The visibility map `fow` after the sight of every unit of `units` that
/// contributes to the fog of war of `player` was merged into it, in order.
pub open spec fn swept_units(
    fow: Map<MapPos, TileVisibility>,
    types: Seq<UnitType>,
    state: &GameState,
    units: Seq<Unit>,
    player: PlayerId,
    los: spec_fn(MapPos, i32) -> Set<MapPos>,
) -> Map<MapPos, TileVisibility>
    decreases units.len(),
{
    if units.len() == 0 {
        fow
    } else {
        let before = swept_units(fow, types, state, units.drop_last(), player, los);
        if contributes(units.last(), player) {
            spec_fov_unit(before, types, state, units.last(), los)
        } else {
            before
        }
    }
}

/// The visibility map `fow` after a reset for `player`: cleared, and then
/// grown by the sight of every unit of the state that contributes.
pub open spec fn spec_reset(
    fow: Map<MapPos, TileVisibility>,
    types: Seq<UnitType>,
    state: &GameState,
    player: PlayerId,
    los: spec_fn(MapPos, i32) -> Set<MapPos>,
) -> Map<MapPos, TileVisibility> {
    swept_units(cleared(fow), types, state, state.spec_units(), player, los)
}

/// Merging the sights of units keeps the tiles of the map.
pub proof fn lemma_swept_units_dom(
    fow: Map<MapPos, TileVisibility>,
    types: Seq<UnitType>,
    state: &GameState,
    units: Seq<Unit>,
    player: PlayerId,
    los: spec_fn(MapPos, i32) -> Set<MapPos>,
)
    ensures
        swept_units(fow, types, state, units, player, los).dom() == fow.dom(),
    decreases units.len(),
{
    if units.len() > 0 {
        lemma_swept_units_dom(fow, types, state, units.drop_last(), player, los);
        lemma_fov_unit_monotone(
            swept_units(fow, types, state, units.drop_last(), player, los),
            types,
            state,
            units.last(),
            los,
        );
    }
}

/// After the sights of units were merged into a map, a tile holds the join
/// of what it held before and of what the contributing units see of it: its
/// visibility is at least what it was and at least what each contributing
/// unit sees, and it is what it was or what one of them sees.
pub proof fn lemma_swept_units_is_join(
    fow: Map<MapPos, TileVisibility>,
    types: Seq<UnitType>,
    state: &GameState,
    units: Seq<Unit>,
    player: PlayerId,
    los: spec_fn(MapPos, i32) -> Set<MapPos>,
    pos: MapPos,
)
    requires
        fow.dom().contains(pos),
    ensures
        fow[pos].spec_le(swept_units(fow, types, state, units, player, los)[pos]),
        forall|i: int|
            0 <= i < units.len() && contributes(#[trigger] units[i], player) ==> contribution(
                types,
                state,
                units[i],
                los,
                pos,
            ).spec_le(swept_units(fow, types, state, units, player, los)[pos]),
        swept_units(fow, types, state, units, player, los)[pos] == fow[pos] || exists|i: int|
            0 <= i < units.len() && contributes(#[trigger] units[i], player) && contribution(
                types,
                state,
                units[i],
                los,
                pos,
            ) == swept_units(fow, types, state, units, player, los)[pos],
    decreases units.len(),
{
    if units.len() > 0 {
        let head = units.drop_last();
        let before = swept_units(fow, types, state, head, player, los);
        let after = swept_units(fow, types, state, units, player, los);
        lemma_swept_units_is_join(fow, types, state, head, player, los, pos);
        lemma_swept_units_dom(fow, types, state, head, player, los);
        assert forall|i: int|
            0 <= i < units.len() && contributes(#[trigger] units[i], player) implies contribution(
            types,
            state,
            units[i],
            los,
            pos,
        ).spec_le(after[pos]) by {
            if i < head.len() {
                assert(head[i] == units[i]);
            }
        }
        if after[pos] != fow[pos] && after[pos] == before[pos] {
            let i = choose|i: int|
                0 <= i < head.len() && contributes(#[trigger] head[i], player) && contribution(
                    types,
                    state,
                    head[i],
                    los,
                    pos,
                ) == before[pos];
            assert(units[i] == head[i]);
        }
    }
}

/// The order of the units does not matter, nor does it matter how often a
/// unit occurs: merging the sights of two sequences that hold the same units
/// gives the same map.
pub proof fn lemma_swept_units_order_free(
    fow: Map<MapPos, TileVisibility>,
    types: Seq<UnitType>,
    state: &GameState,
    units: Seq<Unit>,
    others: Seq<Unit>,
    player: PlayerId,
    los: spec_fn(MapPos, i32) -> Set<MapPos>,
)
    requires
        forall|unit: Unit| units.contains(unit) <==> others.contains(unit),
    ensures
        swept_units(fow, types, state, units, player, los) == swept_units(
            fow,
            types,
            state,
            others,
            player,
            los,
        ),
{
    let one = swept_units(fow, types, state, units, player, los);
    let other = swept_units(fow, types, state, others, player, los);
    lemma_swept_units_dom(fow, types, state, units, player, los);
    lemma_swept_units_dom(fow, types, state, others, player, los);
    assert forall|pos: MapPos| fow.dom().contains(pos) implies one[pos] == other[pos] by {
        lemma_swept_units_is_join(fow, types, state, units, player, los, pos);
        lemma_swept_units_is_join(fow, types, state, others, player, los, pos);
        if one[pos] != fow[pos] {
            let i = choose|i: int|
                0 <= i < units.len() && contributes(#[trigger] units[i], player) && contribution(
                    types,
                    state,
                    units[i],
                    los,
                    pos,
                ) == one[pos];
            assert(units.contains(units[i]));
            let j = others.index_of(units[i]);
            assert(contributes(others[j], player));
        }
        if other[pos] != fow[pos] {
            let j = choose|j: int|
                0 <= j < others.len() && contributes(#[trigger] others[j], player) && contribution(
                    types,
                    state,
                    others[j],
                    los,
                    pos,
                ) == other[pos];
            assert(others.contains(others[j]));
            let i = units.index_of(others[j]);
            assert(contributes(units[i], player));
        }
    }
    assert(one =~= other);
}

/// After a reset, a tile holds the join of what the living units of the
/// player see of it: its visibility is at least what each of them sees, and
/// it is `No` or what one of them sees.
pub proof fn lemma_reset_is_join(
    fow: Map<MapPos, TileVisibility>,
    types: Seq<UnitType>,
    state: &GameState,
    player: PlayerId,
    los: spec_fn(MapPos, i32) -> Set<MapPos>,
    pos: MapPos,
)
    requires
        fow.dom().contains(pos),
    ensures
        spec_reset(fow, types, state, player, los).dom() == fow.dom(),
        forall|i: int|
            0 <= i < state.spec_units().len() && contributes(
                #[trigger] state.spec_units()[i],
                player,
            ) ==> contribution(types, state, state.spec_units()[i], los, pos).spec_le(
                spec_reset(fow, types, state, player, los)[pos],
            ),
        spec_reset(fow, types, state, player, los)[pos] == TileVisibility::No || exists|i: int|
            0 <= i < state.spec_units().len() && contributes(
                #[trigger] state.spec_units()[i],
                player,
            ) && contribution(types, state, state.spec_units()[i], los, pos) == spec_reset(
                fow,
                types,
                state,
                player,
                los,
            )[pos],
{
    lemma_swept_units_dom(cleared(fow), types, state, state.spec_units(), player, los);
    lemma_swept_units_is_join(cleared(fow), types, state, state.spec_units(), player, los, pos);
}

/// A reset forgets the map that it starts from: two maps with the same tiles
/// are the same after a reset, and a second reset changes nothing.
pub proof fn lemma_reset_idempotent(
    fow: Map<MapPos, TileVisibility>,
    other: Map<MapPos, TileVisibility>,
    types: Seq<UnitType>,
    state: &GameState,
    player: PlayerId,
    los: spec_fn(MapPos, i32) -> Set<MapPos>,
)
    requires
        fow.dom() == other.dom(),
    ensures
        spec_reset(fow, types, state, player, los) == spec_reset(other, types, state, player, los),
        spec_reset(spec_reset(fow, types, state, player, los), types, state, player, los)
            == spec_reset(fow, types, state, player, los),
{
    let once = spec_reset(fow, types, state, player, los);
    lemma_swept_units_dom(cleared(fow), types, state, state.spec_units(), player, los);
    assert(cleared(once) =~= cleared(fow));
}

/// A unit that is to be swept is alive and has its type in `types`.
pub open spec fn can_sweep(types: Seq<UnitType>, unit: Unit) -> bool {
    unit.is_alive && has_unit_type(types, unit.type_id)
}

/// Every unit of `state` that contributes to the fog of war of `player` has
/// its type in `types`.
pub open spec fn contributors_known(
    types: Seq<UnitType>,
    state: &GameState,
    player: PlayerId,
) -> bool {
    forall|i: int|
        0 <= i < state.spec_units().len() && contributes(#[trigger] state.spec_units()[i], player)
            ==> has_unit_type(types, state.spec_units()[i].type_id)
}

/// The event `event` starts the turn of `player`.
pub open spec fn starts_turn(player: PlayerId, event: CoreEvent) -> bool {
    event matches CoreEvent::EndTurn { new_id, .. } && new_id == player
}

/// The unit whose sight the event `event` adds to the fog of war of
/// `player`, if there is one: the unit that moved, was created, was unloaded
/// or was detached from, if it is the player's. Of a unit that is created or
/// unloaded the event names the owner; for the others the state does.
pub open spec fn observer(player: PlayerId, state: &GameState, event: CoreEvent) -> Option<Unit> {
    match event {
        CoreEvent::Move { unit_id, .. } => if state.spec_unit(unit_id).player_id == player {
            Some(state.spec_unit(unit_id))
        } else {
            None
        },
        CoreEvent::CreateUnit { unit_info } => if unit_info.player_id == player {
            Some(state.spec_unit(unit_info.unit_id))
        } else {
            None
        },
        CoreEvent::UnloadUnit { unit_info } => if unit_info.player_id == player {
            Some(state.spec_unit(unit_info.unit_id))
        } else {
            None
        },
        CoreEvent::Detach { transporter_id } => if state.spec_unit(transporter_id).player_id
            == player {
            Some(state.spec_unit(transporter_id))
        } else {
            None
        },
        _ => None,
    }
}

/// The attacker that the event `event` gives away, if there is one: the
/// attacker of an attack that is no ambush, where the event names it.
pub open spec fn revealed_attacker(event: CoreEvent) -> Option<UnitId> {
    match event {
        CoreEvent::AttackUnit { attack_info } => if attack_info.is_ambush {
            None
        } else {
            attack_info.attacker_id
        },
        _ => None,
    }
}

/// The units that the event `event` has looked up in the state exist in it.
pub open spec fn units_resolve(player: PlayerId, state: &GameState, event: CoreEvent) -> bool {
    match event {
        CoreEvent::Move { unit_id, .. } => state.spec_has_unit(unit_id),
        CoreEvent::CreateUnit { unit_info } => state.spec_has_unit(unit_info.unit_id),
        CoreEvent::UnloadUnit { unit_info } => unit_info.player_id == player
            ==> state.spec_has_unit(unit_info.unit_id),
        CoreEvent::Detach { transporter_id } => state.spec_has_unit(transporter_id),
        _ => revealed_attacker(event) matches Some(attacker_id) ==> state.spec_has_unit(
            attacker_id,
        ),
    }
}

/// The event `event` can be applied to the fog of war of `player`: the units
/// that it has looked up exist, a unit whose sight it adds is alive and of a
/// known type, an attacker that it gives away stands on the map, and where
/// it starts the player's turn the types of the player's living units are
/// known.
pub open spec fn event_ready(
    player: PlayerId,
    types: Seq<UnitType>,
    state: &GameState,
    event: CoreEvent,
) -> bool {
    &&& units_resolve(player, state, event)
    &&& observer(player, state, event) matches Some(unit) ==> can_sweep(types, unit)
    &&& revealed_attacker(event) matches Some(attacker_id) ==> state.on_map(
        state.spec_unit(attacker_id).pos.map_pos,
    )
    &&& starts_turn(player, event) ==> contributors_known(types, state, player)
}

/// The visibility map `fow` of `player` after the event `event`.
///
/// The start of the player's turn resets the map. A move, a creation, an
/// unloading and a detachment merge the sight of the unit concerned, if it
/// is the player's. An attack that is no ambush sets the attacker's tile to
/// excellent, whoever attacks and whoever is attacked. No other event
/// changes the map.
pub open spec fn spec_apply_event(
    fow: Map<MapPos, TileVisibility>,
    player: PlayerId,
    types: Seq<UnitType>,
    state: &GameState,
    event: CoreEvent,
    los: spec_fn(MapPos, i32) -> Set<MapPos>,
) -> Map<MapPos, TileVisibility> {
    if starts_turn(player, event) {
        spec_reset(fow, types, state, player, los)
    } else if let Some(unit) = observer(player, state, event) {
        spec_fov_unit(fow, types, state, unit, los)
    } else if let Some(attacker_id) = revealed_attacker(event) {
        fow.insert(state.spec_unit(attacker_id).pos.map_pos, TileVisibility::Excellent)
    } else {
        fow
    }
}

/// An event keeps the tiles of the map.
pub proof fn lemma_apply_event_dom(
    fow: Map<MapPos, TileVisibility>,
    player: PlayerId,
    types: Seq<UnitType>,
    state: &GameState,
    event: CoreEvent,
    los: spec_fn(MapPos, i32) -> Set<MapPos>,
)
    requires
        fow.dom() == state.size().tiles(),
        event_ready(player, types, state, event),
    ensures
        spec_apply_event(fow, player, types, state, event, los).dom() == fow.dom(),
{
    if starts_turn(player, event) {
        lemma_swept_units_dom(cleared(fow), types, state, state.spec_units(), player, los);
    }
}

/// Within a turn nothing is unseen: an event that does not start the
/// player's turn lowers the visibility of no tile. An attack that is no
/// ambush leaves the attacker's tile excellent.
pub proof fn lemma_apply_event_monotone(
    fow: Map<MapPos, TileVisibility>,
    player: PlayerId,
    types: Seq<UnitType>,
    state: &GameState,
    event: CoreEvent,
    los: spec_fn(MapPos, i32) -> Set<MapPos>,
)
    requires
        !starts_turn(player, event),
    ensures
        forall|pos: MapPos|
            fow.dom().contains(pos) ==> fow[pos].spec_le(
                #[trigger] spec_apply_event(fow, player, types, state, event, los)[pos],
            ),
        revealed_attacker(event) matches Some(attacker_id) ==> spec_apply_event(
            fow,
            player,
            types,
            state,
            event,
            los,
        )[state.spec_unit(attacker_id).pos.map_pos] == TileVisibility::Excellent,
{
}

/// The fog of war of one player: how well the player sees each tile of the
/// map. Its view is the map from the tiles to their visibility.
#[derive(Clone, Debug)]
pub struct Fow {
    map: TileMap<TileVisibility>,
    player_id: PlayerId,
    db: Rc<Db>,
}

impl View for Fow {
    type V = Map<MapPos, TileVisibility>;

    closed spec fn view(&self) -> Map<MapPos, TileVisibility> {
        self.map@
    }
}

impl Fow {
    /// The visibility map holds one value for each tile of the map.
    pub closed spec fn wf(&self) -> bool {
        self.map.wf()
    }

    /// The dimensions of the map.
    pub closed spec fn spec_size(&self) -> Size2 {
        self.map.spec_size()
    }

    /// The player whose fog of war this is.
    pub closed spec fn spec_player_id(&self) -> PlayerId {
        self.player_id
    }

    /// The unit types of the database that this fog of war shares.
    pub closed spec fn types(&self) -> Seq<UnitType> {
        (*self.db)@
    }

    /// The view is defined on the tiles of the map and on nothing else.
    pub proof fn lemma_view_dom(&self)
        ensures
            self@.dom() == self.spec_size().tiles(),
            forall|pos: MapPos| self@.dom().contains(pos) <==> self.spec_size().spec_contains(pos),
    {
        self.map.lemma_view_dom();
    }

    /// The fog of war of the player `player_id` on a map of the size
    /// `map_size`, with nothing seen on any tile.
    pub fn new(db: Rc<Db>, map_size: Size2, player_id: PlayerId) -> (fow: Fow)
        ensures
            fow.wf(),
            fow.spec_size() == map_size,
            fow.spec_player_id() == player_id,
            fow.types() == (*db)@,
            fow@ == Map::new(
                |pos: MapPos| map_size.spec_contains(pos),
                |pos: MapPos| TileVisibility::No,
            ),
    {
        Fow { map: TileMap::new(map_size, TileVisibility::No), player_id, db }
    }

    /// The player whose fog of war this is.
    pub fn player_id(&self) -> (player_id: PlayerId)
        ensures
            player_id == self.spec_player_id(),
    {
        self.player_id
    }

    /// The dimensions of the map.
    pub fn size(&self) -> (size: Size2)
        ensures
            size == self.spec_size(),
    {
        self.map.size()
    }

    /// The database of unit types that this fog of war shares.
    pub fn db(&self) -> (db: &Db)
        ensures
            db@ == self.types(),
    {
        &self.db
    }

    /// How well the player sees the tile `pos`.
    pub fn tile_visibility(&self, pos: MapPos) -> (visibility: TileVisibility)
        requires
            self.wf(),
            self@.dom().contains(pos),
        ensures
            visibility == self@[pos],
    {
        *self.map.tile(pos)
    }

    /// Whether the player sees the tile `pos` at all, whoever stands on it.
    pub fn is_tile_visible(&self, pos: MapPos) -> (b: bool)
        requires
            self.wf(),
            self@.dom().contains(pos),
        ensures
            b == (self@[pos] != TileVisibility::No),
    {
        match *self.map.tile(pos) {
            TileVisibility::Excellent | TileVisibility::Normal => true,
            TileVisibility::No => false,
        }
    }

    /// Whether the visibility of the tile `pos` shows a unit of the type
    /// `unit_type` that stands on it.
    pub fn check_terrain_visibility(&self, unit_type: &UnitType, pos: MapPos) -> (b: bool)
        requires
            self.wf(),
            self@.dom().contains(pos),
        ensures
            b == shows(self@[pos], unit_type.is_infantry),
    {
        match *self.map.tile(pos) {
            TileVisibility::Excellent => true,
            TileVisibility::Normal => !unit_type.is_infantry,
            TileVisibility::No => false,
        }
    }

    /// Whether some unit of `state` spots the air unit `unit` over the tile
    /// `pos`: a unit of another player than that of `unit`, with the tile
    /// within its range. The viewing player's own units count as any other
    /// player's, and neither terrain nor cover matter.
    pub fn is_spotted(&self, state: &GameState, unit: &Unit, pos: MapPos) -> (b: bool)
        requires
            spotters_known(self.types(), state, *unit),
        ensures
            b == spotted(self.types(), state, *unit, pos),
    {
        let units = state.units();
        let mut i: usize = 0;
        while i < units.len()
            invariant
                0 <= i <= units@.len(),
                units@ == state.spec_units(),
                spotters_known(self.types(), state, *unit),
                forall|k: int|
                    0 <= k < i ==> !spots(self.types(), #[trigger] units@[k], *unit, pos),
            decreases units@.len() - i,
        {
            let enemy_unit = &units[i];
            if !(enemy_unit.player_id == unit.player_id) {
                let enemy_unit_type = self.db.unit_type(enemy_unit.type_id);
                let distance = distance(pos, enemy_unit.pos.map_pos);
                if distance <= enemy_unit_type.los_range as i64 {
                    return true;
                }
            }
            i = i + 1;
        }
        false
    }

    /// Whether the player sees `unit` at `pos`.
    ///
    /// A loaded unit is never seen. An air unit is seen where a unit of
    /// another player than its own has the tile within its range, whatever
    /// the terrain. Otherwise the visibility of the tile decides, by the type
    /// of `unit`: an excellent tile shows every unit, a normal tile every
    /// unit but infantry.
    ///
    /// The tile has to lie on the map unless the answer is found without it.
    pub fn is_visible(&self, state: &GameState, unit: &Unit, pos: ExactPos) -> (b: bool)
        requires
            self.wf(),
            query_ready(self@, self.types(), state, *unit, pos),
        ensures
            b == spec_is_visible(self@, self.types(), state, *unit, pos),
            unit.is_loaded ==> !b,
            !unit.is_loaded && !unit_type_of(self.types(), unit.type_id).is_air
                && self@[pos.map_pos] == TileVisibility::Normal ==> (!b <==> unit_type_of(
                self.types(),
                unit.type_id,
            ).is_infantry),
    {
        if unit.is_loaded {
            return false;
        }
        let unit_type = self.db.unit_type(unit.type_id);
        if unit_type.is_air && self.is_spotted(state, unit, pos.map_pos) {
            return true;
        }
        self.check_terrain_visibility(unit_type, pos.map_pos)
    }

    /// Sets every tile to not seen.
    fn clear(&mut self)
        requires
            old(self).wf(),
        ensures
            final(self).wf(),
            final(self).spec_size() == old(self).spec_size(),
            final(self).spec_player_id() == old(self).spec_player_id(),
            final(self).types() == old(self).types(),
            final(self)@ == cleared(old(self)@),
    {
        let positions = self.map.get_iter();
        let mut i: usize = 0;
        proof {
            self.map.lemma_view_dom();
            lemma_positions_cover(self.map.spec_size());
        }
        while i < positions.len()
            invariant
                0 <= i <= positions@.len(),
                positions@ == self.map.spec_size().spec_positions(),
                positions@.to_set() == self.map.spec_size().tiles(),
                self.map.wf(),
                self.map.spec_size() == old(self).map.spec_size(),
                self.player_id == old(self).player_id,
                self.db == old(self).db,
                self.map@.dom() == old(self).map@.dom(),
                self.map@.dom() == self.map.spec_size().tiles(),
                forall|k: int|
                    0 <= k < i ==> self.map@[#[trigger] positions@[k]] == TileVisibility::No,
            decreases positions@.len() - i,
        {
            let pos = positions[i];
            self.map.set_tile(pos, TileVisibility::No);
            i = i + 1;
        }
        proof {
            assert forall|pos: MapPos| self.map@.dom().contains(pos) implies self.map@[pos]
                == TileVisibility::No by {
                let k = positions@.index_of(pos);
                assert(self.map@[positions@[k]] == TileVisibility::No);
            }
        }
    }

    /// Rebuilds the map from nothing: clears it, and merges the sight of
    /// every living unit of the player.
    fn reset<F: Fn(&GameState, MapPos, i32) -> Vec<MapPos>>(&mut self, state: &GameState, fov: &F)
        requires
            old(self).wf(),
            state.wf(),
            old(self).spec_size() == state.size(),
            is_fov_primitive(fov, state),
            contributors_known(old(self).types(), state, old(self).spec_player_id()),
        ensures
            final(self).wf(),
            final(self).spec_size() == old(self).spec_size(),
            final(self).spec_player_id() == old(self).spec_player_id(),
            final(self).types() == old(self).types(),
            final(self)@ == spec_reset(
                old(self)@,
                old(self).types(),
                state,
                old(self).spec_player_id(),
                sight_of(fov, state),
            ),
            forall|los: spec_fn(MapPos, i32) -> Set<MapPos>| #[trigger]
                describes(fov, state, los) ==> final(self)@ == spec_reset(
                    old(self)@,
                    old(self).types(),
                    state,
                    old(self).spec_player_id(),
                    los,
                ),
    {
        self.clear();
        let units = state.units();
        let mut i: usize = 0;
        let ghost start = self@;
        while i < units.len()
            invariant
                0 <= i <= units@.len(),
                units@ == state.spec_units(),
                state.wf(),
                is_fov_primitive(fov, state),
                contributors_known(self.types(), state, self.spec_player_id()),
                self.map.wf(),
                self.map.spec_size() == state.size(),
                self.map.spec_size() == old(self).map.spec_size(),
                self.player_id == old(self).player_id,
                self.types() == old(self).types(),
                forall|los: spec_fn(MapPos, i32) -> Set<MapPos>| #[trigger]
                    describes(fov, state, los) ==> self.map@ == swept_units(
                        start,
                        self.types(),
                        state,
                        units@.take(i as int),
                        self.player_id,
                        los,
                    ),
            decreases units@.len() - i,
        {
            let unit = &units[i];
            proof {
                assert(units@.take(i + 1).drop_last() =~= units@.take(i as int));
            }
            if unit.player_id == self.player_id && unit.is_alive {
                fov_unit(&self.db, state, &mut self.map, unit, fov);
            }
            i = i + 1;
        }
        proof {
            assert(units@.take(i as int) =~= units@);
        }
    }

    /// Updates the map by one event of the game.
    ///
    /// A move, a creation, an unloading and a detachment merge the sight of
    /// the unit concerned, if it is the player's. The start of the player's
    /// turn rebuilds the map from the player's living units. An attack that
    /// is no ambush sets the attacker's tile to excellent, whoever attacks.
    /// No other event changes the map.
    ///
    /// `fov` is the terrain-aware field of view, by which units other than
    /// air units see.
    pub fn apply_event<F: Fn(&GameState, MapPos, i32) -> Vec<MapPos>>(
        &mut self,
        state: &GameState,
        event: &CoreEvent,
        fov: &F,
    )
        requires
            old(self).wf(),
            state.wf(),
            old(self).spec_size() == state.size(),
            is_fov_primitive(fov, state),
            event_ready(old(self).spec_player_id(), old(self).types(), state, *event),
        ensures
            final(self).wf(),
            final(self).spec_size() == old(self).spec_size(),
            final(self).spec_player_id() == old(self).spec_player_id(),
            final(self).types() == old(self).types(),
            final(self)@ == spec_apply_event(
                old(self)@,
                old(self).spec_player_id(),
                old(self).types(),
                state,
                *event,
                sight_of(fov, state),
            ),
            forall|los: spec_fn(MapPos, i32) -> Set<MapPos>| #[trigger]
                describes(fov, state, los) ==> final(self)@ == spec_apply_event(
                    old(self)@,
                    old(self).spec_player_id(),
                    old(self).types(),
                    state,
                    *event,
                    los,
                ),
            revealed_attacker(*event) matches Some(attacker_id) ==> final(self)@[state.spec_unit(
                attacker_id,
            ).pos.map_pos] == TileVisibility::Excellent,
    {
        match *event {
            CoreEvent::Move { unit_id, .. } => {
                let unit = state.unit(unit_id);
                if unit.player_id == self.player_id {
                    fov_unit(&self.db, state, &mut self.map, unit, fov);
                }
            },
            CoreEvent::EndTurn { new_id, .. } => {
                if self.player_id == new_id {
                    self.reset(state, fov);
                }
            },
            CoreEvent::CreateUnit { unit_info } => {
                let unit = state.unit(unit_info.unit_id);
                if self.player_id == unit_info.player_id {
                    fov_unit(&self.db, state, &mut self.map, unit, fov);
                }
            },
            CoreEvent::AttackUnit { attack_info } => {
                if let Some(attacker_id) = attack_info.attacker_id {
                    if !attack_info.is_ambush {
                        let pos = state.unit(attacker_id).pos;
                        proof {
                            self.map.lemma_view_dom();
                        }
                        self.map.set_tile(pos.map_pos, TileVisibility::Excellent);
                    }
                }
            },
            CoreEvent::UnloadUnit { unit_info } => {
                if self.player_id == unit_info.player_id {
                    let unit = state.unit(unit_info.unit_id);
                    fov_unit(&self.db, state, &mut self.map, unit, fov);
                }
            },
            CoreEvent::Detach { transporter_id } => {
                let transporter = state.unit(transporter_id);
                if self.player_id == transporter.player_id {
                    fov_unit(&self.db, state, &mut self.map, transporter, fov);
                }
            },
            CoreEvent::ShowUnit { .. }
            | CoreEvent::HideUnit { .. }
            | CoreEvent::LoadUnit { .. }
            | CoreEvent::Attach { .. }
            | CoreEvent::SetReactionFireMode { .. }
            | CoreEvent::SectorOwnerChanged { .. }
            | CoreEvent::Smoke { .. }
            | CoreEvent::RemoveSmoke { .. }
            | CoreEvent::VictoryPoint { .. } => {},
        }
    }
}

/// Tests for callers outside verified code: whether a call meets what the
/// query and the replay require.
impl Fow {
    /// Whether every unit of `state` that belongs to another player than
    /// `unit` has its type in the database.
    pub fn knows_spotters(&self, state: &GameState, unit: &Unit) -> (b: bool)
        ensures
            b == spotters_known(self.types(), state, *unit),
    {
        let units = state.units();
        let mut i: usize = 0;
        while i < units.len()
            invariant
                0 <= i <= units@.len(),
                units@ == state.spec_units(),
                forall|k: int|
                    0 <= k < i && (#[trigger] units@[k]).player_id != unit.player_id
                        ==> has_unit_type(self.types(), units@[k].type_id),
            decreases units@.len() - i,
        {
            if !(units[i].player_id == unit.player_id) && !self.db.has(units[i].type_id) {
                return false;
            }
            i = i + 1;
        }
        true
    }

    /// Whether `is_visible` can be asked of `unit` at `pos`: whether what it
    /// requires of them holds.
    pub fn can_answer(&self, state: &GameState, unit: &Unit, pos: ExactPos) -> (b: bool)
        requires
            self.wf(),
        ensures
            b == query_ready(self@, self.types(), state, *unit, pos),
    {
        if unit.is_loaded {
            return true;
        }
        if !self.db.has(unit.type_id) {
            return false;
        }
        if self.db.unit_type(unit.type_id).is_air {
            if !self.knows_spotters(state, unit) {
                return false;
            }
            if self.is_spotted(state, unit, pos.map_pos) {
                return true;
            }
        }
        self.map.is_inboard(pos.map_pos)
    }

    /// Whether every living unit of the player in `state` has its type in
    /// the database.
    pub fn knows_contributors(&self, state: &GameState) -> (b: bool)
        ensures
            b == contributors_known(self.types(), state, self.spec_player_id()),
    {
        let units = state.units();
        let mut i: usize = 0;
        while i < units.len()
            invariant
                0 <= i <= units@.len(),
                units@ == state.spec_units(),
                forall|k: int|
                    0 <= k < i && contributes(#[trigger] units@[k], self.player_id)
                        ==> has_unit_type(self.types(), units@[k].type_id),
            decreases units@.len() - i,
        {
            let unit = &units[i];
            if unit.player_id == self.player_id && unit.is_alive && !self.db.has(unit.type_id) {
                return false;
            }
            i = i + 1;
        }
        true
    }

    /// Whether `unit` can be swept: whether it is alive and of a known type.
    fn sweeps(&self, unit: &Unit) -> (b: bool)
        ensures
            b == can_sweep(self.types(), *unit),
    {
        unit.is_alive && self.db.has(unit.type_id)
    }

    /// Whether `apply_event` can be called with `state` and `event`:
    /// whether the map of the state has the size of this one, and the event
    /// refers to the state as `apply_event` requires.
    pub fn can_apply(&self, state: &GameState, event: &CoreEvent) -> (b: bool)
        requires
            self.wf(),
            state.wf(),
        ensures
            b == (self.spec_size() == state.size() && event_ready(
                self.spec_player_id(),
                self.types(),
                state,
                *event,
            )),
    {
        let size = self.map.size();
        let other = state.map().size();
        if !(size.w == other.w && size.h == other.h) {
            return false;
        }
        match *event {
            CoreEvent::Move { unit_id, .. } => {
                if !state.has_unit(unit_id) {
                    return false;
                }
                let unit = state.unit(unit_id);
                !(unit.player_id == self.player_id) || self.sweeps(unit)
            },
            CoreEvent::EndTurn { new_id, .. } => {
                !(new_id == self.player_id) || self.knows_contributors(state)
            },
            CoreEvent::CreateUnit { unit_info } => {
                if !state.has_unit(unit_info.unit_id) {
                    return false;
                }
                !(unit_info.player_id == self.player_id) || self.sweeps(
                    state.unit(unit_info.unit_id),
                )
            },
            CoreEvent::AttackUnit { attack_info } => {
                match attack_info.attacker_id {
                    Some(attacker_id) => {
                        if attack_info.is_ambush {
                            return true;
                        }
                        if !state.has_unit(attacker_id) {
                            return false;
                        }
                        size.contains(state.unit(attacker_id).pos.map_pos)
                    },
                    None => true,
                }
            },
            CoreEvent::UnloadUnit { unit_info } => {
                if !(unit_info.player_id == self.player_id) {
                    return true;
                }
                if !state.has_unit(unit_info.unit_id) {
                    return false;
                }
                self.sweeps(state.unit(unit_info.unit_id))
            },
            CoreEvent::Detach { transporter_id } => {
                if !state.has_unit(transporter_id) {
                    return false;
                }
                let unit = state.unit(transporter_id);
                !(unit.player_id == self.player_id) || self.sweeps(unit)
            },
            CoreEvent::ShowUnit { .. }
            | CoreEvent::HideUnit { .. }
            | CoreEvent::LoadUnit { .. }
            | CoreEvent::Attach { .. }
            | CoreEvent::SetReactionFireMode { .. }
            | CoreEvent::SectorOwnerChanged { .. }
            | CoreEvent::Smoke { .. }
            | CoreEvent::RemoveSmoke { .. }
            | CoreEvent::VictoryPoint { .. } => true,
        }
    }
}

} // verus!
