use fog_of_war::{
    simple_fov, AttackInfo, CoreEvent, Db, ExactPos, Fow, GameState, MapPos, PlayerId, Size2,
    Terrain, TileMap, TileVisibility, Unit, UnitId, UnitInfo, UnitType, UnitTypeId,
};
use std::rc::Rc;

const VEHICLE: i32 = 0;
const INFANTRY: i32 = 1;
const PLANE: i32 = 2;
const SPOTTER: i32 = 3;
const SCOUT_CAR: i32 = 4;

fn at(x: i32, y: i32) -> MapPos {
    MapPos { x, y }
}

fn exact(x: i32, y: i32) -> ExactPos {
    ExactPos { map_pos: at(x, y), slot_id: 0 }
}

fn size() -> Size2 {
    Size2 { w: 10, h: 10 }
}

fn player(id: i32) -> PlayerId {
    PlayerId { id }
}

fn db() -> Rc<Db> {
    Rc::new(Db::new(vec![
        UnitType { los_range: 5, cover_los_range: 1, is_air: false, is_infantry: false },
        UnitType { los_range: 3, cover_los_range: 1, is_air: false, is_infantry: true },
        UnitType { los_range: 6, cover_los_range: 0, is_air: true, is_infantry: false },
        UnitType { los_range: 4, cover_los_range: 1, is_air: false, is_infantry: false },
        UnitType { los_range: 3, cover_los_range: 1, is_air: false, is_infantry: false },
    ]))
}

fn unit(id: i32, owner: i32, type_id: i32, x: i32, y: i32) -> Unit {
    Unit {
        id: UnitId { id },
        pos: exact(x, y),
        player_id: player(owner),
        type_id: UnitTypeId { id: type_id },
        is_alive: true,
        is_loaded: false,
    }
}

fn info(unit: &Unit) -> UnitInfo {
    UnitInfo { unit_id: unit.id, pos: unit.pos, type_id: unit.type_id, player_id: unit.player_id }
}

fn state_with(terrain: &[(i32, i32, Terrain)], units: &[Unit]) -> GameState {
    let mut map = TileMap::new(size(), Terrain::Plain);
    for (x, y, t) in terrain {
        map.set_tile(at(*x, *y), *t);
    }
    let mut state = GameState::new(map);
    for unit in units {
        assert!(state.add_unit(*unit));
    }
    state
}

fn snapshot(fow: &Fow) -> Vec<TileVisibility> {
    size().positions().into_iter().map(|pos| fow.tile_visibility(pos)).collect()
}

fn attack(attacker: Option<i32>, is_ambush: bool) -> CoreEvent {
    CoreEvent::AttackUnit {
        attack_info: AttackInfo {
            attacker_id: attacker.map(|id| UnitId { id }),
            defender_id: UnitId { id: 99 },
            is_ambush,
        },
    }
}

#[test]
fn a_new_fow_sees_nothing() {
    let fow = Fow::new(db(), size(), player(0));
    assert_eq!(fow.player_id(), player(0));
    for pos in size().positions() {
        assert_eq!(fow.tile_visibility(pos), TileVisibility::No);
        assert!(!fow.is_tile_visible(pos));
    }
}

#[test]
fn ground_unit_sees_plain() {
    let u = unit(1, 0, VEHICLE, 0, 0);
    let state = state_with(&[], &[u]);
    let mut fow = Fow::new(db(), size(), player(0));
    fow.apply_event(&state, &CoreEvent::CreateUnit { unit_info: info(&u) }, &simple_fov);
    assert_eq!(fow.tile_visibility(at(3, 0)), TileVisibility::Excellent);
    assert_eq!(fow.tile_visibility(at(6, 0)), TileVisibility::No);
    assert!(fow.is_tile_visible(at(3, 0)));
    assert!(!fow.is_tile_visible(at(6, 0)));
}

#[test]
fn cover_radius() {
    let u = unit(1, 0, VEHICLE, 0, 0);
    let state = state_with(&[(1, 0, Terrain::Trees), (3, 0, Terrain::Trees)], &[u]);
    let mut fow = Fow::new(db(), size(), player(0));
    fow.apply_event(&state, &CoreEvent::CreateUnit { unit_info: info(&u) }, &simple_fov);
    assert_eq!(fow.tile_visibility(at(1, 0)), TileVisibility::Excellent);
    assert_eq!(fow.tile_visibility(at(3, 0)), TileVisibility::Normal);
    assert!(fow.is_tile_visible(at(3, 0)));
}

#[test]
fn infantry_cannot_be_spotted_in_trees() {
    let observer = unit(1, 0, INFANTRY, 0, 0);
    let state = state_with(&[(2, 0, Terrain::Trees)], &[observer]);
    let mut fow = Fow::new(db(), size(), player(0));
    fow.apply_event(&state, &CoreEvent::CreateUnit { unit_info: info(&observer) }, &simple_fov);
    assert_eq!(fow.tile_visibility(at(2, 0)), TileVisibility::Normal);
    let hidden = unit(2, 1, INFANTRY, 2, 0);
    assert!(!fow.is_visible(&state, &hidden, exact(2, 0)));
}

#[test]
fn vehicle_is_spotted_in_trees() {
    let observer = unit(1, 0, SCOUT_CAR, 0, 0);
    let state = state_with(&[(2, 0, Terrain::Trees)], &[observer]);
    let mut fow = Fow::new(db(), size(), player(0));
    fow.apply_event(&state, &CoreEvent::CreateUnit { unit_info: info(&observer) }, &simple_fov);
    assert_eq!(fow.tile_visibility(at(2, 0)), TileVisibility::Normal);
    let target = unit(2, 1, VEHICLE, 2, 0);
    assert!(fow.is_visible(&state, &target, exact(2, 0)));
}

#[test]
fn the_gate_goes_by_the_type_of_the_unit_looked_for() {
    let mut fow = Fow::new(db(), size(), player(0));
    let infantry_observer = unit(1, 0, INFANTRY, 0, 0);
    let state = state_with(&[(2, 0, Terrain::Trees)], &[infantry_observer]);
    fow.apply_event(&state, &CoreEvent::CreateUnit { unit_info: info(&infantry_observer) }, &simple_fov);
    assert_eq!(fow.tile_visibility(at(2, 0)), TileVisibility::Normal);
    assert!(fow.is_visible(&state, &unit(2, 1, VEHICLE, 2, 0), exact(2, 0)));
    assert!(!fow.is_visible(&state, &unit(3, 1, INFANTRY, 2, 0), exact(2, 0)));
    assert!(fow.is_visible(&state, &unit(3, 1, INFANTRY, 1, 0), exact(1, 0)));
    assert!(!fow.is_visible(&state, &unit(2, 1, VEHICLE, 9, 9), exact(9, 9)));
}

#[test]
fn air_bypass() {
    let spotter = unit(1, 0, SPOTTER, 3, 4);
    let state = state_with(&[], &[spotter]);
    let fow = Fow::new(db(), size(), player(0));
    assert_eq!(fow.tile_visibility(at(5, 5)), TileVisibility::No);
    let plane = unit(2, 1, PLANE, 5, 5);
    assert!(fow.is_visible(&state, &plane, exact(5, 5)));
}

#[test]
fn air_unit_is_not_spotted_by_its_own_side_or_from_afar() {
    let own = unit(1, 1, SPOTTER, 5, 4);
    let far = unit(3, 0, SPOTTER, 0, 0);
    let state = state_with(&[], &[own, far]);
    let fow = Fow::new(db(), size(), player(0));
    let plane = unit(2, 1, PLANE, 5, 5);
    assert!(!fow.is_visible(&state, &plane, exact(5, 5)));
    assert!(fow.is_visible(&state, &plane, exact(4, 0)));
    assert!(!fow.is_visible(&state, &plane, exact(5, 0)));
}

#[test]
fn air_unit_is_spotted_by_a_third_party() {
    let third = unit(1, 2, SPOTTER, 3, 4);
    let state = state_with(&[], &[third]);
    let fow = Fow::new(db(), size(), player(0));
    assert!(fow.is_visible(&state, &unit(2, 1, PLANE, 5, 5), exact(5, 5)));
}

#[test]
fn air_unit_that_nobody_spots_is_seen_where_the_tile_shows_it() {
    let state = state_with(&[], &[]);
    let mut fow = Fow::new(db(), size(), player(0));
    let plane = unit(2, 1, PLANE, 5, 5);
    assert!(!fow.is_visible(&state, &plane, exact(5, 5)));
    let attacker = unit(3, 1, VEHICLE, 5, 5);
    let state = state_with(&[], &[attacker]);
    fow.apply_event(&state, &attack(Some(3), false), &simple_fov);
    assert!(fow.is_visible(&state, &plane, exact(5, 5)));
}

#[test]
fn loaded_unit_is_never_visible() {
    let spotter = unit(1, 0, SPOTTER, 3, 4);
    let state = state_with(&[], &[spotter]);
    let mut fow = Fow::new(db(), size(), player(0));
    fow.apply_event(&state, &CoreEvent::CreateUnit { unit_info: info(&spotter) }, &simple_fov);
    assert_eq!(fow.tile_visibility(at(3, 3)), TileVisibility::Excellent);
    for type_id in [VEHICLE, INFANTRY, PLANE] {
        let mut loaded = unit(2, 1, type_id, 3, 3);
        assert!(fow.is_visible(&state, &loaded, exact(3, 3)));
        loaded.is_loaded = true;
        assert!(!fow.is_visible(&state, &loaded, exact(3, 3)));
    }
}

#[test]
fn attack_reveal() {
    let attacker = unit(5, 1, VEHICLE, 7, 7);
    let state = state_with(&[], &[attacker]);
    let mut fow = Fow::new(db(), size(), player(0));
    assert_eq!(fow.tile_visibility(at(7, 7)), TileVisibility::No);
    fow.apply_event(&state, &attack(Some(5), true), &simple_fov);
    assert_eq!(fow.tile_visibility(at(7, 7)), TileVisibility::No);
    fow.apply_event(&state, &attack(None, false), &simple_fov);
    assert_eq!(fow.tile_visibility(at(7, 7)), TileVisibility::No);
    fow.apply_event(&state, &attack(Some(5), false), &simple_fov);
    assert_eq!(fow.tile_visibility(at(7, 7)), TileVisibility::Excellent);
    for pos in size().positions() {
        if pos != at(7, 7) {
            assert_eq!(fow.tile_visibility(pos), TileVisibility::No);
        }
    }
}

#[test]
fn attack_reveal_is_given_to_every_player() {
    let attacker = unit(5, 0, VEHICLE, 7, 7);
    let state = state_with(&[(7, 7, Terrain::Trees)], &[attacker]);
    for owner in [0, 1, 2] {
        let mut fow = Fow::new(db(), size(), player(owner));
        fow.apply_event(&state, &attack(Some(5), false), &simple_fov);
        assert_eq!(fow.tile_visibility(at(7, 7)), TileVisibility::Excellent);
    }
}

#[test]
fn end_turn_reset_discards_overlays() {
    let attacker = unit(5, 1, VEHICLE, 7, 7);
    let own = unit(1, 0, SCOUT_CAR, 0, 0);
    let state = state_with(&[], &[attacker, own]);
    let mut fow = Fow::new(db(), size(), player(0));
    fow.apply_event(&state, &attack(Some(5), false), &simple_fov);
    assert_eq!(fow.tile_visibility(at(7, 7)), TileVisibility::Excellent);
    fow.apply_event(&state, &CoreEvent::EndTurn { old_id: player(0), new_id: player(1) }, &simple_fov);
    assert_eq!(fow.tile_visibility(at(7, 7)), TileVisibility::Excellent);
    fow.apply_event(&state, &CoreEvent::EndTurn { old_id: player(1), new_id: player(0) }, &simple_fov);
    assert_eq!(fow.tile_visibility(at(7, 7)), TileVisibility::No);
    assert_eq!(fow.tile_visibility(at(3, 0)), TileVisibility::Excellent);
    assert_eq!(fow.tile_visibility(at(4, 0)), TileVisibility::No);
}

#[test]
fn reset_counts_the_living_units_of_the_player_only() {
    let own = unit(1, 0, SCOUT_CAR, 0, 0);
    let mut dead = unit(2, 0, SCOUT_CAR, 9, 9);
    dead.is_alive = false;
    let foreign = unit(3, 1, SCOUT_CAR, 9, 0);
    let mut loaded = unit(4, 0, SCOUT_CAR, 0, 9);
    loaded.is_loaded = true;
    let state = state_with(&[], &[own, dead, foreign, loaded]);
    let mut fow = Fow::new(db(), size(), player(0));
    fow.apply_event(&state, &CoreEvent::EndTurn { old_id: player(1), new_id: player(0) }, &simple_fov);
    for pos in size().positions() {
        let seen = fog_of_war::distance(at(0, 0), pos) <= 3 || fog_of_war::distance(at(0, 9), pos) <= 3;
        let expected = if seen { TileVisibility::Excellent } else { TileVisibility::No };
        assert_eq!(fow.tile_visibility(pos), expected);
    }
}

#[test]
fn reset_twice_is_reset_once() {
    let own = unit(1, 0, VEHICLE, 2, 2);
    let other = unit(2, 0, PLANE, 9, 9);
    let state = state_with(&[(4, 2, Terrain::Trees), (2, 5, Terrain::City)], &[own, other]);
    let end_turn = CoreEvent::EndTurn { old_id: player(1), new_id: player(0) };
    let mut fow = Fow::new(db(), size(), player(0));
    fow.apply_event(&state, &attack(Some(1), false), &simple_fov);
    fow.apply_event(&state, &end_turn, &simple_fov);
    let once = snapshot(&fow);
    fow.apply_event(&state, &end_turn, &simple_fov);
    assert_eq!(snapshot(&fow), once);
    let mut fresh = Fow::new(db(), size(), player(0));
    fresh.apply_event(&state, &end_turn, &simple_fov);
    assert_eq!(snapshot(&fresh), once);
    assert!(once.contains(&TileVisibility::Normal));
    assert!(once.contains(&TileVisibility::Excellent));
    assert!(once.contains(&TileVisibility::No));
}

#[test]
fn reset_does_not_depend_on_the_order_of_the_units() {
    let units = [
        unit(1, 0, VEHICLE, 2, 2),
        unit(2, 0, INFANTRY, 6, 3),
        unit(3, 0, PLANE, 9, 9),
        unit(4, 1, VEHICLE, 5, 5),
    ];
    let terrain = [(4, 2, Terrain::Trees), (2, 5, Terrain::City), (6, 5, Terrain::Trees)];
    let end_turn = CoreEvent::EndTurn { old_id: player(1), new_id: player(0) };
    let mut forward = Fow::new(db(), size(), player(0));
    forward.apply_event(&state_with(&terrain, &units), &end_turn, &simple_fov);
    let reversed: Vec<Unit> = units.iter().rev().copied().collect();
    let mut backward = Fow::new(db(), size(), player(0));
    backward.apply_event(&state_with(&terrain, &reversed), &end_turn, &simple_fov);
    assert_eq!(snapshot(&forward), snapshot(&backward));
    assert_eq!(forward.tile_visibility(at(6, 5)), TileVisibility::Normal);
}

#[test]
fn a_clone_sees_what_the_fow_sees() {
    let own = unit(1, 0, VEHICLE, 2, 2);
    let state = state_with(&[(4, 2, Terrain::Trees)], &[own]);
    let mut fow = Fow::new(db(), size(), player(0));
    fow.apply_event(&state, &CoreEvent::CreateUnit { unit_info: info(&own) }, &simple_fov);
    let copy = fow.clone();
    assert_eq!(snapshot(&copy), snapshot(&fow));
    assert_eq!(copy.player_id(), player(0));
    assert_eq!(copy.size(), size());
}
