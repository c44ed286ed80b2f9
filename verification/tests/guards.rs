use fog_of_war::{
    AttackInfo, CoreEvent, Db, ExactPos, Fow, GameState, MapPos, PlayerId, Size2, Terrain, TileMap,
    Unit, UnitId, UnitInfo, UnitType, UnitTypeId,
};
use std::rc::Rc;

const VEHICLE: i32 = 0;
const PLANE: i32 = 1;
const UNKNOWN: i32 = 7;

fn at(x: i32, y: i32) -> MapPos {
    MapPos { x, y }
}

fn exact(x: i32, y: i32) -> ExactPos {
    ExactPos { map_pos: at(x, y), slot_id: 0 }
}

fn size() -> Size2 {
    Size2 { w: 10, h: 10 }
}

fn player(id: i32) -> PlayerId {
    PlayerId { id }
}

fn db() -> Rc<Db> {
    Rc::new(Db::new(vec![
        UnitType { los_range: 4, cover_los_range: 1, is_air: false, is_infantry: false },
        UnitType { los_range: 4, cover_los_range: 1, is_air: true, is_infantry: false },
    ]))
}

fn unit(id: i32, owner: i32, type_id: i32, x: i32, y: i32) -> Unit {
    Unit {
        id: UnitId { id },
        pos: exact(x, y),
        player_id: player(owner),
        type_id: UnitTypeId { id: type_id },
        is_alive: true,
        is_loaded: false,
    }
}

fn info(unit: &Unit) -> UnitInfo {
    UnitInfo { unit_id: unit.id, pos: unit.pos, type_id: unit.type_id, player_id: unit.player_id }
}

fn state_of(w: i32, h: i32, units: &[Unit]) -> GameState {
    let mut state = GameState::new(TileMap::new(Size2 { w, h }, Terrain::Plain));
    for unit in units {
        assert!(state.add_unit(*unit));
    }
    state
}

fn fow() -> Fow {
    Fow::new(db(), size(), player(0))
}

fn attack(attacker: Option<i32>, is_ambush: bool) -> CoreEvent {
    CoreEvent::AttackUnit {
        attack_info: AttackInfo {
            attacker_id: attacker.map(|id| UnitId { id }),
            defender_id: UnitId { id: 99 },
            is_ambush,
        },
    }
}

fn end_turn(new_id: i32) -> CoreEvent {
    CoreEvent::EndTurn { old_id: player(9), new_id: player(new_id) }
}

#[test]
fn the_fow_tells_its_size_and_its_database() {
    let fow = fow();
    assert_eq!(fow.size(), size());
    assert!(fow.db().has(UnitTypeId { id: PLANE }));
    assert!(!fow.db().has(UnitTypeId { id: UNKNOWN }));
    assert_eq!(fow.db().unit_type(UnitTypeId { id: VEHICLE }).los_range, 4);
}

#[test]
fn an_event_of_a_known_living_unit_can_be_applied() {
    let own = unit(1, 0, VEHICLE, 4, 4);
    let state = state_of(10, 10, &[own]);
    assert!(fow().can_apply(&state, &CoreEvent::Move { unit_id: own.id, from: exact(0, 0), to: own.pos }));
    assert!(fow().can_apply(&state, &CoreEvent::CreateUnit { unit_info: info(&own) }));
    assert!(fow().can_apply(&state, &CoreEvent::UnloadUnit { unit_info: info(&own) }));
    assert!(fow().can_apply(&state, &CoreEvent::Detach { transporter_id: own.id }));
    assert!(fow().can_apply(&state, &end_turn(0)));
    assert!(fow().can_apply(&state, &attack(Some(1), false)));
    assert!(fow().can_apply(&state, &CoreEvent::HideUnit { unit_id: UnitId { id: 42 } }));
}

#[test]
fn an_event_of_an_unknown_unit_cannot_be_applied() {
    let state = state_of(10, 10, &[]);
    let ghost = unit(1, 0, VEHICLE, 4, 4);
    assert!(!fow().can_apply(&state, &CoreEvent::Move { unit_id: ghost.id, from: exact(0, 0), to: ghost.pos }));
    assert!(!fow().can_apply(&state, &CoreEvent::CreateUnit { unit_info: info(&ghost) }));
    assert!(!fow().can_apply(&state, &CoreEvent::UnloadUnit { unit_info: info(&ghost) }));
    assert!(!fow().can_apply(&state, &CoreEvent::Detach { transporter_id: ghost.id }));
    assert!(!fow().can_apply(&state, &attack(Some(1), false)));
    let foreign = unit(2, 1, VEHICLE, 4, 4);
    assert!(!fow().can_apply(&state, &CoreEvent::Move { unit_id: foreign.id, from: exact(0, 0), to: foreign.pos }));
    assert!(!fow().can_apply(&state, &CoreEvent::CreateUnit { unit_info: info(&foreign) }));
    assert!(fow().can_apply(&state, &CoreEvent::UnloadUnit { unit_info: info(&foreign) }));
}

#[test]
fn an_attack_without_a_reveal_needs_no_attacker() {
    let state = state_of(10, 10, &[]);
    assert!(fow().can_apply(&state, &attack(Some(1), true)));
    assert!(fow().can_apply(&state, &attack(None, false)));
    assert!(fow().can_apply(&state, &attack(None, true)));
}

#[test]
fn an_attacker_that_is_given_away_has_to_stand_on_the_map() {
    let state = state_of(10, 10, &[unit(1, 1, VEHICLE, 10, 4), unit(2, 1, UNKNOWN, 9, 9)]);
    assert!(!fow().can_apply(&state, &attack(Some(1), false)));
    assert!(fow().can_apply(&state, &attack(Some(1), true)));
    assert!(fow().can_apply(&state, &attack(Some(2), false)));
}

#[test]
fn a_dead_unit_or_one_of_an_unknown_type_cannot_be_swept() {
    let mut dead = unit(1, 0, VEHICLE, 4, 4);
    dead.is_alive = false;
    let odd = unit(2, 0, UNKNOWN, 5, 5);
    let mut foreign_dead = unit(3, 1, UNKNOWN, 6, 6);
    foreign_dead.is_alive = false;
    let state = state_of(10, 10, &[dead, odd, foreign_dead]);
    for subject in [dead, odd] {
        assert!(!fow().can_apply(&state, &CoreEvent::Move { unit_id: subject.id, from: exact(0, 0), to: subject.pos }));
        assert!(!fow().can_apply(&state, &CoreEvent::CreateUnit { unit_info: info(&subject) }));
        assert!(!fow().can_apply(&state, &CoreEvent::UnloadUnit { unit_info: info(&subject) }));
        assert!(!fow().can_apply(&state, &CoreEvent::Detach { transporter_id: subject.id }));
    }
    assert!(fow().can_apply(&state, &CoreEvent::Move { unit_id: foreign_dead.id, from: exact(0, 0), to: foreign_dead.pos }));
    assert!(fow().can_apply(&state, &CoreEvent::CreateUnit { unit_info: info(&foreign_dead) }));
    assert!(fow().can_apply(&state, &CoreEvent::Detach { transporter_id: foreign_dead.id }));
}

#[test]
fn a_turn_can_start_where_the_living_units_of_the_player_are_known() {
    let mut dead_odd = unit(1, 0, UNKNOWN, 4, 4);
    dead_odd.is_alive = false;
    let state = state_of(10, 10, &[dead_odd, unit(2, 1, UNKNOWN, 5, 5), unit(3, 0, PLANE, 6, 6)]);
    assert!(fow().knows_contributors(&state));
    assert!(fow().can_apply(&state, &end_turn(0)));
    let state = state_of(10, 10, &[unit(3, 0, PLANE, 6, 6), unit(1, 0, UNKNOWN, 4, 4)]);
    assert!(!fow().knows_contributors(&state));
    assert!(!fow().can_apply(&state, &end_turn(0)));
    assert!(fow().can_apply(&state, &end_turn(1)));
}

#[test]
fn an_event_cannot_be_applied_to_a_map_of_another_size() {
    let state = state_of(10, 9, &[]);
    assert!(!fow().can_apply(&state, &end_turn(1)));
    assert!(!fow().can_apply(&state, &CoreEvent::Smoke { pos: at(0, 0) }));
    let state = state_of(9, 10, &[]);
    assert!(!fow().can_apply(&state, &end_turn(1)));
}

#[test]
fn spotting_is_by_range_and_by_owner() {
    let state = state_of(10, 10, &[unit(1, 0, VEHICLE, 3, 4), unit(2, 1, VEHICLE, 9, 9)]);
    let plane = unit(5, 1, PLANE, 5, 5);
    assert!(fow().knows_spotters(&state, &plane));
    assert!(fow().is_spotted(&state, &plane, at(5, 5)));
    assert!(fow().is_spotted(&state, &plane, at(7, 4)));
    assert!(!fow().is_spotted(&state, &plane, at(8, 4)));
    assert!(!fow().is_spotted(&state, &plane, at(9, 9)));
    let other = unit(6, 0, PLANE, 9, 9);
    assert!(fow().is_spotted(&state, &other, at(9, 9)));
    assert!(!fow().is_spotted(&state, &other, at(3, 4)));
}

#[test]
fn a_dead_or_loaded_unit_still_spots() {
    let mut spotter = unit(1, 0, VEHICLE, 3, 4);
    spotter.is_alive = false;
    spotter.is_loaded = true;
    let state = state_of(10, 10, &[spotter]);
    assert!(fow().is_spotted(&state, &unit(5, 1, PLANE, 5, 5), at(5, 5)));
}

#[test]
fn spotters_are_known_where_the_units_of_the_others_have_known_types() {
    let state = state_of(10, 10, &[unit(1, 0, VEHICLE, 3, 4), unit(2, 1, UNKNOWN, 9, 9)]);
    assert!(fow().knows_spotters(&state, &unit(5, 1, PLANE, 5, 5)));
    assert!(!fow().knows_spotters(&state, &unit(5, 0, PLANE, 5, 5)));
    assert!(!fow().knows_spotters(&state, &unit(5, 2, PLANE, 5, 5)));
}

#[test]
fn the_question_can_be_answered_where_the_types_and_the_tile_are_known() {
    let state = state_of(10, 10, &[unit(1, 0, VEHICLE, 3, 4), unit(2, 1, UNKNOWN, 9, 9)]);
    let fow = fow();
    assert!(fow.can_answer(&state, &unit(5, 1, VEHICLE, 5, 5), exact(5, 5)));
    assert!(!fow.can_answer(&state, &unit(5, 1, VEHICLE, 5, 5), exact(5, 10)));
    assert!(!fow.can_answer(&state, &unit(5, 1, UNKNOWN, 5, 5), exact(5, 5)));
    assert!(fow.can_answer(&state, &unit(5, 1, PLANE, 5, 5), exact(5, 5)));
    assert!(fow.can_answer(&state, &unit(5, 1, PLANE, 5, 5), exact(-1, 4)));
    assert!(!fow.can_answer(&state, &unit(5, 1, PLANE, 5, 5), exact(-2, 4)));
    assert!(!fow.can_answer(&state, &unit(5, 0, PLANE, 5, 5), exact(5, 5)));
}

#[test]
fn the_question_can_always_be_answered_for_a_loaded_unit() {
    let state = state_of(10, 10, &[unit(2, 1, UNKNOWN, 9, 9)]);
    let mut loaded = unit(5, 0, UNKNOWN, 50, 50);
    loaded.is_loaded = true;
    let fow = fow();
    assert!(fow.can_answer(&state, &loaded, exact(50, 50)));
    assert!(!fow.is_visible(&state, &loaded, exact(50, 50)));
}

#[test]
fn a_spotted_air_unit_is_seen_beyond_the_map() {
    let state = state_of(10, 10, &[unit(1, 0, VEHICLE, 3, 4)]);
    let fow = fow();
    let plane = unit(5, 1, PLANE, -1, 4);
    assert!(fow.can_answer(&state, &plane, plane.pos));
    assert!(fow.is_visible(&state, &plane, plane.pos));
}
