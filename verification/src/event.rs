//! The events of the game that are replayed to a fog of war.

use crate::geometry::{ExactPos, MapPos};
use crate::unit::{PlayerId, UnitId, UnitTypeId};
use vstd::prelude::*;

verus! {

/// What an event tells of a unit that enters the map.
#[derive(Clone, Copy, PartialEq, Eq, Structural, Debug)]
pub struct UnitInfo {
    pub unit_id: UnitId,
    pub pos: ExactPos,
    pub type_id: UnitTypeId,
    pub player_id: PlayerId,
}

/// What an event tells of an attack.
#[derive(Clone, Copy, PartialEq, Eq, Structural, Debug)]
pub struct AttackInfo {
    /// The attacker, where the defender's side can tell who fired.
    pub attacker_id: Option<UnitId>,
    pub defender_id: UnitId,
    /// The attack came out of an ambush and does not give the attacker away.
    pub is_ambush: bool,
}

/// An event of the game.
#[derive(Clone, Copy, PartialEq, Eq, Structural, Debug)]
pub enum CoreEvent {
    Move { unit_id: UnitId, from: ExactPos, to: ExactPos },
    EndTurn { old_id: PlayerId, new_id: PlayerId },
    CreateUnit { unit_info: UnitInfo },
    AttackUnit { attack_info: AttackInfo },
    ShowUnit { unit_info: UnitInfo },
    HideUnit { unit_id: UnitId },
    LoadUnit { passenger_id: UnitId },
    UnloadUnit { unit_info: UnitInfo },
    Attach { transporter_id: UnitId, attached_unit_id: UnitId },
    Detach { transporter_id: UnitId },
    SetReactionFireMode { unit_id: UnitId },
    SectorOwnerChanged { new_owner_id: Option<PlayerId> },
    Smoke { pos: MapPos },
    RemoveSmoke { pos: MapPos },
    VictoryPoint { player_id: PlayerId, pos: MapPos, count: i32 },
}

} // verus!
