//! Units, their types, and the database of unit types.

use crate::geometry::ExactPos;
use vstd::prelude::*;

verus! {

/// The identifier of a player.
#[derive(Clone, Copy, PartialEq, Eq, Structural, Debug, Hash)]
pub struct PlayerId {
    pub id: i32,
}

/// The identifier of a unit.
#[derive(Clone, Copy, PartialEq, Eq, Structural, Debug, Hash)]
pub struct UnitId {
    pub id: i32,
}

/// The identifier of a unit type: its place in the database.
#[derive(Clone, Copy, PartialEq, Eq, Structural, Debug, Hash)]
pub struct UnitTypeId {
    pub id: i32,
}

/// What the fog of war needs to know of a kind of unit.
#[derive(Clone, Copy, PartialEq, Eq, Structural, Debug)]
pub struct UnitType {
    /// How many hexes far the unit sees.
    pub los_range: i32,
    /// How many hexes far the unit sees through cover.
    pub cover_los_range: i32,
    /// The unit flies.
    pub is_air: bool,
    /// The unit is infantry.
    pub is_infantry: bool,
}

/// A unit on the map.
#[derive(Clone, Copy, PartialEq, Eq, Structural, Debug)]
pub struct Unit {
    pub id: UnitId,
    pub pos: ExactPos,
    pub player_id: PlayerId,
    pub type_id: UnitTypeId,
    pub is_alive: bool,
    /// The unit is carried inside a transporter.
    pub is_loaded: bool,
}

/// The database of unit types. Its view is the sequence of the types, and a
/// type's identifier is its index in that sequence.
#[derive(Clone, Debug)]
pub struct Db {
    unit_types: Vec<UnitType>,
}

impl View for Db {
    type V = Seq<UnitType>;

    closed spec fn view(&self) -> Seq<UnitType> {
        self.unit_types@
    }
}

/// The sequence `types` holds a unit type under the identifier `id`.
pub open spec fn has_unit_type(types: Seq<UnitType>, id: UnitTypeId) -> bool {
    0 <= id.id < types.len()
}

/// The unit type that `types` holds under `id`.
pub open spec fn unit_type_of(types: Seq<UnitType>, id: UnitTypeId) -> UnitType {
    types[id.id as int]
}

impl Db {
    /// The database holds a unit type under the identifier `id`.
    pub open spec fn spec_has(&self, id: UnitTypeId) -> bool {
        has_unit_type(self@, id)
    }

    /// The unit type that the database holds under `id`.
    pub open spec fn spec_unit_type(&self, id: UnitTypeId) -> UnitType {
        unit_type_of(self@, id)
    }

    /// A database of the given unit types, each under its index.
    pub fn new(unit_types: Vec<UnitType>) -> (db: Db)
        ensures
            db@ == unit_types@,
    {
        Db { unit_types }
    }

    /// Whether the database holds a unit type under the identifier `id`.
    pub fn has(&self, id: UnitTypeId) -> (b: bool)
        ensures
            b == self.spec_has(id),
    {
        0 <= id.id && (id.id as usize) < self.unit_types.len()
    }

    /// The unit type with the identifier `id`.
    pub fn unit_type(&self, id: UnitTypeId) -> (unit_type: &UnitType)
        requires
            self.spec_has(id),
        ensures
            *unit_type == self.spec_unit_type(id),
    {
        &self.unit_types[id.id as usize]
    }
}

} // verus!
