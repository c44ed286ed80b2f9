//! The part of the game state that the fog of war reads: the terrain, the
//! units and the objects on the map.

use crate::geometry::{ExactPos, MapPos, Size2};
use crate::grid::TileMap;
use crate::unit::{Unit, UnitId};
use vstd::prelude::*;

verus! {

/// The terrain of a tile.
#[derive(Clone, Copy, PartialEq, Eq, Structural, Debug, Hash)]
pub enum Terrain {
    City,
    Trees,
    Plain,
    Water,
}

/// The kind of an object that lies on a tile.
#[derive(Clone, Copy, PartialEq, Eq, Structural, Debug, Hash)]
pub enum ObjectClass {
    Building,
    Smoke,
    Road,
    ReinforcementSector,
}

/// An object that lies on a tile.
#[derive(Clone, Copy, PartialEq, Eq, Structural, Debug)]
pub struct Object {
    pub pos: ExactPos,
    pub class: ObjectClass,
}

/// Terrain in which units find cover.
pub open spec fn terrain_conceals(terrain: Terrain) -> bool {
    terrain == Terrain::City || terrain == Terrain::Trees
}

/// Objects behind or inside which units find cover.
pub open spec fn class_conceals(class: ObjectClass) -> bool {
    class == ObjectClass::Building || class == ObjectClass::Smoke
}

/// The index of the first unit of `units` with the identifier `id`, or the
/// length of `units` where there is none.
pub open spec fn first_with_id(units: Seq<Unit>, id: UnitId) -> int
    decreases units.len(),
{
    if units.len() == 0 {
        0
    } else if units.first().id == id {
        0
    } else {
        1 + first_with_id(units.drop_first(), id)
    }
}

/// `first_with_id` finds a unit with the identifier where there is one, and
/// no unit before it has the identifier.
pub proof fn lemma_first_with_id(units: Seq<Unit>, id: UnitId)
    ensures
        0 <= first_with_id(units, id) <= units.len(),
        first_with_id(units, id) < units.len() ==> units[first_with_id(units, id)].id == id,
        forall|i: int| 0 <= i < first_with_id(units, id) ==> units[i].id != id,
    decreases units.len(),
{
    if units.len() > 0 && units.first().id != id {
        lemma_first_with_id(units.drop_first(), id);
        assert forall|i: int| 0 <= i < first_with_id(units, id) implies units[i].id != id by {
            if i > 0 {
                assert(units[i] == units.drop_first()[i - 1]);
            }
        }
    }
}

/// The terrain, the units and the objects of a game.
///
/// No two units share an identifier.
#[derive(Clone, Debug)]
pub struct GameState {
    map: TileMap<Terrain>,
    units: Vec<Unit>,
    objects: Vec<Object>,
}

impl GameState {
    /// The terrain of every tile of the map.
    pub closed spec fn terrain(&self) -> Map<MapPos, Terrain> {
        self.map@
    }

    /// The dimensions of the map.
    pub closed spec fn size(&self) -> Size2 {
        self.map.spec_size()
    }

    /// The units, in the order in which they were added.
    pub closed spec fn spec_units(&self) -> Seq<Unit> {
        self.units@
    }

    /// The objects, in the order in which they were added.
    pub closed spec fn spec_objects(&self) -> Seq<Object> {
        self.objects@
    }

    /// The state is well formed: the terrain covers the map, and no two units
    /// share an identifier.
    pub closed spec fn wf(&self) -> bool {
        &&& self.map.wf()
        &&& forall|i: int, j: int|
            0 <= i < j < self.units@.len() ==> self.units@[i].id != self.units@[j].id
    }

    /// `pos` is a tile of the map.
    pub open spec fn on_map(&self, pos: MapPos) -> bool {
        self.size().spec_contains(pos)
    }

    /// A unit with the identifier `id` exists.
    pub open spec fn spec_has_unit(&self, id: UnitId) -> bool {
        exists|i: int| 0 <= i < self.spec_units().len() && #[trigger] self.spec_units()[i].id == id
    }

    /// The unit with the identifier `id`.
    pub open spec fn spec_unit(&self, id: UnitId) -> Unit {
        self.spec_units()[first_with_id(self.spec_units(), id)]
    }

    /// The objects on the tile `pos`, in the order in which they were added.
    pub open spec fn spec_objects_at(&self, pos: MapPos) -> Seq<Object> {
        self.spec_objects().filter(|object: Object| object.pos.map_pos == pos)
    }

    /// Units on the tile `pos` are in cover: by its terrain, or by an object
    /// on it.
    pub open spec fn conceals(&self, pos: MapPos) -> bool {
        ||| terrain_conceals(self.terrain()[pos])
        ||| exists|i: int|
            0 <= i < self.spec_objects().len() && (#[trigger] self.spec_objects()[i]).pos.map_pos
                == pos && class_conceals(self.spec_objects()[i].class)
    }

    /// The terrain is defined on the tiles of the map and on nothing else.
    pub proof fn lemma_terrain_dom(&self)
        ensures
            self.terrain().dom() == self.size().tiles(),
            forall|pos: MapPos| self.terrain().dom().contains(pos) <==> self.on_map(pos),
    {
        self.map.lemma_view_dom();
    }

    /// A unit of a well-formed state is the only one with its identifier,
    /// and so it is the unit with its identifier.
    pub proof fn lemma_unit_at(&self, i: int)
        requires
            self.wf(),
            0 <= i < self.spec_units().len(),
        ensures
            self.spec_has_unit(self.spec_units()[i].id),
            self.spec_unit(self.spec_units()[i].id) == self.spec_units()[i],
            forall|j: int|
                0 <= j < self.spec_units().len() && j != i ==> (#[trigger] self.spec_units()[j]).id
                    != self.spec_units()[i].id,
    {
        lemma_first_with_id(self.spec_units(), self.spec_units()[i].id);
    }

    /// The objects on a tile conceal exactly where one of them is of a
    /// concealing class.
    pub proof fn lemma_conceals(&self, pos: MapPos)
        ensures
            self.conceals(pos) <==> terrain_conceals(self.terrain()[pos]) || exists|j: int|
                0 <= j < self.spec_objects_at(pos).len() && class_conceals(
                    (#[trigger] self.spec_objects_at(pos)[j]).class,
                ),
    {
        let objects = self.spec_objects();
        let on_pos = |object: Object| object.pos.map_pos == pos;
        let found = objects.filter(on_pos);
        if exists|i: int|
            0 <= i < objects.len() && (#[trigger] objects[i]).pos.map_pos == pos && class_conceals(
                objects[i].class,
            ) {
            let i = choose|i: int|
                0 <= i < objects.len() && (#[trigger] objects[i]).pos.map_pos == pos
                    && class_conceals(objects[i].class);
            assert(found.contains(objects[i]));
        }
        if exists|j: int| 0 <= j < found.len() && class_conceals((#[trigger] found[j]).class) {
            let j = choose|j: int|
                0 <= j < found.len() && class_conceals((#[trigger] found[j]).class);
            objects.lemma_filter_contains_rev(on_pos, found[j]);
        }
    }

    /// A state with the given terrain, without units and objects.
    pub fn new(map: TileMap<Terrain>) -> (state: GameState)
        requires
            map.wf(),
        ensures
            state.wf(),
            state.terrain() == map@,
            state.size() == map.spec_size(),
            state.spec_units() == Seq::<Unit>::empty(),
            state.spec_objects() == Seq::<Object>::empty(),
    {
        GameState { map, units: Vec::new(), objects: Vec::new() }
    }

    /// The terrain map.
    pub fn map(&self) -> (map: &TileMap<Terrain>)
        requires
            self.wf(),
        ensures
            map.wf(),
            map@ == self.terrain(),
            map.spec_size() == self.size(),
    {
        &self.map
    }

    /// The units.
    pub fn units(&self) -> (units: &Vec<Unit>)
        ensures
            units@ == self.spec_units(),
    {
        &self.units
    }

    /// The index of the unit with the identifier `id`, if there is one.
    fn find_unit(&self, id: UnitId) -> (found: Option<usize>)
        ensures
            match found {
                Some(i) => i < self.units@.len() && i == first_with_id(self.units@, id)
                    && self.units@[i as int].id == id && self.spec_has_unit(id),
                None => !self.spec_has_unit(id),
            },
    {
        proof {
            lemma_first_with_id(self.units@, id);
        }
        let mut i: usize = 0;
        while i < self.units.len()
            invariant
                0 <= i <= self.units@.len(),
                i <= first_with_id(self.units@, id) <= self.units@.len(),
                first_with_id(self.units@, id) < self.units@.len() ==> self.units@[first_with_id(
                    self.units@,
                    id,
                )].id == id,
                forall|k: int| 0 <= k < first_with_id(self.units@, id) ==> self.units@[k].id != id,
            decreases self.units@.len() - i,
        {
            if self.units[i].id == id {
                assert(self.spec_units()[i as int].id == id);
                return Some(i);
            }
            i = i + 1;
        }
        None
    }

    /// Whether a unit with the identifier `id` exists.
    pub fn has_unit(&self, id: UnitId) -> (b: bool)
        ensures
            b == self.spec_has_unit(id),
    {
        self.find_unit(id).is_some()
    }

    /// The unit with the identifier `id`.
    pub fn unit(&self, id: UnitId) -> (unit: &Unit)
        requires
            self.spec_has_unit(id),
        ensures
            *unit == self.spec_unit(id),
            unit.id == id,
    {
        let found = self.find_unit(id);
        &self.units[found.unwrap()]
    }

    /// Adds a unit, unless a unit with its identifier exists already. Returns
    /// whether the unit was added.
    pub fn add_unit(&mut self, unit: Unit) -> (added: bool)
        requires
            old(self).wf(),
        ensures
            final(self).wf(),
            final(self).terrain() == old(self).terrain(),
            final(self).size() == old(self).size(),
            final(self).spec_objects() == old(self).spec_objects(),
            added == !old(self).spec_has_unit(unit.id),
            added ==> final(self).spec_units() == old(self).spec_units().push(unit),
            !added ==> final(self).spec_units() == old(self).spec_units(),
    {
        if self.find_unit(unit.id).is_some() {
            return false;
        }
        self.units.push(unit);
        proof {
            let before = old(self).units@;
            assert forall|i: int, j: int| 0 <= i < j < self.units@.len() implies self.units@[i].id
                != self.units@[j].id by {
                if j >= before.len() {
                    assert(old(self).spec_units()[i].id != unit.id);
                }
            }
        }
        true
    }

    /// Replaces the unit that has the identifier of `unit` by `unit`, if
    /// there is one. Returns whether a unit was replaced.
    pub fn update_unit(&mut self, unit: Unit) -> (updated: bool)
        requires
            old(self).wf(),
        ensures
            final(self).wf(),
            final(self).terrain() == old(self).terrain(),
            final(self).size() == old(self).size(),
            final(self).spec_objects() == old(self).spec_objects(),
            updated == old(self).spec_has_unit(unit.id),
            updated ==> final(self).spec_units() == old(self).spec_units().update(
                first_with_id(old(self).spec_units(), unit.id),
                unit,
            ),
            !updated ==> final(self).spec_units() == old(self).spec_units(),
    {
        match self.find_unit(unit.id) {
            Some(i) => {
                self.units.set(i, unit);
                true
            },
            None => false,
        }
    }

    /// Adds an object.
    pub fn add_object(&mut self, object: Object)
        requires
            old(self).wf(),
        ensures
            final(self).wf(),
            final(self).terrain() == old(self).terrain(),
            final(self).size() == old(self).size(),
            final(self).spec_units() == old(self).spec_units(),
            final(self).spec_objects() == old(self).spec_objects().push(object),
    {
        self.objects.push(object);
    }

    /// The objects on the tile `pos`, in the order in which they were added.
    pub fn objects_at(&self, pos: MapPos) -> (found: Vec<Object>)
        ensures
            found@ == self.spec_objects_at(pos),
    {
        let ghost on_pos = |object: Object| object.pos.map_pos == pos;
        let mut found: Vec<Object> = Vec::new();
        let mut i: usize = 0;
        while i < self.objects.len()
            invariant
                0 <= i <= self.objects@.len(),
                on_pos == |object: Object| object.pos.map_pos == pos,
                found@ == self.objects@.take(i as int).filter(on_pos),
            decreases self.objects@.len() - i,
        {
            let object = self.objects[i];
            proof {
                let earlier = self.objects@.take(i as int);
                assert(self.objects@.take(i + 1) =~= earlier.push(object));
                earlier.lemma_filter_push(object, on_pos);
            }
            if object.pos.map_pos == pos {
                found.push(object);
            }
            i = i + 1;
        }
        proof {
            assert(self.objects@.take(i as int) =~= self.objects@);
        }
        found
    }
}

} // verus!
