//! Fog of war for a turn-based tactical game on a hex grid.
//!
//! Every player owns a [`Fow`]: a map from tile to [`TileVisibility`] that
//! grows by what the player's units see as the events of the game are
//! replayed, and that is rebuilt from the player's living units when the
//! player's turn begins. It answers whether a unit at a position is seen.
//!
//! The modules, leaves first:
//!
//! - [`visibility`]: the lattice `No < Normal < Excellent` and its join.
//! - [`geometry`]: positions, map sizes and the hex distance.
//! - [`grid`]: a map with one value on every tile.
//! - [`unit`], [`state`], [`event`]: what the fog of war reads of the game:
//!   units and their types, terrain and objects, and the events.
//! - [`fov`]: the unobstructed field of view, and what is asked of the
//!   terrain-aware field of view, which the caller supplies as a function
//!   from state, origin and range to the tiles seen.
//! - [`sweep`]: how well a unit sees a tile, and the merge of a unit's sight
//!   into a visibility map.
//! - [`fow`]: the rules of the query and of the replay, and the controller.
//!
//! Contracts speak of views: a visibility map is a `Map<MapPos,
//! TileVisibility>` that is defined on the tiles of the map.

pub mod event;
pub mod fov;
pub mod fow;
pub mod geometry;
pub mod grid;
pub mod state;
pub mod sweep;
pub mod unit;
pub mod visibility;

pub use event::{AttackInfo, CoreEvent, UnitInfo};
pub use fov::simple_fov;
pub use fow::Fow;
pub use geometry::{distance, ExactPos, MapPos, Size2};
pub use grid::TileMap;
pub use state::{GameState, Object, ObjectClass, Terrain};
pub use sweep::{calc_visibility, fov_unit, merge_sight};
pub use unit::{Db, PlayerId, Unit, UnitId, UnitType, UnitTypeId};
pub use visibility::TileVisibility;
