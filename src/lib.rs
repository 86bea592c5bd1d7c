//! Incremental visibility and lighting for a turn-based exploration game.
//!
//! The library keeps, for every cell of a fixed-size map, what the player
//! currently perceives, what they remember, and how brightly each visible cell
//! is lit. Each committed turn runs one lighting pass: a shadowcast from the
//! viewer establishes what can be perceived at all, and one shadowcast per light
//! source adds coloured light to those cells only.
pub mod colour;
pub mod components;
pub mod geometry;
pub mod guarantees;
pub mod sight;
pub mod visibility;
pub mod witness;
pub mod world;

pub use colour::Colour;
pub use components::{make_player, DoorState, EntityData, Equipment, Item, Player, Tile};
pub use entity_table::Entity;
pub use geometry::{Axis, Coord, Size};
pub use visibility::{CellVisibility, EntityTile, Omniscient, TileLayers, Visibility, VisibilityCell, VisibilityGrid};
pub use witness::{
    new_game, ActionError, Config, ControlFlow, Game, Prompt, RainLevel, Running, RunningGame, Sleep, Status, TickOutput,
    Witness,
};
pub use world::{Layer, Light, Rational, World};
