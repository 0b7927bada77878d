//! Verified presentation logic for the Dreadstep desktop showcase.

pub mod assets;
pub mod audio;
pub mod cli;
pub mod events;
pub mod evidence;
pub mod feedback;
pub mod geometry;
pub mod hud;
pub mod input;
pub mod panels;
pub mod render;
pub mod runner;
pub mod scene;
pub mod session;
pub mod state;
pub mod text;
pub mod visibility;
pub mod world;

pub use geometry::{
    clamped_viewport_axis, Direction, Position, PresentationTileSize, PresentationViewport,
    PresentationWindow, ScenePixelPosition, SceneWindow,
};
pub use visibility::{visible_positions, PresentationVisibility};
pub use world::{
    snapshot_tile, ActorId, ActorKind, BlockReason, EnemyBehavior, ItemDefinitionId, ItemId,
    RunOutcome, Tile, TileMap,
};
