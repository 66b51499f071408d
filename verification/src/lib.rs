//! Game logic of Willo's Graveyard: sokoban movement and collision, the movement
//! table and movement tiles, volatile sublimation, history (undo/reset), goals,
//! animation state machines, frame timers and scheduled events, level walls and
//! layers, UI buttons and prompts, nine-slice image generation and level flow.
//!
//! Every function here works on plain values; the engine plumbing that reads
//! components and spawns entities lives outside this library.
#![allow(unused_imports)]

pub mod animation;
pub mod grid;
pub mod movement_table;
pub mod gravestone;
pub mod history;
pub mod sokoban;
pub mod text;
pub mod arrow_block;
pub mod volatile;
pub mod willo;
pub mod ui;
pub mod graveyard;
pub mod control_display;
pub mod collision;
pub mod collision_grid;
pub mod timer;
pub mod event_scheduler;
pub mod level;
pub mod goal;
pub mod nine_slice;
pub mod out_of_bounds;
pub mod layer;
pub mod wind;
pub mod exorcism;
pub mod key_controls;

use vstd::prelude::*;

verus! {

/// Length of the sides of tiles on the game-grid in the engine's coordinate space.
pub const UNIT_LENGTH: i32 = 32;

/// All possible states that the game can be in.
#[derive(Copy, Clone, Debug, PartialEq, Eq, Hash, Structural)]
pub enum GameState {
    /// Initial state of the game that prepares assets.
    AssetLoading,
    /// State that facilitates level transitions.
    LevelTransition,
    /// State for the core gameplay that takes place on graveyards.
    Graveyard,
    /// State for the level select menu.
    LevelSelect,
}

impl Default for GameState {
    fn default() -> (s: GameState)
        ensures
            s == GameState::AssetLoading,
    {
        GameState::AssetLoading
    }
}

} // verus!
