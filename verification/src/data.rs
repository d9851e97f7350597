//! Foundation configuration of the game.

use vstd::prelude::*;

verus! {

/// The game's name, save slot, version and survey grid size.
#[derive(Debug, Clone)]
pub struct GameConfig {
    pub game_name: String,
    pub display_name: String,
    pub save_slot: String,
    pub version: String,
    pub world_width: usize,
    pub world_height: usize,
}

} // verus!
