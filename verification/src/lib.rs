//! Planetfall Engineer: deterministic integer terrain, fluid, device, economy and
//! mission rules for a planetary-engineering puzzle game.

pub mod state;
pub mod text;
pub mod economy;
pub mod devices;
pub mod simulation;
pub mod content;
pub mod mission;
pub mod campaign;
pub mod lab;
pub mod replay;
pub mod data;
pub mod game;
