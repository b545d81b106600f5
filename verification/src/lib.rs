//! A binary-space-partition dungeon generator.
//!
//! The map is split recursively into sections, one room is carved into each
//! leaf section, and the rooms are written into a grid of rock and open floor.

pub mod board;
pub mod config;
pub mod dungeon;
pub mod invariants;
pub mod keymaps;
pub mod partition;
pub mod random;
pub mod screens;
pub mod section;
