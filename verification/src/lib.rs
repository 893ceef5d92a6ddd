//! Game-state engine for a snake-style game on a 5×5 LED grid.

pub mod cells;
pub mod grid;
pub mod led;
pub mod sensors;
pub mod snakegame;
