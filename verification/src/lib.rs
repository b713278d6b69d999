//! Verified core of a game that pits a player against a Conway's Game of Life colony.

pub mod cells;
pub mod combat;
pub mod gol_grid;
pub mod hud;
pub mod level_config;
pub mod pattern_evolution;
pub mod random;
pub mod tail;
