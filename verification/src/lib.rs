//! Simulation core of a puzzle game played inside a 256x256 byte grid that is
//! at once the memory and the program of a small virtual CPU.

pub mod bytegrid;
pub mod cpu;
pub mod diff_laws;
pub mod encoding;
pub mod game_laws;
pub mod gameplay;
pub mod grid_text;
pub mod input;
pub mod layout;
pub mod level;
pub mod model;
pub mod page;
pub mod rbbin;
pub mod rules;
pub mod vecmath;
