//! Tic-tac-toe on a fixed 3x3 grid: cells, line shapes, win detection,
//! move handling and text rendering, with machine-checked contracts.

pub mod board;
pub mod cell;
pub mod clock;
pub mod keypad;
pub mod laws;
pub mod layout;
pub mod outcome;
pub mod render;
pub mod rules;
