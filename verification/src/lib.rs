//! Turn engine, CPU heuristic and immediate-mode widgets of a "31"-style
//! card game played on a character grid.

pub mod card;
pub mod cpu;
pub mod deck;
pub mod game;
pub mod platform;
pub mod screen;
pub mod state;
pub mod text;
pub mod widgets;
