//! A terminal Game of Life: a toroidal boolean grid evolved by the classic
//! birth/survival rule, double-buffered by a small simulation state machine.

pub mod board;
pub mod input;
pub mod render;
pub mod sim;
