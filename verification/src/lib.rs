//! Small verified building blocks: first steps with values, control flow,
//! loops, ownership, string slices, records and a number-guessing game.

pub mod control_flow;
pub mod data_types;
pub mod decimal;
pub mod functions;
pub mod guessing_game;
pub mod loops;
pub mod ownership;
pub mod slices;
pub mod structs;
pub mod variables;
