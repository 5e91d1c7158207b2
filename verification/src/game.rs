//! The board, the per-round state and the move rules.

pub mod field;
pub mod logic;
pub mod types;
