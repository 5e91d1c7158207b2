//! Rules and computer opponent of a two-player tower game on an 8×8 board.
//!
//! Players take turns picking a cell from the active row or column. Stones
//! raise the picker's tower, bombs lower it, bananas grant another pick on
//! the same axis. The first tower to reach twenty rows wins.

mod chance;
pub mod ai;
pub mod game;
pub mod turn;
