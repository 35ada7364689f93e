//! A two-player chain-reaction board game on a fixed 8x8 grid.
//!
//! Each move seeds a cell with a marker.  When a cell holds as many markers
//! as it has orthogonal neighbours it fires, sending one marker towards each
//! neighbour; a neighbour that is hit is cleared and refilled with the firing
//! player's markers, which can make it fire in turn.  A player whose markers
//! are all eliminated after at least one firing loses.
//!
//! All coordinates are integers.  Screen positions are kept in *half-units*
//! (twice the drawing unit) so that the cell centre, which lies half a cell
//! width from the corner, and the per-frame marker speed of one and a half
//! units are exact integers.  Rotations are kept in hundredths of a radian.

pub mod entities;
pub mod game;
pub mod game_constants;
pub mod grid;
pub mod helper;
pub mod mapper;
