use vstd::prelude::*;

verus! {

// SCREEN (drawing units)
pub const SCREEN_WIDTH: u32 = 620;
pub const SCREEN_HEIGHT: u32 = 620;
/// Border around the playable area, in drawing units.
pub const MARGIN: u32 = 10;

// CELL (drawing units)
pub const CELL_WIDTH: u32 = 75;
pub const CELL_HEIGHT: u32 = 75;

// TABLE
pub const TABLE_ROWS: usize = 8;
pub const TABLE_COLUMNS: usize = 8;
pub const LAST_ROWCOL_INDEX: usize = 7;

// PLAYERS
pub const PLAYER_COUNT: usize = 2;

// Entity coordinates are kept in half-units: twice the drawing unit.  The
// centre of a cell lies half a cell width from its corner (37.5 units), and a
// marker moves one and a half units per frame; both are whole numbers of
// half-units.
/// One cell width, in half-units.
pub const CELL_WIDTH_H: i32 = 150;
/// One cell height, in half-units.
pub const CELL_HEIGHT_H: i32 = 150;
/// Offset from a cell's corner to the point where markers sit: half a cell
/// width, in half-units.
pub const IMAGE_WIDTH_H: i32 = 75;
/// Offset from a cell's corner to the point where markers sit: half a cell
/// height, in half-units.
pub const IMAGE_HEIGHT_H: i32 = 75;
/// Distance a marker moves per frame: one and a half units, in half-units.
pub const PLAYER_SPEED_H: i32 = 3;
/// A marker has arrived when it is strictly within one unit of its target on
/// both axes: two half-units.
pub const ARRIVE_TOLERANCE_H: i32 = 2;

// Sprite rotations, in hundredths of a radian.
pub const ROTATION_UP: u32 = 0;
pub const ROTATION_LEFT: u32 = 157;
pub const ROTATION_DOWN: u32 = 314;
pub const ROTATION_RIGHT: u32 = 471;

} // verus!
