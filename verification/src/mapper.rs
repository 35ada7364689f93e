use vstd::prelude::*;

use crate::entities::{Direction, Pos};
use crate::game_constants::{
    CELL_HEIGHT, CELL_WIDTH, MARGIN, ROTATION_DOWN, ROTATION_LEFT, ROTATION_RIGHT, ROTATION_UP,
    SCREEN_WIDTH, SCREEN_HEIGHT, TABLE_COLUMNS, TABLE_ROWS,
};

verus! {

/// The rotation, in hundredths of a radian, with which a marker travelling in
/// direction `dir` is drawn.
pub open spec fn spec_rotation(dir: Direction) -> int {
    match dir {
        Direction::LEFT => ROTATION_LEFT as int,
        Direction::UP => ROTATION_UP as int,
        Direction::RIGHT => ROTATION_RIGHT as int,
        Direction::DOWN => ROTATION_DOWN as int,
    }
}

/// The x coordinate one step of `step` in direction `dir` away from `x`:
/// LEFT decreases x, RIGHT increases x, UP and DOWN leave x unchanged.
pub open spec fn spec_offset_x(dir: Direction, x: int, step: int) -> int {
    match dir {
        Direction::LEFT => x - step,
        Direction::RIGHT => x + step,
        Direction::UP => x,
        Direction::DOWN => x,
    }
}

/// The y coordinate one step of `step` in direction `dir` away from `y`:
/// UP decreases y, DOWN increases y, LEFT and RIGHT leave y unchanged.
pub open spec fn spec_offset_y(dir: Direction, y: int, step: int) -> int {
    match dir {
        Direction::UP => y - step,
        Direction::DOWN => y + step,
        Direction::LEFT => y,
        Direction::RIGHT => y,
    }
}

/// Converts a position in drawing units to (row, column) grid indices.  The
/// row grows along the x axis and the column along the y axis.  The caller
/// guarantees that the point lies within the playable area.
pub fn pos_to_row_col(pos_x: u32, pos_y: u32) -> (rc: (usize, usize))
    requires
        MARGIN <= pos_x < SCREEN_WIDTH - MARGIN,
        MARGIN <= pos_y < SCREEN_HEIGHT - MARGIN,
    ensures
        rc.0 == (pos_x - MARGIN) as int / CELL_WIDTH as int,
        rc.1 == (pos_y - MARGIN) as int / CELL_HEIGHT as int,
        rc.0 < TABLE_ROWS,
        rc.1 < TABLE_COLUMNS,
{
    let row = ((pos_x - MARGIN) / CELL_WIDTH) as usize;
    let column = ((pos_y - MARGIN) / CELL_HEIGHT) as usize;
    (row, column)
}

/// Converts (row, column) grid indices to the position of the cell's
/// top-left corner, in drawing units.
pub fn row_col_to_pos(row: usize, column: usize) -> (pos: (u32, u32))
    requires
        row < TABLE_ROWS,
        column < TABLE_COLUMNS,
    ensures
        pos.0 == row * CELL_WIDTH + MARGIN,
        pos.1 == column * CELL_HEIGHT + MARGIN,
{
    let x = (row as u32) * CELL_WIDTH + MARGIN;
    let y = (column as u32) * CELL_HEIGHT + MARGIN;
    (x, y)
}

/// Converting a grid position to a drawing position and back yields the
/// original grid position.
pub proof fn lemma_row_col_pos_round_trip(row: int, column: int)
    requires
        0 <= row < TABLE_ROWS,
        0 <= column < TABLE_COLUMNS,
    ensures
        (row * CELL_WIDTH + MARGIN - MARGIN) / CELL_WIDTH as int == row,
        (column * CELL_HEIGHT + MARGIN - MARGIN) / CELL_HEIGHT as int == column,
{
    assert((row * 75) / 75 == row) by (nonlinear_arith)
        requires 0 <= row < 8;
    assert((column * 75) / 75 == column) by (nonlinear_arith)
        requires 0 <= column < 8;
}

/// Converts a direction into the rotation angle, in hundredths of a radian,
/// with which a marker travelling that way is drawn.
pub fn from_direction_to_rotation(dir: &Direction) -> (rotation: u32)
    ensures
        rotation == spec_rotation(*dir),
{
    match dir {
        Direction::LEFT => ROTATION_LEFT,
        Direction::UP => ROTATION_UP,
        Direction::RIGHT => ROTATION_RIGHT,
        Direction::DOWN => ROTATION_DOWN,
    }
}

/// The rotation table is a bijection: the four directions map one-to-one
/// onto the four angles 0, 1.57, 3.14 and 4.71 radians (stored in
/// hundredths).
pub proof fn lemma_rotation_bijective(d1: Direction, d2: Direction)
    ensures
        spec_rotation(d1) == spec_rotation(d2) ==> d1 == d2,
        spec_rotation(d1) == ROTATION_UP || spec_rotation(d1) == ROTATION_LEFT
            || spec_rotation(d1) == ROTATION_DOWN || spec_rotation(d1) == ROTATION_RIGHT,
{
}

/// Offsets `pos` by one step in the given direction: LEFT and RIGHT move
/// along the x axis by `step_x`, UP and DOWN along the y axis by `step_y`.
/// UP decreases y, DOWN increases y, LEFT decreases x, RIGHT increases x.
pub fn offset_in_direction(dir: &Direction, pos: Pos, step_x: i32, step_y: i32) -> (target: Pos)
    requires
        -1_000_000 <= pos.x <= 1_000_000,
        -1_000_000 <= pos.y <= 1_000_000,
        0 <= step_x <= 1_000,
        0 <= step_y <= 1_000,
    ensures
        target.x == spec_offset_x(*dir, pos.x as int, step_x as int),
        target.y == spec_offset_y(*dir, pos.y as int, step_y as int),
{
    match dir {
        Direction::LEFT => Pos { x: pos.x - step_x, y: pos.y },
        Direction::RIGHT => Pos { x: pos.x + step_x, y: pos.y },
        Direction::UP => Pos { x: pos.x, y: pos.y - step_y },
        Direction::DOWN => Pos { x: pos.x, y: pos.y + step_y },
    }
}

/// Calculates the position one cell away from `pos` in the given direction,
/// in drawing units.
pub fn from_direction_to_go_pos(dir: &Direction, pos: Pos) -> (target: Pos)
    requires
        -1_000_000 <= pos.x <= 1_000_000,
        -1_000_000 <= pos.y <= 1_000_000,
    ensures
        target.x == spec_offset_x(*dir, pos.x as int, CELL_WIDTH as int),
        target.y == spec_offset_y(*dir, pos.y as int, CELL_HEIGHT as int),
{
    offset_in_direction(dir, pos, CELL_WIDTH as i32, CELL_HEIGHT as i32)
}

/// Moving one step in a direction and then one equal step in the opposite
/// direction returns to the original position.
pub proof fn lemma_offset_round_trip(dir: Direction, x: int, y: int, step_x: int, step_y: int)
    ensures
        spec_offset_x(dir.opposite(), spec_offset_x(dir, x, step_x), step_x) == x,
        spec_offset_y(dir.opposite(), spec_offset_y(dir, y, step_y), step_y) == y,
{
}

} // verus!
