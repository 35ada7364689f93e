use vstd::prelude::*;

use crate::entities::Direction;
use crate::game_constants::LAST_ROWCOL_INDEX;

verus! {

/// Whether `actual` lies strictly within `boundary` of `expected`.
pub open spec fn spec_approximately_eq(actual: int, expected: int, boundary: int) -> bool {
    expected + boundary > actual && expected - boundary < actual
}

/// Checks whether two coordinates are approximately equal: `actual` lies
/// strictly within `boundary` of `expected`.
pub fn approximately_eq(actual: i32, expected: i32, boundary: i32) -> (r: bool)
    ensures
        r == spec_approximately_eq(actual as int, expected as int, boundary as int),
{
    let actual_wide: i64 = actual as i64;
    let expected_wide: i64 = expected as i64;
    let boundary_wide: i64 = boundary as i64;
    if expected_wide + boundary_wide > actual_wide && expected_wide - boundary_wide < actual_wide {
        return true;
    }
    false
}

/// Whether (row, column) is one of the four corners of the grid.
pub open spec fn spec_is_corner(row: int, column: int) -> bool {
    (row == 0 || row == LAST_ROWCOL_INDEX) && (column == 0 || column == LAST_ROWCOL_INDEX)
}

/// Whether (row, column) lies on the border of the grid.
pub open spec fn spec_is_border(row: int, column: int) -> bool {
    row == 0 || row == LAST_ROWCOL_INDEX || column == 0 || column == LAST_ROWCOL_INDEX
}

/// The number of orthogonal neighbours of a cell: 2 for a corner, 3 for a
/// non-corner border cell, 4 for an interior cell.  This is also the cell's
/// firing capacity.
pub open spec fn spec_neighbours_count(row: int, column: int) -> int {
    if spec_is_corner(row, column) {
        2
    } else if spec_is_border(row, column) {
        3
    } else {
        4
    }
}

/// The number of orthogonally adjacent positions of (row, column) that lie
/// inside the grid.
pub open spec fn spec_in_bounds_neighbours(row: int, column: int) -> int {
    (if row > 0 { 1int } else { 0int }) + (if row < LAST_ROWCOL_INDEX { 1int } else { 0int })
        + (if column > 0 { 1int } else { 0int })
        + (if column < LAST_ROWCOL_INDEX { 1int } else { 0int })
}

/// Determines the number of neighbouring cells of (row, column): 2 at a
/// corner, 3 on a non-corner border cell, 4 in the interior.
pub fn get_neighbours_count(row: usize, column: usize) -> (count: usize)
    ensures
        count == spec_neighbours_count(row as int, column as int),
        2 <= count <= 4,
        count == 2 <==> spec_is_corner(row as int, column as int),
        count == 4 <==> !spec_is_border(row as int, column as int),
{
    if (row == 0 || row == LAST_ROWCOL_INDEX) && (column == 0 || column == LAST_ROWCOL_INDEX) {
        2
    } else if row == 0 || row == LAST_ROWCOL_INDEX || column == LAST_ROWCOL_INDEX || column == 0 {
        3
    } else {
        4
    }
}

/// A cell's firing capacity equals the number of its in-bounds orthogonal
/// neighbours, so when a cell fires, exactly one redistribution happens per
/// in-bounds neighbour.
pub proof fn lemma_neighbours_count_is_in_bounds_neighbours(row: int, column: int)
    requires
        0 <= row < 8,
        0 <= column < 8,
    ensures
        spec_neighbours_count(row, column) == spec_in_bounds_neighbours(row, column),
{
}

/// The ordered ejection-direction table of the cell whose grid position is
/// (`first`, `second`), where `first` is the horizontal index (grown along
/// the x axis) and `second` the vertical index.  Marker number k (counting
/// from zero) of a cell travels in direction `table[k]` when the cell fires.
pub open spec fn spec_cell_directions(first: int, second: int) -> Seq<Direction> {
    if second == LAST_ROWCOL_INDEX {
        if first < LAST_ROWCOL_INDEX {
            seq![Direction::UP, Direction::LEFT, Direction::RIGHT, Direction::DOWN]
        } else {
            seq![Direction::UP, Direction::RIGHT, Direction::DOWN, Direction::LEFT]
        }
    } else if second == 0 {
        if first < LAST_ROWCOL_INDEX {
            seq![Direction::DOWN, Direction::LEFT, Direction::RIGHT, Direction::UP]
        } else {
            seq![Direction::DOWN, Direction::RIGHT, Direction::UP, Direction::LEFT]
        }
    } else if first == 0 {
        seq![Direction::UP, Direction::LEFT, Direction::DOWN, Direction::RIGHT]
    } else if first == LAST_ROWCOL_INDEX {
        seq![Direction::UP, Direction::RIGHT, Direction::DOWN, Direction::LEFT]
    } else {
        seq![Direction::DOWN, Direction::RIGHT, Direction::UP, Direction::LEFT]
    }
}

/// Determines the ordered ejection directions of the cell at grid position
/// (`column`, `row`).  Despite the parameter names, the first argument is the
/// cell's horizontal index and the second its vertical index, matching how
/// the grid calls it.
pub fn get_image_dir(column: usize, row: usize) -> (dirs: Vec<Direction>)
    ensures
        dirs@ == spec_cell_directions(column as int, row as int),
        dirs@.len() == 4,
{
    let dirs: Vec<Direction> = if row == LAST_ROWCOL_INDEX {
        if column < LAST_ROWCOL_INDEX {
            vec![Direction::UP, Direction::LEFT, Direction::RIGHT, Direction::DOWN]
        } else {
            vec![Direction::UP, Direction::RIGHT, Direction::DOWN, Direction::LEFT]
        }
    } else if row == 0 {
        if column < LAST_ROWCOL_INDEX {
            vec![Direction::DOWN, Direction::LEFT, Direction::RIGHT, Direction::UP]
        } else {
            vec![Direction::DOWN, Direction::RIGHT, Direction::UP, Direction::LEFT]
        }
    } else if column == 0 {
        vec![Direction::UP, Direction::LEFT, Direction::DOWN, Direction::RIGHT]
    } else if column == LAST_ROWCOL_INDEX {
        vec![Direction::UP, Direction::RIGHT, Direction::DOWN, Direction::LEFT]
    } else {
        vec![Direction::DOWN, Direction::RIGHT, Direction::UP, Direction::LEFT]
    };
    proof {
        assert(dirs@ =~= spec_cell_directions(column as int, row as int));
    }
    dirs
}

} // verus!
