use vstd::prelude::*;

use crate::entities::{Direction, Player, Pos};
use crate::game_constants::{
    CELL_HEIGHT_H, CELL_WIDTH_H, IMAGE_HEIGHT_H, IMAGE_WIDTH_H, LAST_ROWCOL_INDEX, MARGIN,
    PLAYER_COUNT, PLAYER_SPEED_H, TABLE_COLUMNS, TABLE_ROWS,
};
use crate::helper::{
    get_image_dir, get_neighbours_count, lemma_neighbours_count_is_in_bounds_neighbours,
    spec_cell_directions, spec_in_bounds_neighbours, spec_neighbours_count,
};
use crate::mapper::{
    from_direction_to_rotation, offset_in_direction, row_col_to_pos, spec_offset_x, spec_offset_y,
    spec_rotation,
};

verus! {

/// The occupancy state of a cell: how many markers its sprite shows,
/// from zero (`Default`) to four (`Fourth`).
#[derive(Clone, Copy, Debug, PartialEq, Eq, Structural)]
pub enum ImageState {
    /// The empty state.
    Default,
    /// One marker.
    First,
    /// Two markers.
    Second,
    /// Three markers.
    Third,
    /// Four markers.
    Fourth,
}

impl ImageState {
    /// The number of markers the state stands for.
    pub open spec fn as_int(self) -> int {
        match self {
            ImageState::Default => 0,
            ImageState::First => 1,
            ImageState::Second => 2,
            ImageState::Third => 3,
            ImageState::Fourth => 4,
        }
    }

    /// Converts the state to its corresponding integer value.
    pub fn to_int(&self) -> (n: usize)
        ensures
            n == self.as_int(),
    {
        match self {
            ImageState::Default => 0,
            ImageState::First => 1,
            ImageState::Second => 2,
            ImageState::Third => 3,
            ImageState::Fourth => 4,
        }
    }

    /// Converts an integer to the corresponding state; an integer outside
    /// zero to four yields the empty state.
    pub fn to_image_state(idx: i32) -> (state: ImageState)
        ensures
            state.as_int() == if 0 <= idx <= 4 { idx as int } else { 0 },
    {
        match idx {
            0 => ImageState::Default,
            1 => ImageState::First,
            2 => ImageState::Second,
            3 => ImageState::Third,
            4 => ImageState::Fourth,
            _ => ImageState::Default,
        }
    }

    /// The next state in the sequence; the last state is its own successor.
    pub fn next(&self) -> (state: ImageState)
        ensures
            state.as_int() == if self.as_int() < 4 { self.as_int() + 1 } else { 4int },
    {
        match self {
            ImageState::Default => ImageState::First,
            ImageState::First => ImageState::Second,
            ImageState::Second => ImageState::Third,
            ImageState::Third => ImageState::Fourth,
            ImageState::Fourth => ImageState::Fourth,
        }
    }
}

/// The x coordinate, in half-units, of the centre of a cell in grid row
/// `row`: twice the cell corner's x plus half a cell width.
pub open spec fn spec_center_x(row: int) -> int {
    (CELL_WIDTH_H as int) * row + 2 * (MARGIN as int) + (IMAGE_WIDTH_H as int)
}

/// The y coordinate, in half-units, of the centre of a cell in grid column
/// `column`.
pub open spec fn spec_center_y(column: int) -> int {
    (CELL_HEIGHT_H as int) * column + 2 * (MARGIN as int) + (IMAGE_HEIGHT_H as int)
}

/// How far, in half-units, the marker `m` of the cell at (row, column) has
/// travelled from the cell's centre along its own direction.
pub open spec fn spec_marker_progress(m: Player, row: int, column: int) -> int {
    match m.dir {
        Direction::LEFT => spec_center_x(row) - m.pos.x,
        Direction::RIGHT => m.pos.x - spec_center_x(row),
        Direction::UP => spec_center_y(column) - m.pos.y,
        Direction::DOWN => m.pos.y - spec_center_y(column),
    }
}

/// A marker of the cell at (row, column) is on track when its target is the
/// centre of the adjacent cell along its direction, it lies between its
/// cell's centre and that target on the movement axis and exactly on the
/// centre line of the other axis, and its travel so far is a whole number of
/// frame steps.
pub open spec fn spec_marker_on_track(m: Player, row: int, column: int) -> bool {
    let cx = spec_center_x(row);
    let cy = spec_center_y(column);
    let t = spec_marker_progress(m, row, column);
    &&& 0 <= t
    &&& t % (PLAYER_SPEED_H as int) == 0
    &&& match m.dir {
        Direction::LEFT => t < CELL_WIDTH_H && m.pos.y == cy && m.go_to_pos.x == cx - CELL_WIDTH_H
            && m.go_to_pos.y == cy,
        Direction::RIGHT => t < CELL_WIDTH_H && m.pos.y == cy && m.go_to_pos.x == cx + CELL_WIDTH_H
            && m.go_to_pos.y == cy,
        Direction::UP => t < CELL_HEIGHT_H && m.pos.x == cx && m.go_to_pos.y == cy - CELL_HEIGHT_H
            && m.go_to_pos.x == cx,
        Direction::DOWN => t < CELL_HEIGHT_H && m.pos.x == cx && m.go_to_pos.y == cy + CELL_HEIGHT_H
            && m.go_to_pos.x == cx,
    }
}

/// The k-th marker of the cell at (row, column) is well formed: it belongs
/// to a known player, travels along the cell's k-th ejection direction with
/// the matching sprite rotation, and is on track.
pub open spec fn spec_marker_wf(m: Player, row: int, column: int, k: int) -> bool {
    &&& m.id < PLAYER_COUNT
    &&& 0 <= k < 4
    &&& m.dir == spec_cell_directions(row, column)[k]
    &&& m.rotation == spec_rotation(m.dir)
    &&& spec_marker_on_track(m, row, column)
}

/// The marker a successful move with template `template` adds to the cell at
/// (row, column) when the cell already holds `k` markers: it keeps the
/// template's identity, sits at the cell's centre and is aimed one cell away
/// along the cell's k-th ejection direction.
pub open spec fn spec_configured_marker(
    m: Player,
    template: Player,
    row: int,
    column: int,
    k: int,
) -> bool {
    let d = spec_cell_directions(row, column)[k];
    let cx = spec_center_x(row);
    let cy = spec_center_y(column);
    &&& m.id == template.id
    &&& m.speed == template.speed
    &&& m.dir == d
    &&& m.rotation == spec_rotation(d)
    &&& m.pos.x == cx && m.pos.y == cy
    &&& m.go_to_pos.x == spec_offset_x(d, cx, CELL_WIDTH_H as int)
    &&& m.go_to_pos.y == spec_offset_y(d, cy, CELL_HEIGHT_H as int)
}

/// A cell of the grid: its position, its queue of markers, the precomputed
/// ejection-direction table and firing capacity for its grid position, and
/// whether it has fired.
pub struct Cell {
    /// Horizontal grid index of the cell.
    pub row: usize,
    /// Vertical grid index of the cell.
    pub column: usize,
    /// The occupancy state shown by the cell's sprite.
    pub state: ImageState,
    /// The centre of the cell, in half-units.
    pub pos: Pos,
    /// The markers currently queued in the cell, in insertion order.
    pub players: Vec<Player>,
    /// The ejection direction of the k-th marker added to the cell.
    pub image_dir: Vec<Direction>,
    /// The firing capacity: the number of in-bounds orthogonal neighbours.
    pub capacity: usize,
    /// Whether the cell has reached capacity and fired.
    pub triggered: bool,
}

impl Cell {
    /// The cell is well formed: its cached geometry matches its grid
    /// position, its sprite state matches its queue length, it is marked
    /// fired exactly when it is at capacity, and all queued markers are well
    /// formed, belong to one owner and have travelled equally far (not at
    /// all, unless the cell has fired).
    pub open spec fn wf(self) -> bool {
        let row = self.row as int;
        let column = self.column as int;
        &&& self.row < TABLE_ROWS
        &&& self.column < TABLE_COLUMNS
        &&& self.capacity == spec_neighbours_count(row, column)
        &&& self.image_dir@ == spec_cell_directions(row, column)
        &&& self.pos.x == spec_center_x(row)
        &&& self.pos.y == spec_center_y(column)
        &&& self.players@.len() <= self.capacity
        &&& self.state.as_int() == self.players@.len()
        &&& (self.triggered <==> self.players@.len() == self.capacity)
        &&& forall|i: int|
            0 <= i < self.players@.len() ==> spec_marker_wf(
                #[trigger] self.players@[i],
                row,
                column,
                i,
            )
        &&& forall|i: int|
            0 <= i < self.players@.len() ==> (#[trigger] self.players@[i]).id
                == self.players@[0].id
        &&& forall|i: int|
            0 <= i < self.players@.len() ==> spec_marker_progress(
                #[trigger] self.players@[i],
                row,
                column,
            ) == spec_marker_progress(self.players@[0], row, column)
        &&& (!self.triggered ==> forall|i: int|
            0 <= i < self.players@.len() ==> spec_marker_progress(
                #[trigger] self.players@[i],
                row,
                column,
            ) == 0)
    }

    /// Creates the empty cell for grid position (row, column).
    pub fn new(row: usize, column: usize) -> (cell: Cell)
        requires
            row < TABLE_ROWS,
            column < TABLE_COLUMNS,
        ensures
            cell.wf(),
            cell.row == row,
            cell.column == column,
            cell.players@.len() == 0,
            cell.triggered == false,
    {
        let corner = row_col_to_pos(row, column);
        let pos = Pos {
            x: 2 * (corner.0 as i32) + IMAGE_WIDTH_H,
            y: 2 * (corner.1 as i32) + IMAGE_HEIGHT_H,
        };
        Cell {
            row,
            column,
            state: ImageState::Default,
            pos,
            players: Vec::new(),
            image_dir: get_image_dir(row, column),
            capacity: get_neighbours_count(row, column),
            triggered: false,
        }
    }

    /// Queues a ready-made marker.  The marker is accepted if and only if
    /// the cell is below its firing capacity and is empty or already owned
    /// by the marker's player; on acceptance it is pushed to the back of the
    /// queue and the sprite state advances.  A rejected marker changes
    /// nothing.
    pub fn change_state(&mut self, player: Player) -> (success: bool)
        requires
            old(self).state.as_int() == old(self).players@.len(),
            old(self).players@.len() <= old(self).capacity,
            old(self).capacity <= 4,
        ensures
            success == (old(self).players@.len() < old(self).capacity && (old(
                self,
            ).players@.len() == 0 || old(self).players@[0].id == player.id)),
            !success ==> *final(self) == *old(self),
            success ==> {
                &&& final(self).players@ == old(self).players@.push(player)
                &&& final(self).state.as_int() == old(self).players@.len() + 1
                &&& final(self).row == old(self).row
                &&& final(self).column == old(self).column
                &&& final(self).pos == old(self).pos
                &&& final(self).image_dir@ == old(self).image_dir@
                &&& final(self).capacity == old(self).capacity
                &&& final(self).triggered == old(self).triggered
            },
    {
        if self.players.len() >= self.capacity {
            return false;
        }
        if self.players.len() == 0 {
            self.players.push(player);
        } else if self.players[0].get_id() != player.get_id() {
            return false;
        } else {
            self.players.push(player);
        }
        self.state = self.state.next();
        true
    }

    /// Marks the cell as fired if its sprite state has reached the cell's
    /// firing capacity.
    pub fn trigger(&mut self)
        requires
            2 <= old(self).capacity <= 4,
        ensures
            final(self).triggered == (old(self).triggered || old(self).state.as_int() == old(
                self,
            ).capacity),
            final(self).row == old(self).row,
            final(self).column == old(self).column,
            final(self).state == old(self).state,
            final(self).pos == old(self).pos,
            final(self).players@ == old(self).players@,
            final(self).image_dir@ == old(self).image_dir@,
            final(self).capacity == old(self).capacity,
    {
        if self.capacity == 2 {
            if matches!(self.state, ImageState::Second) {
                self.triggered = true;
            }
        }
        if self.capacity == 3 {
            if matches!(self.state, ImageState::Third) {
                self.triggered = true;
            }
        }
        if self.capacity == 4 {
            if matches!(self.state, ImageState::Fourth) {
                self.triggered = true;
            }
        }
    }

    /// Advances the firing animation one frame.  If the cell has fired, each
    /// active marker moves one frame step towards its target; the cell
    /// settles — the fired flag is cleared and true is returned — only once
    /// every active marker has arrived.  Were the queue ever longer than the
    /// firing capacity, only the first `capacity` markers would be animated
    /// and the remainder would stay queued; the insertion rule keeps queues
    /// at or below capacity, so that cap is defensive.
    pub fn has_triggered(&mut self) -> (settled: bool)
        requires
            old(self).wf(),
        ensures
            final(self).row == old(self).row,
            final(self).column == old(self).column,
            final(self).pos == old(self).pos,
            final(self).capacity == old(self).capacity,
            final(self).image_dir@ == old(self).image_dir@,
            final(self).state == old(self).state,
            final(self).players@.len() == old(self).players@.len(),
            forall|i: int|
                0 <= i < old(self).players@.len() ==> {
                    let m0 = old(self).players@[i];
                    let m1 = #[trigger] final(self).players@[i];
                    m1.id == m0.id && m1.dir == m0.dir && m1.rotation == m0.rotation
                        && m1.go_to_pos == m0.go_to_pos
                },
            !old(self).triggered ==> *final(self) == *old(self) && !settled,
            old(self).triggered ==> ({
                let row = old(self).row as int;
                let column = old(self).column as int;
                let t = spec_marker_progress(old(self).players@[0], row, column);
                &&& forall|i: int|
                    0 <= i < old(self).players@.len() ==> spec_marker_progress(
                        #[trigger] final(self).players@[i],
                        row,
                        column,
                    ) == t + PLAYER_SPEED_H
                &&& forall|i: int|
                    0 <= i < old(self).players@.len() ==> spec_moved_one_step(
                        old(self).players@[i],
                        #[trigger] final(self).players@[i],
                    )
                &&& settled == (t + PLAYER_SPEED_H == CELL_WIDTH_H)
                &&& final(self).triggered == !settled
                &&& !settled ==> final(self).wf()
            }),
    {
        if !self.triggered {
            return false;
        }
        let ghost row = self.row as int;
        let ghost column = self.column as int;
        let ghost t0 = spec_marker_progress(self.players@[0], row, column);
        let len = self.players.len();
        let active = if len > self.capacity {
            self.capacity
        } else {
            len
        };
        // the insertion rule keeps the queue at or below capacity, and a
        // fired cell is exactly at capacity, so every marker is active
        assert(active == len && len >= 2);
        let mut idx: usize = 0;
        let mut still_moving = false;
        while idx < active
            invariant
                old(self).wf(),
                old(self).triggered,
                row == old(self).row as int,
                column == old(self).column as int,
                t0 == spec_marker_progress(old(self).players@[0], row, column),
                active == old(self).players@.len(),
                2 <= active,
                idx <= active,
                self.players@.len() == active,
                self.row == old(self).row,
                self.column == old(self).column,
                self.pos == old(self).pos,
                self.capacity == old(self).capacity,
                self.image_dir@ == old(self).image_dir@,
                self.state == old(self).state,
                self.triggered == old(self).triggered,
                forall|i: int|
                    idx <= i < active ==> #[trigger] self.players@[i] == old(self).players@[i],
                forall|i: int|
                    0 <= i < idx ==> spec_moved_one_step(
                        old(self).players@[i],
                        #[trigger] self.players@[i],
                    ),
                still_moving == (idx > 0 && t0 + PLAYER_SPEED_H != CELL_WIDTH_H),
            decreases active - idx,
        {
            proof {
                assert(spec_marker_wf(old(self).players@[idx as int], row, column, idx as int));
                assert(spec_marker_progress(old(self).players@[idx as int], row, column) == t0);
            }
            let mut m = self.players[idx];
            m.set_speed(PLAYER_SPEED_H);
            let mut arrived_flag = true;
            m.update(&mut arrived_flag);
            self.players.set(idx, m);
            if arrived_flag {
                still_moving = true;
            }
            idx += 1;
        }
        if !still_moving {
            self.triggered = false;
            proof {
                assert forall|i: int| 0 <= i < active implies spec_marker_progress(
                    #[trigger] self.players@[i],
                    row,
                    column,
                ) == t0 + PLAYER_SPEED_H by {
                    assert(spec_marker_wf(old(self).players@[i], row, column, i));
                    assert(spec_marker_progress(old(self).players@[i], row, column) == t0);
                }
            }
            return true;
        }
        proof {
            assert forall|i: int| 0 <= i < active implies spec_marker_wf(
                #[trigger] self.players@[i],
                row,
                column,
                i,
            ) && spec_marker_progress(self.players@[i], row, column) == t0 + PLAYER_SPEED_H by {
                assert(spec_marker_wf(old(self).players@[i], row, column, i));
                assert(spec_marker_progress(old(self).players@[i], row, column) == t0);
            }
        }
        false
    }
}

/// Whether (r2, c2) is an orthogonal neighbour of (row, column).
pub open spec fn spec_is_neighbour(row: int, column: int, r2: int, c2: int) -> bool {
    ||| (r2 == row - 1 && c2 == column)
    ||| (r2 == row + 1 && c2 == column)
    ||| (r2 == row && c2 == column - 1)
    ||| (r2 == row && c2 == column + 1)
}

/// How many markers a cleared-and-refilled cell ends up with: one more than
/// it held, capped at its firing capacity.
pub open spec fn spec_refill_count(cell: Cell) -> int {
    if cell.players@.len() + 1 <= cell.capacity {
        cell.players@.len() as int + 1
    } else {
        cell.capacity as int
    }
}

/// Cell `after` is cell `before`, at grid position (row, column), cleared
/// and refilled with the firing `template` player's markers.
pub open spec fn spec_refilled_cell(
    before: Cell,
    after: Cell,
    template: Player,
    row: int,
    column: int,
) -> bool {
    let refill = spec_refill_count(before);
    &&& after.players@.len() == refill
    &&& (forall|k: int|
        0 <= k < refill ==> spec_configured_marker(
            #[trigger] after.players@[k],
            template,
            row,
            column,
            k,
        ))
    &&& after.triggered == (refill == before.capacity)
    &&& after.state.as_int() == refill
}

/// Marker `after` is marker `before` moved one frame step of
/// `PLAYER_SPEED_H` half-units along its direction, all else equal.
pub open spec fn spec_moved_one_step(before: Player, after: Player) -> bool {
    &&& after.id == before.id
    &&& after.dir == before.dir
    &&& after.rotation == before.rotation
    &&& after.go_to_pos == before.go_to_pos
    &&& match before.dir {
        Direction::LEFT => after.pos.x == before.pos.x - PLAYER_SPEED_H && after.pos.y
            == before.pos.y,
        Direction::RIGHT => after.pos.x == before.pos.x + PLAYER_SPEED_H && after.pos.y
            == before.pos.y,
        Direction::UP => after.pos.y == before.pos.y - PLAYER_SPEED_H && after.pos.x
            == before.pos.x,
        Direction::DOWN => after.pos.y == before.pos.y + PLAYER_SPEED_H && after.pos.x
            == before.pos.x,
    }
}

/// Cell `after` holds what `before` held after being overwritten by the wave
/// of a firing neighbour owned by the player `owner`: one marker more than
/// `before` held, capped at `before`'s capacity, every marker owned by
/// `owner` and aimed along the cell's direction table, fired again exactly
/// when refilled to capacity.  Marker positions are not pinned, because an
/// overwritten cell that fires starts animating within the same sweep.
pub open spec fn spec_overwritten_cell(
    before: Cell,
    after: Cell,
    owner: int,
    row: int,
    column: int,
) -> bool {
    let refill = spec_refill_count(before);
    &&& after.players@.len() == refill
    &&& (forall|k: int| 0 <= k < refill ==> (#[trigger] after.players@[k]).id == owner)
    &&& (forall|k: int|
        0 <= k < refill ==> (#[trigger] after.players@[k]).dir == spec_cell_directions(
            row,
            column,
        )[k])
    &&& after.triggered == (refill == before.capacity)
    &&& after.state.as_int() == refill
}

/// What one frame tick does when exactly the cell at flat index `s` settles:
/// the settling cell empties, each of its in-bounds orthogonal neighbours is
/// overwritten by the settling owner's wave, and every other cell merely
/// advances its animation.
pub open spec fn spec_single_cascade(cells: Seq<Cell>, fcells: Seq<Cell>, s: int) -> bool {
    let sr = cells[s].row as int;
    let sc = cells[s].column as int;
    let owner = cells[s].players@[0].id as int;
    &&& fcells[s].players@.len() == 0
    &&& (forall|j: int|
        0 <= j < cells.len() && j != s && !spec_is_neighbour(
            sr,
            sc,
            (#[trigger] cells[j]).row as int,
            cells[j].column as int,
        ) ==> spec_cell_advanced(cells[j], fcells[j]))
    &&& (forall|j: int|
        0 <= j < cells.len() && j != s && spec_is_neighbour(
            sr,
            sc,
            (#[trigger] cells[j]).row as int,
            cells[j].column as int,
        ) ==> spec_overwritten_cell(
            cells[j],
            fcells[j],
            owner,
            cells[j].row as int,
            cells[j].column as int,
        ))
}

/// Whether the cell would settle on its next animation frame: it has fired
/// and its markers are one frame step short of their targets.
pub open spec fn spec_would_settle(cell: Cell) -> bool {
    &&& cell.triggered
    &&& cell.players@.len() > 0
    &&& spec_marker_progress(cell.players@[0], cell.row as int, cell.column as int)
        + PLAYER_SPEED_H == CELL_WIDTH_H
}

/// Cell `after` is cell `before` one animation frame later, without
/// redistribution: an unfired cell is unchanged, and a fired cell's markers
/// have each moved one frame step while everything else stays.
pub open spec fn spec_cell_advanced(before: Cell, after: Cell) -> bool {
    if before.triggered {
        &&& after.players@.len() == before.players@.len()
        &&& (forall|i: int|
            0 <= i < before.players@.len() ==> spec_moved_one_step(
                #[trigger] before.players@[i],
                after.players@[i],
            ))
        &&& after.row == before.row && after.column == before.column
        &&& after.state == before.state && after.pos == before.pos
        &&& after.image_dir@ == before.image_dir@ && after.capacity == before.capacity
        &&& after.triggered == before.triggered
    } else {
        after == before
    }
}

/// The number of markers the player with identifier `id` owns in `cell`.
/// Markers of one cell share one owner, so this is the whole queue or
/// nothing.
pub open spec fn spec_owned_in_cell(cell: Cell, id: int) -> int {
    if cell.players@.len() > 0 && cell.players@[0].id == id {
        cell.players@.len() as int
    } else {
        0
    }
}

/// The number of markers the player with identifier `id` owns across all
/// `cells`.
pub open spec fn spec_total_owned(cells: Seq<Cell>, id: int) -> int
    decreases cells.len(),
{
    if cells.len() == 0 {
        0
    } else {
        spec_total_owned(cells.drop_last(), id) + spec_owned_in_cell(cells.last(), id)
    }
}

/// Replacing one cell changes the total by exactly the difference between
/// the new and the old cell's owned markers.
pub proof fn lemma_total_owned_update(cells: Seq<Cell>, i: int, cell: Cell, id: int)
    requires
        0 <= i < cells.len(),
    ensures
        spec_total_owned(cells.update(i, cell), id) == spec_total_owned(cells, id)
            - spec_owned_in_cell(cells[i], id) + spec_owned_in_cell(cell, id),
    decreases cells.len(),
{
    let updated = cells.update(i, cell);
    if i == cells.len() - 1 {
        assert(updated.drop_last() =~= cells.drop_last());
    } else {
        assert(updated.drop_last() =~= cells.drop_last().update(i, cell));
        lemma_total_owned_update(cells.drop_last(), i, cell, id);
        assert(updated.last() == cells.last());
    }
}

/// No player owns a negative number of markers.
pub proof fn lemma_total_owned_nonnegative(cells: Seq<Cell>, id: int)
    ensures
        0 <= spec_total_owned(cells, id),
    decreases cells.len(),
{
    if cells.len() > 0 {
        lemma_total_owned_nonnegative(cells.drop_last(), id);
    }
}

/// The board-wide total is at least what one cell holds.
pub proof fn lemma_total_owned_at_least_cell(cells: Seq<Cell>, i: int, id: int)
    requires
        0 <= i < cells.len(),
    ensures
        spec_owned_in_cell(cells[i], id) <= spec_total_owned(cells, id),
    decreases cells.len(),
{
    lemma_total_owned_nonnegative(cells.drop_last(), id);
    if i == cells.len() - 1 {
        assert(cells.last() == cells[i]);
    } else {
        lemma_total_owned_at_least_cell(cells.drop_last(), i, id);
        assert(cells.drop_last()[i] == cells[i]);
    }
}

/// When every cell holds at most four markers, no player's board-wide total
/// can exceed four markers per board slot.
pub proof fn lemma_total_owned_bound(cells: Seq<Cell>, id: int)
    requires
        forall|i: int| 0 <= i < cells.len() ==> (#[trigger] cells[i]).players@.len() <= 4,
    ensures
        spec_total_owned(cells, id) <= 4 * cells.len(),
    decreases cells.len(),
{
    if cells.len() > 0 {
        assert(forall|i: int|
            0 <= i < cells.drop_last().len() ==> (#[trigger] cells.drop_last()[i]).players@.len()
                <= 4);
        lemma_total_owned_bound(cells.drop_last(), id);
    }
}

/// A total over empty cells is zero.
pub proof fn lemma_total_owned_all_empty(cells: Seq<Cell>, id: int)
    requires
        forall|i: int| 0 <= i < cells.len() ==> (#[trigger] cells[i]).players@.len() == 0,
    ensures
        spec_total_owned(cells, id) == 0,
    decreases cells.len(),
{
    if cells.len() > 0 {
        assert(forall|i: int|
            0 <= i < cells.drop_last().len() ==> (#[trigger] cells.drop_last()[i]).players@.len()
                == 0);
        lemma_total_owned_all_empty(cells.drop_last(), id);
    }
}

/// The index of the cell at (row, column) in the flat cell array.
pub open spec fn spec_cell_index(row: int, column: int) -> int {
    row * (TABLE_COLUMNS as int) + column
}

/// Distinct grid positions have distinct flat indices.
pub proof fn lemma_cell_index_injective(r1: int, c1: int, r2: int, c2: int)
    requires
        0 <= r1 < TABLE_ROWS,
        0 <= c1 < TABLE_COLUMNS,
        0 <= r2 < TABLE_ROWS,
        0 <= c2 < TABLE_COLUMNS,
        spec_cell_index(r1, c1) == spec_cell_index(r2, c2),
    ensures
        r1 == r2,
        c1 == c2,
{
}

/// The grid: a flat row-major array of cells together with the number of
/// live markers each player owns on the board.
pub struct Grid {
    /// The cells, the cell of grid position (row, column) stored at flat
    /// index `row * TABLE_COLUMNS + column`.
    pub grid: Vec<Cell>,
    /// For each player identifier, the number of markers that player owns
    /// across the whole board.
    pub players_id_count: Vec<i32>,
}

impl Grid {
    /// All cells are present, well formed and stored at the flat index of
    /// their grid position.
    pub open spec fn cells_wf(self) -> bool {
        &&& self.grid@.len() == TABLE_ROWS * TABLE_COLUMNS
        &&& forall|idx: int|
            0 <= idx < self.grid@.len() ==> {
                let cell = #[trigger] self.grid@[idx];
                cell.wf() && spec_cell_index(cell.row as int, cell.column as int) == idx
            }
    }

    /// The recorded per-player counts match the markers actually on the
    /// board: markers are neither duplicated nor lost silently.
    pub open spec fn counts_wf(self) -> bool {
        &&& self.players_id_count@.len() == PLAYER_COUNT
        &&& forall|id: int|
            0 <= id < PLAYER_COUNT ==> self.players_id_count@[id] == spec_total_owned(
                self.grid@,
                id,
            )
    }

    /// The grid invariant.
    pub open spec fn wf(self) -> bool {
        self.cells_wf() && self.counts_wf()
    }
}

/// Under the cell part of the grid invariant, the cell stored at the flat
/// index of (row, column) is well formed and carries exactly that position.
pub proof fn lemma_grid_cell_at(g: Grid, row: int, column: int)
    requires
        g.cells_wf(),
        0 <= row < TABLE_ROWS,
        0 <= column < TABLE_COLUMNS,
    ensures
        ({
            let cell = g.grid@[spec_cell_index(row, column)];
            cell.wf() && cell.row == row && cell.column == column
        }),
{
    let idx = spec_cell_index(row, column);
    let cell = g.grid@[idx];
    lemma_cell_index_injective(cell.row as int, cell.column as int, row, column);
}

/// Under the grid invariant every per-player count lies between zero and
/// four markers per board slot.
pub proof fn lemma_counts_in_range(g: Grid, id: int)
    requires
        g.wf(),
        0 <= id < PLAYER_COUNT,
    ensures
        0 <= g.players_id_count@[id] <= 4 * (TABLE_ROWS * TABLE_COLUMNS),
{
    assert forall|i: int|
        0 <= i < g.grid@.len() implies (#[trigger] g.grid@[i]).players@.len() <= 4 by {
        assert(g.grid@[i].wf());
    }
    lemma_total_owned_bound(g.grid@, id);
    lemma_total_owned_nonnegative(g.grid@, id);
}

impl Grid {
    /// Creates the empty grid: all cells empty, zero markers per player.
    pub fn create() -> (grid: Grid)
        ensures
            grid.wf(),
            forall|idx: int|
                0 <= idx < grid.grid@.len() ==> (#[trigger] grid.grid@[idx]).players@.len() == 0,
            grid.players_id_count@ == seq![0i32, 0i32],
    {
        let mut cells: Vec<Cell> = Vec::new();
        let mut row: usize = 0;
        while row < TABLE_ROWS
            invariant
                row <= TABLE_ROWS,
                cells@.len() == row * TABLE_COLUMNS,
                forall|idx: int|
                    0 <= idx < cells@.len() ==> {
                        let cell = #[trigger] cells@[idx];
                        cell.wf() && spec_cell_index(cell.row as int, cell.column as int) == idx
                            && cell.players@.len() == 0
                    },
            decreases TABLE_ROWS - row,
        {
            let mut column: usize = 0;
            while column < TABLE_COLUMNS
                invariant
                    row < TABLE_ROWS,
                    column <= TABLE_COLUMNS,
                    cells@.len() == row * TABLE_COLUMNS + column,
                    forall|idx: int|
                        0 <= idx < cells@.len() ==> {
                            let cell = #[trigger] cells@[idx];
                            cell.wf() && spec_cell_index(cell.row as int, cell.column as int)
                                == idx && cell.players@.len() == 0
                        },
                decreases TABLE_COLUMNS - column,
            {
                cells.push(Cell::new(row, column));
                column += 1;
            }
            row += 1;
        }
        let mut players_id_count: Vec<i32> = Vec::new();
        players_id_count.push(0);
        players_id_count.push(0);
        proof {
            lemma_total_owned_all_empty(cells@, 0);
            lemma_total_owned_all_empty(cells@, 1);
        }
        Grid { grid: cells, players_id_count }
    }

    /// Applies a move by the `player` template to the cell at (row, column):
    /// a marker cloned from the template is placed at the cell's centre,
    /// aimed one cell away along the cell's next ejection direction, and
    /// queued.  The move succeeds if and only if the cell is below its
    /// firing capacity and is empty or already owned by the acting player;
    /// on success the player's recorded marker count grows by one and the
    /// cell fires once it reaches capacity.  A rejected move — an opponent's
    /// cell, or a cell that has fired and not yet redistributed — changes
    /// nothing.
    pub fn change_cell_state(&mut self, row: usize, column: usize, player: &Player) -> (success:
        bool)
        requires
            old(self).wf(),
            row < TABLE_ROWS,
            column < TABLE_COLUMNS,
            player.id < PLAYER_COUNT,
        ensures
            final(self).wf(),
            ({
                let idx = spec_cell_index(row as int, column as int);
                let cell = old(self).grid@[idx];
                let len = cell.players@.len() as int;
                &&& success == (len < cell.capacity && (len == 0 || cell.players@[0].id
                    == player.id))
                &&& !success ==> final(self).grid@ == old(self).grid@
                    && final(self).players_id_count@ == old(self).players_id_count@
                &&& success ==> {
                    let new_cell = final(self).grid@[idx];
                    &&& final(self).grid@ == old(self).grid@.update(idx, new_cell)
                    &&& new_cell.players@.len() == len + 1
                    &&& (forall|i: int|
                        0 <= i < len ==> #[trigger] new_cell.players@[i] == cell.players@[i])
                    &&& spec_configured_marker(
                        new_cell.players@[len],
                        *player,
                        row as int,
                        column as int,
                        len,
                    )
                    &&& new_cell.triggered == (len + 1 == cell.capacity)
                    &&& new_cell.state.as_int() == len + 1
                    &&& new_cell.row == cell.row && new_cell.column == cell.column
                    &&& new_cell.capacity == cell.capacity
                    &&& new_cell.image_dir@ == cell.image_dir@
                    &&& new_cell.pos == cell.pos
                    &&& final(self).players_id_count@ == old(self).players_id_count@.update(
                        player.id as int,
                        (old(self).players_id_count@[player.id as int] + 1) as i32,
                    )
                }
            }),
    {
        let idx = row * TABLE_COLUMNS + column;
        proof {
            lemma_grid_cell_at(*self, row as int, column as int);
            lemma_counts_in_range(*self, player.id as int);
        }
        let corner = row_col_to_pos(row, column);
        let mut new_player = player.clone();
        new_player.set_pos(
            Pos { x: 2 * (corner.0 as i32) + IMAGE_WIDTH_H, y: 2 * (corner.1 as i32) + IMAGE_HEIGHT_H },
        );
        let k: usize = match self.grid[idx].state {
            ImageState::First => 1,
            ImageState::Second => 2,
            ImageState::Third => 3,
            _ => 0,
        };
        let d = self.grid[idx].image_dir[k];
        new_player.set_rotation(from_direction_to_rotation(&d));
        new_player.set_dir(d);
        let centre = new_player.get_position();
        new_player.set_go_to_pos(offset_in_direction(&d, centre, CELL_WIDTH_H, CELL_HEIGHT_H));
        let success = {
            let cell = &mut self.grid[idx];
            cell.change_state(new_player)
        };
        if success {
            let id = player.get_id() as usize;
            let incremented = self.players_id_count[id] + 1;
            self.players_id_count.set(id, incremented);
            let cell = &mut self.grid[idx];
            cell.trigger();
            proof {
                let ghost old_cell = old(self).grid@[idx as int];
                let ghost new_cell = self.grid@[idx as int];
                let ghost len = old_cell.players@.len() as int;
                let ghost pid = player.id as int;
                assert(self.grid@ =~= old(self).grid@.update(idx as int, new_cell));
                assert(new_cell.players@ == old_cell.players@.push(new_player));
                if len > 0 {
                    assert(new_cell.players@[0] == old_cell.players@[0]);
                }
                assert(new_cell.players@[0].id == pid);
                assert(spec_owned_in_cell(new_cell, pid) == len + 1);
                assert(spec_owned_in_cell(old_cell, pid) == len);
                lemma_total_owned_update(old(self).grid@, idx as int, new_cell, pid);
                assert forall|q: int|
                    0 <= q < PLAYER_COUNT && q != pid implies self.players_id_count@[q]
                    == spec_total_owned(self.grid@, q) by {
                    lemma_total_owned_update(old(self).grid@, idx as int, new_cell, q);
                    assert(spec_owned_in_cell(old_cell, q) == 0);
                    assert(spec_owned_in_cell(new_cell, q) == 0);
                }
                assert(self.players_id_count@ =~= old(self).players_id_count@.update(
                    pid,
                    (old(self).players_id_count@[pid] + 1) as i32,
                ));
                assert(new_cell.wf());
            }
        } else {
            proof {
                assert(self.grid@ =~= old(self).grid@);
            }
        }
        success
    }

    /// Clears the cell at (row, column) — markers a previous owner held
    /// there are discarded and deducted from that owner's count — and
    /// refills it through the normal insertion path with the firing player's
    /// markers: one more than the cell previously held, capped at its firing
    /// capacity.  Rebuilding from scratch keeps every cell single-owner and
    /// gives redistributed markers the same placement, direction, rotation
    /// and target as player-initiated moves.
    fn clear_and_fill(&mut self, row: usize, column: usize, player: &Player)
        requires
            old(self).wf(),
            row < TABLE_ROWS,
            column < TABLE_COLUMNS,
            player.id < PLAYER_COUNT,
        ensures
            final(self).wf(),
            ({
                let idx = spec_cell_index(row as int, column as int);
                let cell = old(self).grid@[idx];
                let len = cell.players@.len() as int;
                let refill = if len + 1 <= cell.capacity {
                    len + 1
                } else {
                    cell.capacity as int
                };
                let new_cell = final(self).grid@[idx];
                &&& final(self).grid@ == old(self).grid@.update(idx, new_cell)
                &&& new_cell.players@.len() == refill
                &&& (forall|k: int|
                    0 <= k < refill ==> spec_configured_marker(
                        #[trigger] new_cell.players@[k],
                        *player,
                        row as int,
                        column as int,
                        k,
                    ))
                &&& new_cell.triggered == (refill == cell.capacity)
                &&& new_cell.state.as_int() == refill
                &&& (forall|q: int|
                    0 <= q < PLAYER_COUNT ==> final(self).players_id_count@[q] as int == old(
                        self,
                    ).players_id_count@[q] + (if q == player.id {
                        refill
                    } else {
                        0
                    }) - (if len > 0 && cell.players@[0].id == q {
                        len
                    } else {
                        0
                    }))
                &&& final(self).players_id_count@[0] + final(self).players_id_count@[1] <= old(
                    self,
                ).players_id_count@[0] + old(self).players_id_count@[1] + 1
            }),
    {
        let idx = row * TABLE_COLUMNS + column;
        proof {
            lemma_grid_cell_at(*self, row as int, column as int);
        }
        let ghost old_cell = self.grid@[idx as int];
        let ghost cap = old_cell.capacity as int;
        let old_len = self.grid[idx].players.len();
        let new_len = old_len + 1;
        if new_len > 1 {
            let victim = self.grid[idx].players[0].get_id() as usize;
            proof {
                assert(old_cell.players@[0].id < PLAYER_COUNT);
                lemma_counts_in_range(*self, victim as int);
            }
            let decreased = self.players_id_count[victim] - old_len as i32;
            self.players_id_count.set(victim, decreased);
        }
        {
            let cell = &mut self.grid[idx];
            cell.players.clear();
            cell.state = ImageState::Default;
            cell.triggered = false;
        }
        proof {
            let cleared = self.grid@[idx as int];
            assert(self.grid@ =~= old(self).grid@.update(idx as int, cleared));
            assert(cleared.wf());
            assert forall|q: int|
                0 <= q < PLAYER_COUNT implies self.players_id_count@[q] == spec_total_owned(
                self.grid@,
                q,
            ) by {
                lemma_total_owned_update(old(self).grid@, idx as int, cleared, q);
            }
        }
        let ghost base_counts = self.players_id_count@;
        let mut i: usize = 0;
        while i < new_len
            invariant
                self.wf(),
                old(self).wf(),
                i <= new_len,
                row < TABLE_ROWS,
                column < TABLE_COLUMNS,
                player.id < PLAYER_COUNT,
                new_len <= 5,
                old_cell == old(self).grid@[spec_cell_index(row as int, column as int)],
                cap == old_cell.capacity as int,
                2 <= cap <= 4,
                idx == spec_cell_index(row as int, column as int),
                base_counts.len() == PLAYER_COUNT,
                forall|q: int|
                    0 <= q < PLAYER_COUNT ==> base_counts[q] as int == old(
                        self,
                    ).players_id_count@[q] - (if old_cell.players@.len() > 0
                        && old_cell.players@[0].id == q {
                        old_cell.players@.len() as int
                    } else {
                        0
                    }),
                self.grid@ == old(self).grid@.update(idx as int, self.grid@[idx as int]),
                ({
                    let fill = if i <= cap {
                        i as int
                    } else {
                        cap
                    };
                    let cell_now = self.grid@[idx as int];
                    &&& cell_now.players@.len() == fill
                    &&& (forall|k: int|
                        0 <= k < fill ==> spec_configured_marker(
                            #[trigger] cell_now.players@[k],
                            *player,
                            row as int,
                            column as int,
                            k,
                        ))
                    &&& cell_now.capacity == cap
                    &&& (forall|q: int|
                        0 <= q < PLAYER_COUNT ==> self.players_id_count@[q] as int
                            == base_counts[q] + (if q == player.id {
                            fill
                        } else {
                            0
                        }))
                }),
            decreases new_len - i,
        {
            let ghost pre_self = *self;
            let ghost pre_cell = self.grid@[idx as int];
            let ghost pre_counts = self.players_id_count@;
            proof {
                lemma_counts_in_range(pre_self, player.id as int);
            }
            self.change_cell_state(row, column, player);
            proof {
                let idxi = idx as int;
                let fill = if i as int <= cap {
                    i as int
                } else {
                    cap
                };
                if fill > 0 {
                    assert(spec_configured_marker(
                        pre_cell.players@[0],
                        *player,
                        row as int,
                        column as int,
                        0,
                    ));
                    assert(pre_cell.players@[0].id == player.id);
                }
                let cell_now = self.grid@[idxi];
                assert(self.grid@ =~= old(self).grid@.update(idxi, cell_now));
            }
            i += 1;
        }
    }

    /// Redistributes a firing cell's markers: every in-bounds orthogonal
    /// neighbour of (row, column) is cleared and refilled with the firing
    /// player's markers; no other cell changes.
    #[verifier::rlimit(100)]
    fn update_neighbours(&mut self, row: usize, column: usize, player: Player)
        requires
            old(self).wf(),
            row < TABLE_ROWS,
            column < TABLE_COLUMNS,
            player.id < PLAYER_COUNT,
        ensures
            final(self).wf(),
            ({
                let cells = old(self).grid@;
                let fcells = final(self).grid@;
                let r = row as int;
                let c = column as int;
                &&& fcells.len() == cells.len()
                &&& (r > 0 ==> spec_refilled_cell(
                    cells[spec_cell_index(r - 1, c)],
                    fcells[spec_cell_index(r - 1, c)],
                    player,
                    r - 1,
                    c,
                ))
                &&& (r < LAST_ROWCOL_INDEX ==> spec_refilled_cell(
                    cells[spec_cell_index(r + 1, c)],
                    fcells[spec_cell_index(r + 1, c)],
                    player,
                    r + 1,
                    c,
                ))
                &&& (c > 0 ==> spec_refilled_cell(
                    cells[spec_cell_index(r, c - 1)],
                    fcells[spec_cell_index(r, c - 1)],
                    player,
                    r,
                    c - 1,
                ))
                &&& (c < LAST_ROWCOL_INDEX ==> spec_refilled_cell(
                    cells[spec_cell_index(r, c + 1)],
                    fcells[spec_cell_index(r, c + 1)],
                    player,
                    r,
                    c + 1,
                ))
                &&& (forall|j: int|
                    0 <= j < cells.len() && !(r > 0 && j == spec_cell_index(r - 1, c)) && !(r
                        < LAST_ROWCOL_INDEX && j == spec_cell_index(r + 1, c)) && !(c > 0 && j
                        == spec_cell_index(r, c - 1)) && !(c < LAST_ROWCOL_INDEX && j
                        == spec_cell_index(r, c + 1)) ==> #[trigger] fcells[j] == cells[j])
                &&& final(self).players_id_count@[0] + final(self).players_id_count@[1] <= old(
                    self,
                ).players_id_count@[0] + old(self).players_id_count@[1] + spec_in_bounds_neighbours(
                    r,
                    c,
                )
            }),
    {
        let ghost r = row as int;
        let ghost c = column as int;
        let ghost g0 = *self;
        if row > 0 {
            self.clear_and_fill(row - 1, column, &player);
        }
        let ghost g1 = *self;
        proof {
            if r > 0 {
                assert(spec_refilled_cell(
                    g0.grid@[spec_cell_index(r - 1, c)],
                    g1.grid@[spec_cell_index(r - 1, c)],
                    player,
                    r - 1,
                    c,
                ));
            }
        }
        if row < LAST_ROWCOL_INDEX {
            self.clear_and_fill(row + 1, column, &player)
        }
        let ghost g2 = *self;
        proof {
            if r < LAST_ROWCOL_INDEX {
                assert(spec_refilled_cell(
                    g0.grid@[spec_cell_index(r + 1, c)],
                    g2.grid@[spec_cell_index(r + 1, c)],
                    player,
                    r + 1,
                    c,
                ));
            }
        }
        if column > 0 {
            self.clear_and_fill(row, column - 1, &player)
        }
        let ghost g3 = *self;
        proof {
            if c > 0 {
                assert(spec_refilled_cell(
                    g0.grid@[spec_cell_index(r, c - 1)],
                    g3.grid@[spec_cell_index(r, c - 1)],
                    player,
                    r,
                    c - 1,
                ));
            }
        }
        if column < LAST_ROWCOL_INDEX {
            self.clear_and_fill(row, column + 1, &player)
        }
        proof {
            if c < LAST_ROWCOL_INDEX {
                assert(spec_refilled_cell(
                    g3.grid@[spec_cell_index(r, c + 1)],
                    self.grid@[spec_cell_index(r, c + 1)],
                    player,
                    r,
                    c + 1,
                ));
            }
        }
    }

    /// Runs one frame tick: sweeps the cells in row-major order, advancing
    /// the firing animation of every fired cell.  A cell whose markers have
    /// all arrived settles and redistributes: its owner's count drops by the
    /// cell's capacity, its queue empties, and every in-bounds neighbour is
    /// cleared and refilled with the owner's markers — which can bring a
    /// neighbour to capacity and fire it in turn, later in this sweep or in
    /// a following one.  The grid invariant is preserved: the recorded
    /// counts stay equal to the live markers on the board, and every cell
    /// keeps a single owner.  The total number of markers on the board never
    /// grows: a redistribution moves markers and may discard overwritten
    /// ones, never duplicates them.  On a quiet frame — no fired cell about
    /// to settle — no queue and no count changes; fired cells only advance
    /// their markers one step.  When several cells settle in one sweep the
    /// outcome depends on the sweep position, a deliberate property of the
    /// game; the invariant and the conservation bound still hold.
    #[verifier::rlimit(100)]
    pub fn update(&mut self)
        requires
            old(self).wf(),
        ensures
            final(self).wf(),
            final(self).players_id_count@[0] + final(self).players_id_count@[1] <= old(
                self,
            ).players_id_count@[0] + old(self).players_id_count@[1],
            (forall|j: int|
                0 <= j < old(self).grid@.len() ==> !spec_would_settle(
                    #[trigger] old(self).grid@[j],
                )) ==> ({
                &&& final(self).players_id_count@ == old(self).players_id_count@
                &&& (forall|j: int|
                    0 <= j < old(self).grid@.len() ==> spec_cell_advanced(
                        old(self).grid@[j],
                        #[trigger] final(self).grid@[j],
                    ))
            }),
            forall|single: int|
                (0 <= single < old(self).grid@.len() && spec_would_settle(
                    #[trigger] old(self).grid@[single],
                ) && (forall|j: int|
                    0 <= j < old(self).grid@.len() && j != single ==> !spec_would_settle(
                        #[trigger] old(self).grid@[j],
                    ))) ==> spec_single_cascade(old(self).grid@, final(self).grid@, single),
    {
        let ghost quiet = forall|j: int|
            0 <= j < old(self).grid@.len() ==> !spec_would_settle(#[trigger] old(self).grid@[j]);
        let ghost some_settler = exists|j: int|
            0 <= j < old(self).grid@.len() && spec_would_settle(#[trigger] old(self).grid@[j]);
        let ghost s: int = if some_settler {
            choose|j: int|
                0 <= j < old(self).grid@.len() && spec_would_settle(#[trigger] old(self).grid@[j])
        } else {
            -1
        };
        let ghost unique = some_settler && (forall|j: int|
            0 <= j < old(self).grid@.len() && j != s ==> !spec_would_settle(
                #[trigger] old(self).grid@[j],
            ));
        let ghost sr: int = if some_settler {
            old(self).grid@[s].row as int
        } else {
            0
        };
        let ghost sc: int = if some_settler {
            old(self).grid@[s].column as int
        } else {
            0
        };
        let ghost owner: int = if some_settler {
            old(self).grid@[s].players@[0].id as int
        } else {
            0
        };
        let mut row: usize = 0;
        while row < TABLE_ROWS
            invariant
                self.wf(),
                old(self).wf(),
                row <= TABLE_ROWS,
                quiet == (forall|j: int|
                    0 <= j < old(self).grid@.len() ==> !spec_would_settle(
                        #[trigger] old(self).grid@[j],
                    )),
                self.players_id_count@[0] + self.players_id_count@[1] <= old(
                    self,
                ).players_id_count@[0] + old(self).players_id_count@[1],
                quiet ==> self.players_id_count@ == old(self).players_id_count@,
                quiet ==> (forall|j: int|
                    0 <= j < row * TABLE_COLUMNS ==> spec_cell_advanced(
                        old(self).grid@[j],
                        #[trigger] self.grid@[j],
                    )),
                quiet ==> (forall|j: int|
                    row * TABLE_COLUMNS <= j < old(self).grid@.len() ==> #[trigger] self.grid@[j]
                        == old(self).grid@[j]),
                unique == (some_settler && (forall|j: int|
                    0 <= j < old(self).grid@.len() && j != s ==> !spec_would_settle(
                        #[trigger] old(self).grid@[j],
                    ))),
                some_settler ==> (0 <= s < old(self).grid@.len() && spec_would_settle(
                    old(self).grid@[s],
                ) && sr == old(self).grid@[s].row as int && sc == old(self).grid@[s].column as int
                    && owner == old(self).grid@[s].players@[0].id as int),
                unique && row * TABLE_COLUMNS <= s ==> ({
                    &&& (forall|j: int|
                        0 <= j < row * TABLE_COLUMNS ==> spec_cell_advanced(
                            old(self).grid@[j],
                            #[trigger] self.grid@[j],
                        ))
                    &&& (forall|j: int|
                        row * TABLE_COLUMNS <= j < old(self).grid@.len()
                            ==> #[trigger] self.grid@[j] == old(self).grid@[j])
                }),
                unique && row * TABLE_COLUMNS > s ==> ({
                    let processed = row * TABLE_COLUMNS;
                    &&& self.grid@[s].players@.len() == 0
                    &&& (forall|j: int|
                        0 <= j < old(self).grid@.len() && j != s && !spec_is_neighbour(
                            sr,
                            sc,
                            (#[trigger] old(self).grid@[j]).row as int,
                            old(self).grid@[j].column as int,
                        ) ==> (j < processed ==> spec_cell_advanced(
                            old(self).grid@[j],
                            self.grid@[j],
                        )) && (j >= processed ==> self.grid@[j] == old(self).grid@[j]))
                    &&& (forall|j: int|
                        0 <= j < old(self).grid@.len() && j != s && spec_is_neighbour(
                            sr,
                            sc,
                            (#[trigger] old(self).grid@[j]).row as int,
                            old(self).grid@[j].column as int,
                        ) ==> spec_overwritten_cell(
                            old(self).grid@[j],
                            self.grid@[j],
                            owner,
                            old(self).grid@[j].row as int,
                            old(self).grid@[j].column as int,
                        ) && (j >= processed && self.grid@[j].players@.len() > 0
                            ==> spec_marker_progress(
                            self.grid@[j].players@[0],
                            old(self).grid@[j].row as int,
                            old(self).grid@[j].column as int,
                        ) == 0))
                }),
            decreases TABLE_ROWS - row,
        {
            let mut column: usize = 0;
            while column < TABLE_COLUMNS
                invariant
                    self.wf(),
                    old(self).wf(),
                    row < TABLE_ROWS,
                    column <= TABLE_COLUMNS,
                    quiet == (forall|j: int|
                        0 <= j < old(self).grid@.len() ==> !spec_would_settle(
                            #[trigger] old(self).grid@[j],
                        )),
                    self.players_id_count@[0] + self.players_id_count@[1] <= old(
                        self,
                    ).players_id_count@[0] + old(self).players_id_count@[1],
                    quiet ==> self.players_id_count@ == old(self).players_id_count@,
                    quiet ==> (forall|j: int|
                        0 <= j < row * TABLE_COLUMNS + column ==> spec_cell_advanced(
                            old(self).grid@[j],
                            #[trigger] self.grid@[j],
                        )),
                    quiet ==> (forall|j: int|
                        row * TABLE_COLUMNS + column <= j < old(self).grid@.len()
                            ==> #[trigger] self.grid@[j] == old(self).grid@[j]),
                    unique == (some_settler && (forall|j: int|
                        0 <= j < old(self).grid@.len() && j != s ==> !spec_would_settle(
                            #[trigger] old(self).grid@[j],
                        ))),
                    some_settler ==> (0 <= s < old(self).grid@.len() && spec_would_settle(
                        old(self).grid@[s],
                    ) && sr == old(self).grid@[s].row as int && sc == old(
                        self,
                    ).grid@[s].column as int && owner == old(self).grid@[s].players@[0].id as int),
                    unique && row * TABLE_COLUMNS + column <= s ==> ({
                        &&& (forall|j: int|
                            0 <= j < row * TABLE_COLUMNS + column ==> spec_cell_advanced(
                                old(self).grid@[j],
                                #[trigger] self.grid@[j],
                            ))
                        &&& (forall|j: int|
                            row * TABLE_COLUMNS + column <= j < old(self).grid@.len()
                                ==> #[trigger] self.grid@[j] == old(self).grid@[j])
                    }),
                    unique && row * TABLE_COLUMNS + column > s ==> ({
                        let processed = row * TABLE_COLUMNS + column;
                        &&& self.grid@[s].players@.len() == 0
                        &&& (forall|j: int|
                            0 <= j < old(self).grid@.len() && j != s && !spec_is_neighbour(
                                sr,
                                sc,
                                (#[trigger] old(self).grid@[j]).row as int,
                                old(self).grid@[j].column as int,
                            ) ==> (j < processed ==> spec_cell_advanced(
                                old(self).grid@[j],
                                self.grid@[j],
                            )) && (j >= processed ==> self.grid@[j] == old(self).grid@[j]))
                        &&& (forall|j: int|
                            0 <= j < old(self).grid@.len() && j != s && spec_is_neighbour(
                                sr,
                                sc,
                                (#[trigger] old(self).grid@[j]).row as int,
                                old(self).grid@[j].column as int,
                            ) ==> spec_overwritten_cell(
                                old(self).grid@[j],
                                self.grid@[j],
                                owner,
                                old(self).grid@[j].row as int,
                                old(self).grid@[j].column as int,
                            ) && (j >= processed && self.grid@[j].players@.len() > 0
                                ==> spec_marker_progress(
                                self.grid@[j].players@[0],
                                old(self).grid@[j].row as int,
                                old(self).grid@[j].column as int,
                            ) == 0))
                    }),
                decreases TABLE_COLUMNS - column,
            {
                let idx = row * TABLE_COLUMNS + column;
                proof {
                    lemma_grid_cell_at(*self, row as int, column as int);
                    lemma_grid_cell_at(*old(self), row as int, column as int);
                }
                let ghost pre_self = *self;
                let triggering = {
                    let cell = &mut self.grid[idx];
                    cell.has_triggered()
                };
                proof {
                    let idxi = idx as int;
                    let cell_now = self.grid@[idxi];
                    let pre_cell = pre_self.grid@[idxi];
                    assert(self.grid@ =~= pre_self.grid@.update(idxi, cell_now));
                    if pre_cell.players@.len() > 0 {
                        assert(cell_now.players@[0].id == pre_cell.players@[0].id);
                    }
                    assert forall|q: int|
                        0 <= q < PLAYER_COUNT implies self.players_id_count@[q]
                        == spec_total_owned(self.grid@, q) by {
                        lemma_total_owned_update(pre_self.grid@, idxi, cell_now, q);
                        assert(spec_owned_in_cell(cell_now, q) == spec_owned_in_cell(pre_cell, q));
                    }
                    if !triggering {
                        assert(cell_now.wf());
                    }
                    if quiet {
                        assert(pre_cell == old(self).grid@[idxi]);
                        if triggering {
                            // a settling cell contradicts a quiet frame
                            assert(spec_would_settle(pre_cell));
                            assert(false);
                        } else {
                            assert(spec_cell_advanced(old(self).grid@[idxi], cell_now));
                        }
                    }
                    if unique {
                        let jrow = old(self).grid@[idxi].row as int;
                        let jcol = old(self).grid@[idxi].column as int;
                        assert(jrow == row as int && jcol == column as int);
                        if idxi < s {
                            assert(pre_cell == old(self).grid@[idxi]);
                            if triggering {
                                assert(spec_would_settle(pre_cell));
                                assert(false);
                            } else {
                                assert(spec_cell_advanced(old(self).grid@[idxi], cell_now));
                            }
                        } else if idxi == s {
                            assert(pre_cell == old(self).grid@[idxi]);
                            assert(triggering);
                        } else {
                            if spec_is_neighbour(sr, sc, jrow, jcol) {
                                // a freshly refilled neighbour cannot settle yet
                                assert(pre_cell.wf());
                                if pre_cell.players@.len() > 0 {
                                    assert(spec_marker_progress(pre_cell.players@[0], jrow, jcol)
                                        == 0);
                                }
                                assert(!triggering);
                                assert(spec_overwritten_cell(
                                    old(self).grid@[idxi],
                                    cell_now,
                                    owner,
                                    jrow,
                                    jcol,
                                ));
                            } else {
                                assert(pre_cell == old(self).grid@[idxi]);
                                if triggering {
                                    assert(spec_would_settle(pre_cell));
                                    assert(false);
                                } else {
                                    assert(spec_cell_advanced(old(self).grid@[idxi], cell_now));
                                }
                            }
                            assert(self.grid@[s].players@.len() == 0);
                        }
                    }
                }
                if triggering {
                    let ghost settled_self = *self;
                    let ghost idxi = idx as int;
                    let ghost settled_cell = settled_self.grid@[idxi];
                    let player = self.grid[idx].players[0].clone();
                    let remove_players_count = get_neighbours_count(row, column);
                    let pid_us = player.get_id() as usize;
                    proof {
                        assert(pre_self.grid@[idxi].players@[0].id < PLAYER_COUNT);
                        assert forall|i: int|
                            0 <= i < settled_self.grid@.len() implies (#[trigger] settled_self
                            .grid@[i]).players@.len() <= 4 by {
                            if i != idxi {
                                assert(settled_self.grid@[i].wf());
                            }
                        }
                        lemma_total_owned_bound(settled_self.grid@, pid_us as int);
                        lemma_total_owned_nonnegative(settled_self.grid@, pid_us as int);
                    }
                    let decreased = self.players_id_count[pid_us] - remove_players_count as i32;
                    self.players_id_count.set(pid_us, decreased);
                    let ghost counts_after = self.players_id_count@;
                    let mut j: usize = 0;
                    while j < remove_players_count
                        invariant
                            j <= remove_players_count,
                            remove_players_count == settled_cell.players@.len(),
                            idxi == idx as int,
                            idx < settled_self.grid@.len(),
                            settled_cell == settled_self.grid@[idxi],
                            self.grid@.len() == settled_self.grid@.len(),
                            self.grid@ == settled_self.grid@.update(idxi, self.grid@[idxi]),
                            self.grid@[idxi].players@ == settled_cell.players@.skip(j as int),
                            self.grid@[idxi].row == settled_cell.row,
                            self.grid@[idxi].column == settled_cell.column,
                            self.grid@[idxi].state == settled_cell.state,
                            self.grid@[idxi].pos == settled_cell.pos,
                            self.grid@[idxi].image_dir@ == settled_cell.image_dir@,
                            self.grid@[idxi].capacity == settled_cell.capacity,
                            self.grid@[idxi].triggered == settled_cell.triggered,
                            self.players_id_count@ == counts_after,
                        decreases remove_players_count - j,
                    {
                        proof {
                            assert(settled_cell.players@.skip(j as int).remove(0) =~= settled_cell
                                .players@.skip(j as int + 1));
                        }
                        let cell = &mut self.grid[idx];
                        cell.players.remove(0);
                        j += 1;
                        proof {
                            assert(self.grid@ =~= settled_self.grid@.update(
                                idxi,
                                self.grid@[idxi],
                            ));
                        }
                    }
                    let len_now = self.grid[idx].players.len();
                    let new_state = ImageState::to_image_state(len_now as i32);
                    {
                        let cell = &mut self.grid[idx];
                        cell.state = new_state;
                    }
                    proof {
                        let cleared = self.grid@[idxi];
                        assert(self.grid@ =~= settled_self.grid@.update(idxi, cleared));
                        assert(settled_cell.players@.skip(
                            settled_cell.players@.len() as int,
                        ) =~= Seq::<Player>::empty());
                        assert(cleared.wf());
                        assert forall|q: int|
                            0 <= q < PLAYER_COUNT implies self.players_id_count@[q]
                            == spec_total_owned(self.grid@, q) by {
                            lemma_total_owned_update(settled_self.grid@, idxi, cleared, q);
                            assert(spec_owned_in_cell(cleared, q) == 0);
                        }
                        assert(self.wf());
                    }
                    let ghost precall_self = *self;
                    self.update_neighbours(row, column, player);
                    proof {
                        lemma_neighbours_count_is_in_bounds_neighbours(
                            row as int,
                            column as int,
                        );
                        if unique {
                            assert(idxi == s);
                            assert(player.id as int == owner);
                            let oldg = old(self).grid@;
                            let preg = precall_self.grid@;
                            let fing = self.grid@;
                            let r = row as int;
                            let c = column as int;
                            assert(fing[s].players@.len() == 0);
                            assert forall|j: int|
                                0 <= j < oldg.len() && j != s && spec_is_neighbour(
                                    sr,
                                    sc,
                                    (#[trigger] oldg[j]).row as int,
                                    oldg[j].column as int,
                                ) implies spec_overwritten_cell(
                                oldg[j],
                                fing[j],
                                owner,
                                oldg[j].row as int,
                                oldg[j].column as int,
                            ) && (fing[j].players@.len() > 0 ==> spec_marker_progress(
                                fing[j].players@[0],
                                oldg[j].row as int,
                                oldg[j].column as int,
                            ) == 0) by {
                                assert(oldg[j].wf());
                                let jr = oldg[j].row as int;
                                let jc = oldg[j].column as int;
                                assert(spec_cell_index(jr, jc) == j);
                                assert(preg[j].players@.len() == oldg[j].players@.len());
                                assert(preg[j].capacity == oldg[j].capacity);
                                assert(spec_refilled_cell(preg[j], fing[j], player, jr, jc));
                                assert(spec_refill_count(preg[j]) == spec_refill_count(oldg[j]));
                                if fing[j].players@.len() > 0 {
                                    assert(spec_configured_marker(
                                        fing[j].players@[0],
                                        player,
                                        jr,
                                        jc,
                                        0,
                                    ));
                                }
                            }
                            assert forall|j: int|
                                0 <= j < oldg.len() && j != s && !spec_is_neighbour(
                                    sr,
                                    sc,
                                    (#[trigger] oldg[j]).row as int,
                                    oldg[j].column as int,
                                ) implies (j < idxi + 1 ==> spec_cell_advanced(oldg[j], fing[j]))
                                && (j >= idxi + 1 ==> fing[j] == oldg[j]) by {
                                assert(oldg[j].wf());
                                let jr = oldg[j].row as int;
                                let jc = oldg[j].column as int;
                                assert(spec_cell_index(jr, jc) == j);
                                if r > 0 {
                                    assert(j != spec_cell_index(r - 1, c));
                                }
                                if r < LAST_ROWCOL_INDEX {
                                    assert(j != spec_cell_index(r + 1, c));
                                }
                                if c > 0 {
                                    assert(j != spec_cell_index(r, c - 1));
                                }
                                if c < LAST_ROWCOL_INDEX {
                                    assert(j != spec_cell_index(r, c + 1));
                                }
                                assert(fing[j] == preg[j]);
                            }
                        }
                    }
                }
                column += 1;
            }
            row += 1;
        }
        proof {
            assert forall|single: int|
                (0 <= single < old(self).grid@.len() && spec_would_settle(
                    old(self).grid@[single],
                ) && (forall|j: int|
                    0 <= j < old(self).grid@.len() && j != single ==> !spec_would_settle(
                        #[trigger] old(self).grid@[j],
                    ))) implies spec_single_cascade(old(self).grid@, self.grid@, single) by {
                assert(spec_would_settle(old(self).grid@[single]));
                assert(some_settler);
                assert(s == single);
                assert(unique);
            }
        }
    }

    /// The per-player counts of live markers on the board, indexed by player
    /// identifier.
    pub fn get_all_players(&self) -> (counts: &Vec<i32>)
        ensures
            counts@ == self.players_id_count@,
    {
        &self.players_id_count
    }

    /// The total number of live markers on the board, across all players.
    pub fn get_players_count(&self) -> (total: usize)
        requires
            self.wf(),
        ensures
            total as int == self.players_id_count@[0] + self.players_id_count@[1],
    {
        let mut total: usize = 0;
        let mut i: usize = 0;
        while i < self.players_id_count.len()
            invariant
                self.wf(),
                i <= self.players_id_count@.len(),
                total as int == (if i >= 1 {
                    self.players_id_count@[0] as int
                } else {
                    0
                }) + (if i >= 2 {
                    self.players_id_count@[1] as int
                } else {
                    0
                }),
                total <= 512,
            decreases self.players_id_count@.len() - i,
        {
            proof {
                lemma_counts_in_range(*self, 0);
                lemma_counts_in_range(*self, 1);
            }
            total += self.players_id_count[i] as usize;
            i += 1;
        }
        total
    }

    /// The markers currently queued in the cell at (row, column), exposed
    /// for drawing — each marker carries its position, rotation and owner —
    /// and for inspection.  A pure query; nothing is mutated.
    pub fn render_list(&self, row: usize, column: usize) -> (markers: &Vec<Player>)
        requires
            self.wf(),
            row < TABLE_ROWS,
            column < TABLE_COLUMNS,
        ensures
            markers@ == self.grid@[spec_cell_index(row as int, column as int)].players@,
    {
        &self.grid[row * TABLE_COLUMNS + column].players
    }
}

/// Ownership invariant: under the grid invariant, all markers queued in one
/// cell belong to one player.
pub proof fn lemma_single_owner_per_cell(g: Grid, row: int, column: int, i: int, j: int)
    requires
        g.wf(),
        0 <= row < TABLE_ROWS,
        0 <= column < TABLE_COLUMNS,
        0 <= i < g.grid@[spec_cell_index(row, column)].players@.len(),
        0 <= j < g.grid@[spec_cell_index(row, column)].players@.len(),
    ensures
        g.grid@[spec_cell_index(row, column)].players@[i].id == g.grid@[spec_cell_index(
            row,
            column,
        )].players@[j].id,
{
    lemma_grid_cell_at(g, row, column);
}

/// Conservation: under the grid invariant — which every grid operation
/// preserves — the recorded count of every player equals the number of
/// markers that player owns on the board, so moves and redistributions
/// neither duplicate markers nor lose them silently.
pub proof fn lemma_counts_match_board(g: Grid, id: int)
    requires
        g.wf(),
        0 <= id < PLAYER_COUNT,
    ensures
        g.players_id_count@[id] == spec_total_owned(g.grid@, id),
{
}

/// Elimination: a player whose recorded count has dropped to zero owns no
/// marker anywhere on the board, so the winner check reads a real wipe-out.
pub proof fn lemma_zero_count_means_eliminated(g: Grid, id: int, idx: int, k: int)
    requires
        g.wf(),
        0 <= id < PLAYER_COUNT,
        g.players_id_count@[id] == 0,
        0 <= idx < g.grid@.len(),
        0 <= k < g.grid@[idx].players@.len(),
    ensures
        g.grid@[idx].players@[k].id != id,
{
    let cell = g.grid@[idx];
    assert(cell.wf());
    lemma_total_owned_at_least_cell(g.grid@, idx, id);
    assert(spec_owned_in_cell(cell, id) == 0);
    assert(cell.players@[k].id == cell.players@[0].id);
}

} // verus!
