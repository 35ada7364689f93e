use bee_battle::entities::{Player, Pos};
use bee_battle::grid::Grid;

// A player may keep filling a cell they own until it reaches its firing
// capacity; the move after that is rejected, as is any move on a cell owned
// by the opponent.
#[test]
fn test_moves_accepted_until_capacity() {
    let mut grid = Grid::create();
    let p0 = Player::new(0);
    let p1 = Player::new(1);

    // interior cell: capacity four
    assert!(grid.change_cell_state(3, 3, &p0));
    assert!(!grid.change_cell_state(3, 3, &p1));
    assert!(grid.change_cell_state(3, 3, &p0));
    assert!(grid.change_cell_state(3, 3, &p0));
    assert!(grid.change_cell_state(3, 3, &p0));
    assert!(!grid.change_cell_state(3, 3, &p0));
    assert_eq!(grid.render_list(3, 3).len(), 4);

    // corner cell: capacity two
    assert!(grid.change_cell_state(0, 0, &p0));
    assert!(grid.change_cell_state(0, 0, &p0));
    assert!(!grid.change_cell_state(0, 0, &p0));
    assert_eq!(grid.render_list(0, 0).len(), 2);
}

// A rejected move mutates nothing.
#[test]
fn test_rejected_move_changes_nothing() {
    let mut grid = Grid::create();
    let p0 = Player::new(0);
    let p1 = Player::new(1);
    assert!(grid.change_cell_state(2, 2, &p0));
    assert_eq!(grid.get_all_players(), &vec![1, 0]);
    assert!(!grid.change_cell_state(2, 2, &p1));
    assert_eq!(grid.get_all_players(), &vec![1, 0]);
    assert_eq!(grid.render_list(2, 2).len(), 1);
    assert_eq!(grid.render_list(2, 2)[0].get_id(), 0);
}

// Markers queued in a cell sit at its centre with the direction table's
// rotations, and start moving once the cell fires.
#[test]
fn test_marker_placement_and_motion() {
    let mut grid = Grid::create();
    let p0 = Player::new(0);
    assert!(grid.change_cell_state(0, 0, &p0));

    // the centre of the corner cell, in half-units: (2 * 10 + 75, 2 * 10 + 75)
    assert_eq!(grid.render_list(0, 0)[0].get_position(), Pos { x: 95, y: 95 });
    // the corner's first ejection direction is DOWN: 3.14 in hundredths
    assert_eq!(grid.render_list(0, 0)[0].get_rotation(), 314);

    grid.update();
    // nothing moves before the cell fires
    assert_eq!(grid.render_list(0, 0)[0].get_position(), Pos { x: 95, y: 95 });

    // the second move fires the corner; each frame moves the markers three
    // half-units: the first marker DOWN, the second LEFT (1.57 hundredths)
    assert!(grid.change_cell_state(0, 0, &p0));
    assert_eq!(grid.render_list(0, 0)[1].get_rotation(), 157);
    grid.update();
    assert_eq!(grid.render_list(0, 0)[0].get_position(), Pos { x: 95, y: 98 });
    assert_eq!(grid.render_list(0, 0)[1].get_position(), Pos { x: 92, y: 95 });
}

// The end-to-end corner cascade: two moves on an empty 8x8 grid's corner
// fill it to its capacity of two and fire it; a third move is rejected.
// Running the frame update until the markers arrive empties the corner and
// hands exactly one marker to each of its two in-bounds neighbours.
#[test]
fn test_corner_cascade() {
    let mut grid = Grid::create();
    let p0 = Player::new(0);

    assert!(grid.change_cell_state(0, 0, &p0));
    assert!(grid.change_cell_state(0, 0, &p0));
    assert!(!grid.change_cell_state(0, 0, &p0));
    assert_eq!(grid.get_all_players(), &vec![2, 0]);

    let mut frames: usize = 0;
    while grid.render_list(0, 0).len() > 0 && frames < 200 {
        grid.update();
        frames += 1;
    }

    assert_eq!(grid.render_list(0, 0).len(), 0);
    assert_eq!(grid.render_list(1, 0).len(), 1);
    assert_eq!(grid.render_list(0, 1).len(), 1);
    assert_eq!(grid.render_list(1, 0)[0].get_id(), 0);
    assert_eq!(grid.render_list(0, 1)[0].get_id(), 0);
    // conservation: two markers left the corner, one arrived per neighbour
    assert_eq!(grid.get_all_players(), &vec![2, 0]);
    assert_eq!(grid.get_players_count(), 2);
}

// Conservation with an overwrite: when a firing cell's wave hits a cell the
// opponent holds, the opponent's markers there are discarded and replaced by
// one more of the firing player's.
#[test]
fn test_cascade_overwrites_opponent() {
    let mut grid = Grid::create();
    let p0 = Player::new(0);
    let p1 = Player::new(1);

    assert!(grid.change_cell_state(0, 1, &p1));
    assert!(grid.change_cell_state(0, 0, &p0));
    assert!(grid.change_cell_state(0, 0, &p0));
    assert_eq!(grid.get_all_players(), &vec![2, 1]);

    let mut frames: usize = 0;
    while grid.render_list(0, 0).len() > 0 && frames < 200 {
        grid.update();
        frames += 1;
    }

    // the corner fired: (1, 0) received one marker, and at (0, 1) the
    // opponent's single marker was replaced by two of the firing player's
    assert_eq!(grid.render_list(1, 0).len(), 1);
    assert_eq!(grid.render_list(0, 1).len(), 2);
    assert_eq!(grid.render_list(0, 1)[0].get_id(), 0);
    assert_eq!(grid.get_all_players(), &vec![3, 0]);
}

// A frame tick with no cell fired changes neither queues nor counts.
#[test]
fn test_quiet_frame_changes_nothing() {
    let mut grid = Grid::create();
    let p0 = Player::new(0);
    let p1 = Player::new(1);
    assert!(grid.change_cell_state(3, 3, &p0));
    assert!(grid.change_cell_state(5, 5, &p1));
    for _frame in 0..3 {
        grid.update();
    }
    assert_eq!(grid.render_list(3, 3).len(), 1);
    assert_eq!(grid.render_list(5, 5).len(), 1);
    // the markers still sit at their cells' centres
    assert_eq!(grid.render_list(3, 3)[0].get_position(), Pos { x: 545, y: 545 });
    assert_eq!(grid.render_list(5, 5)[0].get_position(), Pos { x: 845, y: 845 });
    assert_eq!(grid.get_all_players(), &vec![1, 1]);
}

// A cascade chains: a neighbour brought to its own capacity fires in turn.
#[test]
fn test_chained_cascade() {
    let mut grid = Grid::create();
    let p0 = Player::new(0);

    // fill the border cell (0, 1) to one below its capacity of three
    assert!(grid.change_cell_state(0, 1, &p0));
    assert!(grid.change_cell_state(0, 1, &p0));
    // fire the corner
    assert!(grid.change_cell_state(0, 0, &p0));
    assert!(grid.change_cell_state(0, 0, &p0));

    // first cascade: the corner empties, (0, 1) reaches three and fires
    let mut frames: usize = 0;
    while grid.render_list(0, 0).len() > 0 && frames < 200 {
        grid.update();
        frames += 1;
    }
    assert_eq!(grid.render_list(0, 1).len(), 3);

    // second cascade: (0, 1) empties into its three neighbours
    frames = 0;
    while grid.render_list(0, 1).len() > 0 && frames < 200 {
        grid.update();
        frames += 1;
    }
    assert_eq!(grid.render_list(0, 1).len(), 0);
    assert_eq!(grid.render_list(0, 0).len(), 1);
    assert_eq!(grid.render_list(0, 2).len(), 1);
    assert_eq!(grid.render_list(1, 1).len(), 1);
}
