use bee_battle::entities::{Direction, Pos};
use bee_battle::game_constants;
use bee_battle::helper::{approximately_eq, get_image_dir, get_neighbours_count};
use bee_battle::mapper::{
    from_direction_to_go_pos, from_direction_to_rotation, pos_to_row_col, row_col_to_pos,
};

// Corner cells have two neighbours.
#[test]
fn test_get_neighbours_count() {
    assert_eq!(get_neighbours_count(0, 0), 2);
    assert_eq!(get_neighbours_count(0, game_constants::LAST_ROWCOL_INDEX), 2);
    assert_eq!(get_neighbours_count(game_constants::LAST_ROWCOL_INDEX, 0), 2);
    assert_eq!(
        get_neighbours_count(
            game_constants::LAST_ROWCOL_INDEX,
            game_constants::LAST_ROWCOL_INDEX
        ),
        2
    );
}

// Border cells have three neighbours and interior cells four.
#[test]
fn test_neighbours_count_border_and_interior() {
    assert_eq!(get_neighbours_count(0, 3), 3);
    assert_eq!(get_neighbours_count(3, 0), 3);
    assert_eq!(get_neighbours_count(7, 4), 3);
    assert_eq!(get_neighbours_count(3, 3), 4);
    assert_eq!(get_neighbours_count(1, 6), 4);
}

// The rotation table, read back in radians, is the fixed lookup.
#[test]
fn test_from_direction_to_rotation() {
    assert_eq!(from_direction_to_rotation(&Direction::LEFT) as f32 / 100.0, 1.57);
    assert_eq!(from_direction_to_rotation(&Direction::UP) as f32 / 100.0, 0.0);
    assert_eq!(from_direction_to_rotation(&Direction::RIGHT) as f32 / 100.0, 4.71);
    assert_eq!(from_direction_to_rotation(&Direction::DOWN) as f32 / 100.0, 3.14);
}

// The four directions map to four distinct rotations.
#[test]
fn test_rotation_values_distinct() {
    let rotations = [
        from_direction_to_rotation(&Direction::UP),
        from_direction_to_rotation(&Direction::LEFT),
        from_direction_to_rotation(&Direction::DOWN),
        from_direction_to_rotation(&Direction::RIGHT),
    ];
    for i in 0..4 {
        for j in 0..4 {
            if i != j {
                assert_ne!(rotations[i], rotations[j]);
            }
        }
    }
}

// Moving one cell in each direction from (120, 120) with a 75-unit cell.
#[test]
fn test_from_direction_to_go_pos() {
    let pos = Pos { x: 120, y: 120 };

    assert_eq!(from_direction_to_go_pos(&Direction::LEFT, pos), Pos { x: 45, y: 120 });
    assert_eq!(from_direction_to_go_pos(&Direction::RIGHT, pos), Pos { x: 195, y: 120 });
    assert_eq!(from_direction_to_go_pos(&Direction::UP, pos), Pos { x: 120, y: 45 });
    assert_eq!(from_direction_to_go_pos(&Direction::DOWN, pos), Pos { x: 120, y: 195 });
}

// Applying the opposite direction returns to the original position.
#[test]
fn test_go_pos_round_trip() {
    let pos = Pos { x: 120, y: 120 };
    let down = from_direction_to_go_pos(&Direction::DOWN, pos);
    assert_eq!(from_direction_to_go_pos(&Direction::UP, down), pos);
    let left = from_direction_to_go_pos(&Direction::LEFT, pos);
    assert_eq!(from_direction_to_go_pos(&Direction::RIGHT, left), pos);
}

// Pixel positions convert to grid indices by margin subtraction and
// truncating division, and cell corners convert back.
#[test]
fn test_pos_row_col_conversions() {
    assert_eq!(pos_to_row_col(120, 300), (1, 3));
    assert_eq!(pos_to_row_col(10, 10), (0, 0));
    assert_eq!(pos_to_row_col(84, 609), (0, 7));
    assert_eq!(row_col_to_pos(5, 2), (385, 160));
    assert_eq!(pos_to_row_col(385, 160), (5, 2));
}

// The ejection tables of a corner, a border cell and an interior cell.
#[test]
fn test_get_image_dir_tables() {
    assert_eq!(
        get_image_dir(0, 0),
        vec![Direction::DOWN, Direction::LEFT, Direction::RIGHT, Direction::UP]
    );
    assert_eq!(
        get_image_dir(3, 3),
        vec![Direction::DOWN, Direction::RIGHT, Direction::UP, Direction::LEFT]
    );
    assert_eq!(
        get_image_dir(0, 3),
        vec![Direction::UP, Direction::LEFT, Direction::DOWN, Direction::RIGHT]
    );
    assert_eq!(
        get_image_dir(7, 7),
        vec![Direction::UP, Direction::RIGHT, Direction::DOWN, Direction::LEFT]
    );
    assert_eq!(
        get_image_dir(3, 7),
        vec![Direction::UP, Direction::LEFT, Direction::RIGHT, Direction::DOWN]
    );
    assert_eq!(
        get_image_dir(7, 0),
        vec![Direction::DOWN, Direction::RIGHT, Direction::UP, Direction::LEFT]
    );
    assert_eq!(
        get_image_dir(7, 3),
        vec![Direction::UP, Direction::RIGHT, Direction::DOWN, Direction::LEFT]
    );
}

// Approximate equality is strict at the boundary.
#[test]
fn test_approximately_eq() {
    assert!(approximately_eq(5, 5, 1));
    assert!(!approximately_eq(6, 5, 1));
    assert!(!approximately_eq(4, 5, 1));
    assert!(approximately_eq(4, 5, 2));
    assert!(approximately_eq(-3, -4, 2));
}
