use bee_battle::entities::{Direction, Player, Pos};
use bee_battle::grid::ImageState;

// The identifier handed to the factory is kept, and never changes through
// the setters.
#[test]
fn test_player_identity_is_stable() {
    let mut player = Player::new(3);
    assert_eq!(player.get_id(), 3);
    assert_eq!(player.get_position(), Pos { x: 0, y: 0 });
    assert_eq!(player.get_rotation(), 0);
    player.set_pos(Pos { x: 95, y: 95 });
    player.set_rotation(314);
    player.set_speed(3);
    player.set_dir(Direction::DOWN);
    player.set_go_to_pos(Pos { x: 95, y: 245 });
    assert_eq!(player.get_id(), 3);
    assert_eq!(player.get_position(), Pos { x: 95, y: 95 });
    assert_eq!(player.get_rotation(), 314);
}

// A marker moves by its speed along its direction each step, and stops with
// the flag cleared once it is within a unit of its target on both axes.
#[test]
fn test_player_update_moves_and_arrives() {
    let mut player = Player::new(0);
    player.set_pos(Pos { x: 95, y: 95 });
    player.set_dir(Direction::DOWN);
    player.set_go_to_pos(Pos { x: 95, y: 245 });
    player.set_speed(3);

    let mut triggered = true;
    player.update(&mut triggered);
    assert_eq!(player.get_position(), Pos { x: 95, y: 98 });
    assert!(triggered);

    for _step in 0..48 {
        player.update(&mut triggered);
    }
    assert_eq!(player.get_position(), Pos { x: 95, y: 242 });
    assert!(triggered);

    player.update(&mut triggered);
    assert_eq!(player.get_position(), Pos { x: 95, y: 245 });
    assert!(!triggered);
}

// Each direction moves along its own axis with the documented sign.
#[test]
fn test_player_update_directions() {
    for (dir, expected) in [
        (Direction::LEFT, Pos { x: -3, y: 0 }),
        (Direction::RIGHT, Pos { x: 3, y: 0 }),
        (Direction::UP, Pos { x: 0, y: -3 }),
        (Direction::DOWN, Pos { x: 0, y: 3 }),
    ] {
        let mut player = Player::new(0);
        player.set_dir(dir);
        player.set_speed(3);
        player.set_go_to_pos(Pos { x: 150, y: 150 });
        let mut triggered = true;
        player.update(&mut triggered);
        assert_eq!(player.get_position(), expected);
        assert!(triggered);
    }
}

// The occupancy states convert to and from integers and advance in
// sequence, saturating at the last state.
#[test]
fn test_image_state_conversions() {
    assert_eq!(ImageState::Default.to_int(), 0);
    assert_eq!(ImageState::First.to_int(), 1);
    assert_eq!(ImageState::Second.to_int(), 2);
    assert_eq!(ImageState::Third.to_int(), 3);
    assert_eq!(ImageState::Fourth.to_int(), 4);
    for value in 0..5 {
        assert_eq!(ImageState::to_image_state(value).to_int() as i32, value);
    }
    assert_eq!(ImageState::to_image_state(7).to_int(), 0);
    assert_eq!(ImageState::to_image_state(-3).to_int(), 0);
    assert_eq!(ImageState::Default.next().to_int(), 1);
    assert_eq!(ImageState::Third.next().to_int(), 4);
    assert_eq!(ImageState::Fourth.next().to_int(), 4);
}
