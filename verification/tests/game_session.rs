use bee_battle::game::{GameConfiguration, GameState};

// A fresh session sits on the main menu with an empty board; starting the
// game switches to play.
#[test]
fn test_new_session_and_start() {
    let mut game = GameConfiguration::new();
    assert!(matches!(game.game_state, GameState::MainMenu));
    assert_eq!(game.winner, 0);
    assert_eq!(game.turn, 0);
    assert_eq!(game.grid.get_players_count(), 0);
    game.start_game();
    assert!(matches!(game.game_state, GameState::InGame));
}

// A successful move passes the turn to the other player; a rejected move
// keeps it.
#[test]
fn test_turn_advances_on_success_only() {
    let mut game = GameConfiguration::new();
    game.start_game();
    assert!(game.click_cell(4, 4));
    assert_eq!(game.turn, 1);
    // the cell just filled belongs to player zero: player one is rejected
    assert!(!game.click_cell(4, 4));
    assert_eq!(game.turn, 1);
    assert!(game.click_cell(5, 5));
    assert_eq!(game.turn, 0);
}

// With at most one marker on the board nobody has won yet, even though the
// other player's count is zero.
#[test]
fn test_no_winner_on_first_move() {
    let mut game = GameConfiguration::new();
    game.start_game();
    assert!(game.click_cell(2, 2));
    game.update();
    assert_eq!(game.winner, 0);
    assert!(matches!(game.game_state, GameState::InGame));
}

// The win scenario: player one twice fills the corner while player two
// puts one marker next to it; the corner fires and its wave wipes player
// two's only marker, so player one is declared the winner and the session
// moves to the end screen.
#[test]
fn test_win_after_cascade() {
    let mut game = GameConfiguration::new();
    game.start_game();

    assert!(game.click_cell(0, 0));  // player zero
    assert!(game.click_cell(0, 1));  // player one
    assert!(game.click_cell(0, 0));  // player zero: the corner fires

    let mut frames: usize = 0;
    while game.winner == 0 && frames < 300 {
        game.update();
        frames += 1;
    }

    assert_eq!(game.winner, 1);
    assert!(matches!(game.game_state, GameState::EndGame));
    assert_eq!(game.grid.get_all_players(), &vec![3, 0]);
}
