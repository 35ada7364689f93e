use vstd::prelude::*;

use crate::entities::Player;
use crate::game_constants::{PLAYER_COUNT, TABLE_COLUMNS, TABLE_ROWS};
use crate::grid::{
    lemma_counts_in_range, spec_cell_advanced, spec_cell_index, spec_configured_marker,
    spec_single_cascade, spec_would_settle, Grid,
};

verus! {

/// The screens a game session can be on.
#[derive(Clone, Copy, Debug, PartialEq, Eq, Structural)]
pub enum GameState {
    /// The main menu screen.
    MainMenu,
    /// A game is being played.
    InGame,
    /// The game has ended and a winner is shown.
    EndGame,
}

/// What `winner_check` records: with more than one marker on the board, a
/// player whose marker count has dropped to zero loses and the other
/// player's one-based number is recorded; otherwise the record is unchanged.
pub open spec fn spec_winner(counts: Seq<i32>, previous: int) -> int {
    if counts[0] + counts[1] > 1 {
        if counts[0] == 0 {
            2
        } else if counts[1] == 0 {
            1
        } else {
            previous
        }
    } else {
        previous
    }
}

/// A game session: the grid, whose turn it is, the per-player marker
/// templates, the current screen, and the winner — zero while nobody has
/// won, otherwise the winning player's one-based number.
pub struct GameConfiguration {
    /// The game grid where the gameplay takes place.
    pub grid: Grid,
    /// The index of the player whose turn it is.
    pub turn: usize,
    /// One marker template per player, holding that player's identifier.
    pub players: Vec<Player>,
    /// The current screen.
    pub game_state: GameState,
    /// The player number of the winner, zero if no winner yet.
    pub winner: i32,
}

impl GameConfiguration {
    /// The session invariant: the grid invariant holds, it is a known
    /// player's turn, and there is one marker template per player carrying
    /// that player's identifier.
    pub open spec fn wf(self) -> bool {
        &&& self.grid.wf()
        &&& self.turn < PLAYER_COUNT
        &&& self.players@.len() == PLAYER_COUNT
        &&& forall|i: int| 0 <= i < PLAYER_COUNT ==> (#[trigger] self.players@[i]).id == i
    }

    /// Creates a new session on the main menu: an empty grid and two
    /// players, with identifiers zero and one, player zero to move first.
    pub fn new() -> (game: GameConfiguration)
        ensures
            game.wf(),
            game.turn == 0,
            game.winner == 0,
            game.game_state == GameState::MainMenu,
            game.grid.players_id_count@ == seq![0i32, 0i32],
            forall|idx: int|
                0 <= idx < game.grid.grid@.len() ==> (#[trigger] game.grid.grid@[idx]).players@.len()
                    == 0,
    {
        let grid = Grid::create();
        let mut players: Vec<Player> = Vec::new();
        players.push(Player::new(0));
        players.push(Player::new(1));
        GameConfiguration { grid, turn: 0, players, game_state: GameState::MainMenu, winner: 0 }
    }

    /// Leaves the menu or the end screen and starts play, as a click on the
    /// start button does.
    pub fn start_game(&mut self)
        ensures
            *final(self) == (GameConfiguration { game_state: GameState::InGame, ..*old(self) }),
    {
        self.game_state = GameState::InGame;
    }

    /// Examines the board and records a winner if there is one: with more
    /// than one marker on the board, a player whose aggregate marker count
    /// has dropped to zero — possible only after at least one firing — loses,
    /// and the other player's number is recorded.
    pub fn winner_check(&mut self)
        requires
            old(self).wf(),
        ensures
            final(self).wf(),
            final(self).grid == old(self).grid,
            final(self).turn == old(self).turn,
            final(self).players == old(self).players,
            final(self).game_state == old(self).game_state,
            final(self).winner == spec_winner(
                old(self).grid.players_id_count@,
                old(self).winner as int,
            ),
    {
        proof {
            lemma_counts_in_range(self.grid, 0);
            lemma_counts_in_range(self.grid, 1);
        }
        let total = self.grid.get_players_count();
        if total > 1 {
            let first: i32;
            let second: i32;
            {
                let counts = self.grid.get_all_players();
                first = counts[0];
                second = counts[1];
            }
            if first == 0 {
                self.winner = 2;
            } else if second == 0 {
                self.winner = 1;
            }
        }
    }

    /// Runs one frame: advances the grid one tick, then checks for a
    /// winner; once a winner is recorded the session moves to the end
    /// screen.
    pub fn update(&mut self)
        requires
            old(self).wf(),
        ensures
            final(self).wf(),
            final(self).turn == old(self).turn,
            final(self).players == old(self).players,
            final(self).grid.players_id_count@[0] + final(self).grid.players_id_count@[1] <= old(
                self,
            ).grid.players_id_count@[0] + old(self).grid.players_id_count@[1],
            final(self).winner == spec_winner(
                final(self).grid.players_id_count@,
                old(self).winner as int,
            ),
            final(self).game_state == (if final(self).winner != 0 {
                GameState::EndGame
            } else {
                old(self).game_state
            }),
            (forall|j: int|
                0 <= j < old(self).grid.grid@.len() ==> !spec_would_settle(
                    #[trigger] old(self).grid.grid@[j],
                )) ==> ({
                &&& final(self).grid.players_id_count@ == old(self).grid.players_id_count@
                &&& (forall|j: int|
                    0 <= j < old(self).grid.grid@.len() ==> spec_cell_advanced(
                        old(self).grid.grid@[j],
                        #[trigger] final(self).grid.grid@[j],
                    ))
            }),
            forall|single: int|
                (0 <= single < old(self).grid.grid@.len() && spec_would_settle(
                    #[trigger] old(self).grid.grid@[single],
                ) && (forall|j: int|
                    0 <= j < old(self).grid.grid@.len() && j != single ==> !spec_would_settle(
                        #[trigger] old(self).grid.grid@[j],
                    ))) ==> spec_single_cascade(
                    old(self).grid.grid@,
                    final(self).grid.grid@,
                    single,
                ),
    {
        self.grid.update();
        self.winner_check();
        if self.winner != 0 {
            self.game_state = GameState::EndGame;
        }
    }

    /// Applies the current player's move to the cell at (row, column), as a
    /// click inside the playable area does while a game is running.  The
    /// move succeeds if and only if the cell is below its firing capacity
    /// and is empty or already owned by the mover; on success the mover
    /// gains a marker and the turn passes to the other player, and a
    /// rejected move changes nothing.
    pub fn click_cell(&mut self, row: usize, column: usize) -> (success: bool)
        requires
            old(self).wf(),
            old(self).game_state == GameState::InGame,
            row < TABLE_ROWS,
            column < TABLE_COLUMNS,
        ensures
            final(self).wf(),
            final(self).game_state == old(self).game_state,
            final(self).winner == old(self).winner,
            final(self).players == old(self).players,
            ({
                let idx = spec_cell_index(row as int, column as int);
                let cell = old(self).grid.grid@[idx];
                let len = cell.players@.len() as int;
                let mover = old(self).players@[old(self).turn as int];
                &&& success == (len < cell.capacity && (len == 0 || cell.players@[0].id
                    == mover.id))
                &&& final(self).turn == (if success {
                    (old(self).turn + 1) % (PLAYER_COUNT as int)
                } else {
                    old(self).turn as int
                })
                &&& !success ==> final(self).grid.grid@ == old(self).grid.grid@
                    && final(self).grid.players_id_count@ == old(self).grid.players_id_count@
                &&& success ==> {
                    let new_cell = final(self).grid.grid@[idx];
                    &&& final(self).grid.grid@ == old(self).grid.grid@.update(idx, new_cell)
                    &&& new_cell.players@.len() == len + 1
                    &&& (forall|i: int|
                        0 <= i < len ==> #[trigger] new_cell.players@[i] == cell.players@[i])
                    &&& spec_configured_marker(
                        new_cell.players@[len],
                        mover,
                        row as int,
                        column as int,
                        len,
                    )
                    &&& new_cell.triggered == (len + 1 == cell.capacity)
                    &&& final(self).grid.players_id_count@[mover.id as int] as int
                        == old(self).grid.players_id_count@[mover.id as int] + 1
                }
            }),
    {
        proof {
            lemma_counts_in_range(self.grid, self.players@[self.turn as int].id as int);
        }
        let mover = self.players[self.turn].clone();
        let success = self.grid.change_cell_state(row, column, &mover);
        if success {
            self.turn = (self.turn + 1) % PLAYER_COUNT;
        }
        success
    }
}

} // verus!
