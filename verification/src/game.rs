//! One game from the first move to the last: whose turn it is and what a
//! player's choice does to the board.

use vstd::prelude::*;
use crate::mark::Mark;
use crate::board::{Board, GameState, Grid};
use crate::board::{empty_grid, grid_state, is_open, place};

verus! {

/// What became of one turn.
#[derive(Debug, PartialEq, Eq, Structural, Clone, Copy)]
pub enum Turn {
    /// The player to move gave the game up.
    Surrendered,
    /// The player to move named a cell that cannot be played.
    Banned,
    /// The mark was placed and the other player is to move.
    Played,
}

/// A board and the side that moves next on it.
pub struct Game {
    board: Board,
    to_move: Mark,
}

impl Game {
    /// The marks on the board.
    pub closed spec fn grid(&self) -> Grid {
        self.board@
    }

    /// The side to move.
    pub closed spec fn side(&self) -> Mark {
        self.to_move
    }

    /// An empty board with `X` to move.
    pub fn new() -> (game: Game)
        ensures
            game.grid() == empty_grid(),
            game.side() == Mark::X,
    {
        Game { board: Board::new(), to_move: Mark::X }
    }

    /// The board as it stands.
    pub fn board(&self) -> (board: &Board)
        ensures
            board@ == self.grid(),
    {
        &self.board
    }

    /// The side to move.
    pub fn to_move(&self) -> (side: Mark)
        ensures
            side == self.side(),
    {
        self.to_move
    }

    /// Whether the game goes on, and how it ended if it does not.
    pub fn state(&self) -> (state: GameState)
        ensures
            state == grid_state(self.grid()),
    {
        self.board.get_state()
    }

    /// Takes the choice of the player to move. `None` is a surrender; a cell
    /// that is off the board or taken gets the player banned; in both cases
    /// nothing changes. Any other cell receives the player's mark, and the
    /// turn passes to the opponent.
    pub fn play(&mut self, choice: Option<(usize, usize)>) -> (turn: Turn)
        ensures
            match choice {
                None => turn is Surrendered && *final(self) == *old(self),
                Some((x, y)) => if is_open(old(self).grid(), x as int, y as int) {
                    &&& turn is Played
                    &&& final(self).grid() == place(
                        old(self).grid(),
                        x as int,
                        y as int,
                        old(self).side(),
                    )
                    &&& final(self).side() == old(self).side().opponent()
                } else {
                    turn is Banned && *final(self) == *old(self)
                },
            },
    {
        match choice {
            None => Turn::Surrendered,
            Some((x, y)) => {
                if self.board.make_turn_checked(x, y, self.to_move) {
                    self.to_move = self.to_move.opponent();
                    Turn::Played
                } else {
                    Turn::Banned
                }
            },
        }
    }
}

} // verus!
