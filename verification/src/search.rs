//! Exhaustive search for the best move, and the player that uses it.

use vstd::prelude::*;
use crate::mark::Mark;
use crate::board::{Board, GameState, Grid, BOARD_SIZE};
use crate::board::{grid_state, is_open, place, vacancies, well_formed};
use crate::board::{lemma_place_back, lemma_place_vacancies};
use crate::player::Player;

verus! {

/// What the side about to move can force.
#[derive(Debug, PartialEq, Eq, Structural, Clone, Copy)]
pub enum GameOutcome {
    Winning,
    Losing,
    Draw,
}

/// 1 for the side that places no mark, 0 for a player.
pub open spec fn idle(side: Mark) -> nat {
    if side is Empty {
        1
    } else {
        0
    }
}

/// What `side` gets by playing the open cell `(row, col)`: a win if the move
/// completes a line of its own or leaves the opponent in a lost position, a
/// draw if it fills the board without a winner or leaves the opponent with no
/// better than a draw, and a loss otherwise.
pub open spec fn move_outcome(grid: Grid, side: Mark, row: int, col: int) -> GameOutcome
    decreases vacancies(grid), idle(side), 0nat,
    when well_formed(grid) && is_open(grid, row, col)
{
    let next = place(grid, row, col, side);
    match grid_state(next) {
        GameState::Winner(winner) => if winner == side {
            GameOutcome::Winning
        } else {
            GameOutcome::Losing
        },
        GameState::Draw => GameOutcome::Draw,
        GameState::Ongoing => match forced_outcome(next, side.opponent()) {
            GameOutcome::Losing => GameOutcome::Winning,
            GameOutcome::Draw => GameOutcome::Draw,
            GameOutcome::Winning => GameOutcome::Losing,
        },
    }
}

/// What `side` can force when it is to move on `grid`: a win if some move
/// wins, else a draw if some move draws, else a loss.
pub open spec fn forced_outcome(grid: Grid, side: Mark) -> GameOutcome
    decreases vacancies(grid), idle(side), 1nat,
    when well_formed(grid)
{
    if exists|r: int, c: int| #[trigger]
        is_open(grid, r, c) && move_outcome(grid, side, r, c) is Winning {
        GameOutcome::Winning
    } else if exists|r: int, c: int| #[trigger]
        is_open(grid, r, c) && move_outcome(grid, side, r, c) is Draw {
        GameOutcome::Draw
    } else {
        GameOutcome::Losing
    }
}

/// Playing the open cell `(row, col)` wins for `side`.
pub open spec fn wins_at(grid: Grid, side: Mark, row: int, col: int) -> bool {
    is_open(grid, row, col) && move_outcome(grid, side, row, col) is Winning
}

/// Playing the open cell `(row, col)` draws for `side`.
pub open spec fn draws_at(grid: Grid, side: Mark, row: int, col: int) -> bool {
    is_open(grid, row, col) && move_outcome(grid, side, row, col) is Draw
}

/// `(row, col)` comes before `(other_row, other_col)` when the board is
/// scanned row by row, each row from the left.
pub open spec fn precedes(row: int, col: int, other_row: int, other_col: int) -> bool {
    row < other_row || (row == other_row && col < other_col)
}

/// The move and the outcome that the search settles on: the first winning
/// cell in scan order if there is one; else the last drawing cell; else the
/// corner `(0, 0)` with `Losing`.
pub open spec fn is_search_result(
    grid: Grid,
    side: Mark,
    position: (usize, usize),
    outcome: GameOutcome,
) -> bool {
    let row = position.0 as int;
    let col = position.1 as int;
    &&& outcome == forced_outcome(grid, side)
    &&& outcome is Winning ==> {
        &&& wins_at(grid, side, row, col)
        &&& forall|r: int, c: int| precedes(r, c, row, col) ==> !#[trigger] wins_at(grid, side, r, c)
    }
    &&& outcome is Draw ==> {
        &&& draws_at(grid, side, row, col)
        &&& forall|r: int, c: int| precedes(row, col, r, c) ==> !#[trigger] draws_at(grid, side, r, c)
    }
    &&& outcome is Losing ==> row == 0 && col == 0
}

/// The search has one answer: two results for the same board and side are
/// the same move with the same outcome.
pub proof fn lemma_search_result_unique(
    grid: Grid,
    side: Mark,
    position: (usize, usize),
    outcome: GameOutcome,
    other_position: (usize, usize),
    other_outcome: GameOutcome,
)
    requires
        is_search_result(grid, side, position, outcome),
        is_search_result(grid, side, other_position, other_outcome),
    ensures
        position == other_position,
        outcome == other_outcome,
{
}

/// Among drawing moves the last one is kept: where no move wins and the cell
/// `(row, col)` draws, the search answers `Draw` with a drawing cell that
/// does not come before `(row, col)`, and with `(row, col)` itself if no later
/// cell draws.
pub proof fn lemma_last_draw_is_kept(
    grid: Grid,
    side: Mark,
    row: int,
    col: int,
    position: (usize, usize),
    outcome: GameOutcome,
)
    requires
        well_formed(grid),
        is_search_result(grid, side, position, outcome),
        draws_at(grid, side, row, col),
        forall|r: int, c: int| !wins_at(grid, side, r, c),
    ensures
        outcome is Draw,
        draws_at(grid, side, position.0 as int, position.1 as int),
        !precedes(position.0 as int, position.1 as int, row, col),
        (forall|r: int, c: int| precedes(row, col, r, c) ==> !draws_at(grid, side, r, c))
            ==> position.0 == row && position.1 == col,
{
    assert(is_open(grid, row, col));
    assert forall|r: int, c: int| #[trigger] is_open(grid, r, c) implies !(move_outcome(
        grid,
        side,
        r,
        c,
    ) is Winning) by {
        assert(!wins_at(grid, side, r, c));
    }
}

/// A player that searches the whole game tree before each move.
pub struct AIPlayer {
    mark: Mark,
}

impl AIPlayer {
    /// A player for the side `mark`.
    pub fn new(mark: Mark) -> (player: AIPlayer)
        ensures
            player.mark() == mark,
    {
        AIPlayer { mark }
    }

    /// The side this player moves for.
    pub closed spec fn mark(&self) -> Mark {
        self.mark
    }

    /// Places `side` on the open cell `(row, col)`, finds what the move is
    /// worth, and takes the mark off again.
    fn try_move(board: &mut Board, side: Mark, row: usize, col: usize) -> (outcome: GameOutcome)
        requires
            is_open(old(board)@, row as int, col as int),
        ensures
            *final(board) == *old(board),
            outcome == move_outcome(old(board)@, side, row as int, col as int),
        decreases vacancies(old(board)@), idle(side), 0nat,
    {
        let ghost grid = board@;
        proof {
            board.lemma_view_well_formed();
            lemma_place_vacancies(grid, row as int, col as int, side);
            lemma_place_back(grid, row as int, col as int, side);
        }
        board.set_cell(row, col, side);
        let outcome = match board.get_state() {
            GameState::Winner(winner) => if winner == side {
                GameOutcome::Winning
            } else {
                GameOutcome::Losing
            },
            GameState::Draw => GameOutcome::Draw,
            GameState::Ongoing => {
                let (_, reply) = Self::find_best_move(board, side.opponent());
                match reply {
                    GameOutcome::Losing => GameOutcome::Winning,
                    GameOutcome::Draw => GameOutcome::Draw,
                    GameOutcome::Winning => GameOutcome::Losing,
                }
            },
        };
        board.set_cell(row, col, Mark::Empty);
        proof {
            board.lemma_view_injective(old(board));
        }
        outcome
    }

    /// Searches every line of play from `board` with `side` to move.
    ///
    /// Returns the first cell, row by row, that wins for `side`, with
    /// `Winning`; if no cell wins, the last cell that draws, with `Draw`; if
    /// no cell draws either, `(0, 0)` with `Losing`. The board is left as it
    /// was found.
    pub fn find_best_move(board: &mut Board, side: Mark) -> (best: ((usize, usize), GameOutcome))
        ensures
            *final(board) == *old(board),
            is_search_result(old(board)@, side, best.0, best.1),
        decreases vacancies(old(board)@), idle(side), 1nat,
    {
        let ghost grid = board@;
        proof {
            board.lemma_view_well_formed();
        }
        let mut best_move: (usize, usize) = (0, 0);
        let mut best_outcome = GameOutcome::Losing;
        let mut i: usize = 0;
        while i < BOARD_SIZE
            invariant
                i <= BOARD_SIZE,
                well_formed(grid),
                *board == *old(board),
                grid == old(board)@,
                forall|r: int, c: int| r < i ==> !#[trigger] wins_at(grid, side, r, c),
                !(best_outcome is Winning),
                best_outcome is Losing ==> best_move == (0usize, 0usize) && forall|r: int, c: int|
                    r < i ==> !#[trigger] draws_at(grid, side, r, c),
                best_outcome is Draw ==> draws_at(
                    grid,
                    side,
                    best_move.0 as int,
                    best_move.1 as int,
                ) && forall|r: int, c: int|
                    r < i && precedes(best_move.0 as int, best_move.1 as int, r, c)
                        ==> !#[trigger] draws_at(grid, side, r, c),
            decreases BOARD_SIZE - i,
        {
            let mut j: usize = 0;
            while j < BOARD_SIZE
                invariant
                    i < BOARD_SIZE,
                    j <= BOARD_SIZE,
                    well_formed(grid),
                    *board == *old(board),
                    grid == old(board)@,
                    forall|r: int, c: int|
                        precedes(r, c, i as int, j as int) ==> !#[trigger] wins_at(grid, side, r, c),
                    !(best_outcome is Winning),
                    best_outcome is Losing ==> best_move == (0usize, 0usize) && forall|
                        r: int,
                        c: int,
                    |
                        precedes(r, c, i as int, j as int) ==> !#[trigger] draws_at(
                            grid,
                            side,
                            r,
                            c,
                        ),
                    best_outcome is Draw ==> draws_at(
                        grid,
                        side,
                        best_move.0 as int,
                        best_move.1 as int,
                    ) && forall|r: int, c: int|
                        precedes(r, c, i as int, j as int) && precedes(
                            best_move.0 as int,
                            best_move.1 as int,
                            r,
                            c,
                        ) ==> !#[trigger] draws_at(grid, side, r, c),
                decreases BOARD_SIZE - j,
            {
                if board.cell(i, j) == Mark::Empty {
                    match Self::try_move(board, side, i, j) {
                        GameOutcome::Winning => {
                            assert(wins_at(grid, side, i as int, j as int));
                            return ((i, j), GameOutcome::Winning);
                        },
                        GameOutcome::Draw => {
                            best_move = (i, j);
                            best_outcome = GameOutcome::Draw;
                        },
                        GameOutcome::Losing => {},
                    }
                }
                j += 1;
            }
            i += 1;
        }
        proof {
            assert forall|r: int, c: int| #[trigger] is_open(grid, r, c) implies !wins_at(
                grid,
                side,
                r,
                c,
            ) by {}
            if best_outcome is Losing {
                assert forall|r: int, c: int| #[trigger] is_open(grid, r, c) implies !draws_at(
                    grid,
                    side,
                    r,
                    c,
                ) by {}
            }
        }
        (best_move, best_outcome)
    }
}

impl Player for AIPlayer {
    /// Searches from a copy of `board` and gives the move found, or `None`
    /// to resign when every move loses.
    fn turn(&self, board: &Board) -> (choice: Option<(usize, usize)>)
        ensures
            choice is None <==> forced_outcome(board@, self.mark()) is Losing,
            choice matches Some(position) ==> is_search_result(
                board@,
                self.mark(),
                position,
                forced_outcome(board@, self.mark()),
            ),
    {
        let mut own_board = board.clone();
        let (coords, outcome) = AIPlayer::find_best_move(&mut own_board, self.mark);
        if outcome == GameOutcome::Losing {
            None
        } else {
            Some(coords)
        }
    }

    fn get_mark(&self) -> (mark: Mark)
        ensures
            mark == self.mark(),
    {
        self.mark
    }
}

} // verus!
