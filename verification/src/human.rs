//! What a person at the keyboard means by a line of input.

use vstd::prelude::*;
use crate::mark::Mark;
use crate::board::{is_open, Board, BOARD_SIZE};
use crate::text::{chars_of, find_space, parse_number, trim_bounds};
use crate::text::{next_space, number_of, trimmed};

verus! {

/// The position that `line` names: its first two fields, where fields are
/// separated by single spaces, each read as a number once the white space
/// around it is removed. `None` if there is no second field or either field
/// is not a number.
pub open spec fn position_of(line: Seq<char>) -> Option<(usize, usize)> {
    let cut = next_space(line, 0);
    let end = next_space(line, cut + 1);
    if cut >= line.len() {
        None
    } else {
        match (
            number_of(trimmed(line.subrange(0, cut))),
            number_of(trimmed(line.subrange(cut + 1, end))),
        ) {
            (Some(row), Some(col)) => Some((row, col)),
            _ => None,
        }
    }
}

/// The side that `line` names: `X` for an `X`, `O` for an `O` or a zero,
/// with white space allowed around it.
pub open spec fn side_of(line: Seq<char>) -> Option<Mark> {
    let word = trimmed(line);
    if word.len() != 1 {
        None
    } else if word[0] == 'X' {
        Some(Mark::X)
    } else if word[0] == 'O' || word[0] == '0' {
        Some(Mark::O)
    } else {
        None
    }
}

/// The side that a line of input chooses, if it chooses one.
pub fn parse_side(line: &str) -> (side: Option<Mark>)
    ensures
        side == side_of(line@),
{
    let chars = chars_of(line);
    let (start, end) = trim_bounds(&chars, 0, chars.len());
    assert(chars@.subrange(0, chars.len() as int) =~= line@);
    if end - start != 1 {
        return None;
    }
    let c = chars[start];
    assert(c == chars@.subrange(start as int, end as int)[0]);
    if c == 'X' {
        Some(Mark::X)
    } else if c == 'O' || c == '0' {
        Some(Mark::O)
    } else {
        None
    }
}

/// What a line typed in answer to "your move" amounts to.
#[derive(Debug, PartialEq, Eq, Structural, Clone, Copy)]
pub enum Answer {
    /// A blank line: the player gives up.
    Surrender,
    /// An open cell of the board.
    Move(usize, usize),
    /// Two numbers that name no open cell.
    Rejected,
    /// Anything else.
    Unreadable,
}

/// What `line` amounts to on `board`.
pub open spec fn answer_of(board: &Board, line: Seq<char>) -> Answer {
    if trimmed(line).len() == 0 {
        Answer::Surrender
    } else {
        match position_of(line) {
            None => Answer::Unreadable,
            Some((x, y)) => if is_open(board@, x as int, y as int) {
                Answer::Move(x, y)
            } else {
                Answer::Rejected
            },
        }
    }
}

/// A player whose moves are typed in.
pub struct HumanPlayer {
    mark: Mark,
}

impl HumanPlayer {
    /// A player for the side `mark`.
    pub fn new(mark: Mark) -> (player: HumanPlayer)
        ensures
            player.mark() == mark,
    {
        HumanPlayer { mark }
    }

    /// The side this player moves for.
    pub closed spec fn mark(&self) -> Mark {
        self.mark
    }

    /// The side this player moves for.
    pub fn get_mark(&self) -> (mark: Mark)
        ensures
            mark == self.mark(),
    {
        self.mark
    }

    /// Reads a row and a column from `s`.
    pub fn parse_pos(s: &str) -> (position: Option<(usize, usize)>)
        ensures
            position == position_of(s@),
    {
        let chars = chars_of(s);
        let cut = find_space(&chars, 0);
        let (row_start, row_end) = trim_bounds(&chars, 0, cut);
        let row = match parse_number(&chars, row_start, row_end) {
            Some(row) => row,
            None => {
                return None;
            },
        };
        if cut >= chars.len() {
            return None;
        }
        let end = find_space(&chars, cut + 1);
        let (col_start, col_end) = trim_bounds(&chars, cut + 1, end);
        let col = match parse_number(&chars, col_start, col_end) {
            Some(col) => col,
            None => {
                return None;
            },
        };
        Some((row, col))
    }

    /// Decides what to do with a line typed in answer to "your move".
    pub fn answer(board: &Board, line: &str) -> (answer: Answer)
        ensures
            answer == answer_of(board, line@),
    {
        let chars = chars_of(line);
        let (start, end) = trim_bounds(&chars, 0, chars.len());
        assert(chars@.subrange(0, chars.len() as int) =~= line@);
        if start == end {
            return Answer::Surrender;
        }
        match Self::parse_pos(line) {
            None => Answer::Unreadable,
            Some((x, y)) => {
                if x < BOARD_SIZE && y < BOARD_SIZE && board.cell(x, y) == Mark::Empty {
                    Answer::Move(x, y)
                } else {
                    Answer::Rejected
                }
            },
        }
    }
}

} // verus!
