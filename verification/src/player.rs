//! The two operations the game asks of whoever plays a side.

use vstd::prelude::*;
use crate::mark::Mark;
use crate::board::Board;

verus! {

/// A participant in a game.
pub trait Player {
    /// The cell to play on `board`, or `None` to give the game up.
    fn turn(&self, board: &Board) -> Option<(usize, usize)>;

    /// The side this participant plays.
    fn get_mark(&self) -> Mark;
}

} // verus!
