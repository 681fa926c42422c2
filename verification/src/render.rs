//! The board as text for a terminal.

use vstd::prelude::*;
use crate::mark::Mark;
use crate::board::{Board, Grid, BOARD_SIZE};

verus! {

/// The text for the mark `side_to_print`, as seen by `side_to_compare`: an
/// `X` or a `0` in bold, green if the mark is the viewer's own and red if it
/// is the opponent's, or uncoloured if the viewer takes no side; a grey dot
/// for an empty cell.
pub open spec fn colored_mark(side_to_print: Mark, side_to_compare: Mark) -> Seq<char> {
    let color_code = if side_to_compare is Empty {
        "\x1b[1m"@
    } else if side_to_compare == side_to_print {
        "\x1b[32;1m"@
    } else {
        "\x1b[31;1m"@
    };
    match side_to_print {
        Mark::X => color_code + "X\x1b[0m"@,
        Mark::O => color_code + "0\x1b[0m"@,
        Mark::Empty => "\x1b[38;5;8m\u{2022}\x1b[0m"@,
    }
}

/// The digit that labels row or column `index`.
pub open spec fn label(index: int) -> Seq<char> {
    if index == 0 {
        "0"@
    } else if index == 1 {
        "1"@
    } else {
        "2"@
    }
}

/// The column labels of the first `count` columns, each followed by a bar.
pub open spec fn labels_text(count: nat) -> Seq<char>
    decreases count,
{
    if count == 0 {
        Seq::empty()
    } else {
        labels_text((count - 1) as nat) + label(count - 1) + "\u{2502}"@
    }
}

/// The rule under the first `count` column labels; the last column of the
/// board closes the rule.
pub open spec fn rule_text(count: nat) -> Seq<char>
    decreases count,
{
    if count == 0 {
        Seq::empty()
    } else {
        rule_text((count - 1) as nat) + "\u{2550}"@ + if count < BOARD_SIZE {
            "\u{256a}"@
        } else {
            "\u{2561}"@
        }
    }
}

/// The first `count` cells of row `row`, each followed by a bar.
pub open spec fn cells_text(grid: Grid, row: int, side: Mark, count: nat) -> Seq<char>
    decreases count,
{
    if count == 0 {
        Seq::empty()
    } else {
        cells_text(grid, row, side, (count - 1) as nat) + colored_mark(grid[row][count - 1], side)
            + "\u{2502}"@
    }
}

/// The first `count` rows, each a line that starts with the row's label.
pub open spec fn rows_text(grid: Grid, side: Mark, count: nat) -> Seq<char>
    decreases count,
{
    if count == 0 {
        Seq::empty()
    } else {
        rows_text(grid, side, (count - 1) as nat) + label(count - 1) + "\u{2551}"@ + cells_text(
            grid,
            count - 1,
            side,
            BOARD_SIZE as nat,
        ) + "\n"@
    }
}

/// The whole board as seen by `side`: a line of column labels, a rule, and
/// one line for each row.
pub open spec fn position_text(grid: Grid, side: Mark) -> Seq<char> {
    " \u{2551}"@ + labels_text(BOARD_SIZE as nat) + "\n"@ + "\u{2550}\u{256c}"@ + rule_text(
        BOARD_SIZE as nat,
    ) + "\n"@ + rows_text(grid, side, BOARD_SIZE as nat)
}

/// The text for the mark `side_to_print`, coloured for `side_to_compare`.
pub fn get_colored_mark(side_to_print: Mark, side_to_compare: Mark) -> (text: String)
    ensures
        text@ == colored_mark(side_to_print, side_to_compare),
{
    let color_code = String::from_str(
        if side_to_compare == Mark::Empty {
            "\x1b[1m"
        } else if side_to_compare == side_to_print {
            "\x1b[32;1m"
        } else {
            "\x1b[31;1m"
        },
    );
    match side_to_print {
        Mark::X => color_code.concat("X\x1b[0m"),
        Mark::O => color_code.concat("0\x1b[0m"),
        Mark::Empty => String::from_str("\x1b[38;5;8m\u{2022}\x1b[0m"),
    }
}

/// The digit that labels row or column `index`.
fn label_of(index: usize) -> (text: &'static str)
    requires
        index < BOARD_SIZE,
    ensures
        text@ == label(index as int),
{
    if index == 0 {
        "0"
    } else if index == 1 {
        "1"
    } else {
        "2"
    }
}

impl Board {
    /// The board as text, with the marks coloured for `side`.
    pub fn current_position(&self, side: Mark) -> (text: String)
        ensures
            text@ == position_text(self@, side),
    {
        let mut text = String::from_str(" \u{2551}");
        let mut i: usize = 0;
        while i < BOARD_SIZE
            invariant
                i <= BOARD_SIZE,
                text@ == " \u{2551}"@ + labels_text(i as nat),
            decreases BOARD_SIZE - i,
        {
            text.append(label_of(i));
            text.append("\u{2502}");
            i += 1;
        }
        text.append("\n");
        text.append("\u{2550}\u{256c}");
        let ghost head = text@;
        let mut r: usize = 0;
        while r < BOARD_SIZE
            invariant
                r <= BOARD_SIZE,
                text@ == head + rule_text(r as nat),
            decreases BOARD_SIZE - r,
        {
            text.append("\u{2550}");
            if r < BOARD_SIZE - 1 {
                text.append("\u{256a}");
            } else {
                text.append("\u{2561}");
            }
            r += 1;
        }
        text.append("\n");
        let ghost head = text@;
        let mut r: usize = 0;
        while r < BOARD_SIZE
            invariant
                r <= BOARD_SIZE,
                text@ == head + rows_text(self@, side, r as nat),
            decreases BOARD_SIZE - r,
        {
            text.append(label_of(r));
            text.append("\u{2551}");
            let ghost row_head = text@;
            let mut c: usize = 0;
            while c < BOARD_SIZE
                invariant
                    r < BOARD_SIZE,
                    c <= BOARD_SIZE,
                    text@ == row_head + cells_text(self@, r as int, side, c as nat),
                decreases BOARD_SIZE - c,
            {
                let mark = get_colored_mark(self.cell(r, c), side);
                text.append(mark.as_str());
                text.append("\u{2502}");
                c += 1;
            }
            text.append("\n");
            r += 1;
        }
        text
    }
}

} // verus!
