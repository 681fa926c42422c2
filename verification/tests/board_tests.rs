use tictactoe::board::{Board, GameState, BOARD_SIZE};
use tictactoe::mark::Mark;

fn board_from(rows: [&str; 3]) -> Board {
    let mut board = Board::new();
    for (r, row) in rows.iter().enumerate() {
        for (c, ch) in row.chars().enumerate() {
            let mark = match ch {
                'X' => Mark::X,
                'O' => Mark::O,
                _ => Mark::Empty,
            };
            if mark != Mark::Empty {
                assert!(board.make_turn_checked(r, c, mark));
            }
        }
    }
    board
}

fn cells(board: &Board) -> Vec<Mark> {
    let mut all = Vec::new();
    for r in 0..BOARD_SIZE {
        for c in 0..BOARD_SIZE {
            all.push(board.cell(r, c));
        }
    }
    all
}

#[test]
fn board_size_is_three() {
    assert_eq!(BOARD_SIZE, 3);
}

#[test]
fn new_board_is_empty_and_ongoing() {
    let board = Board::new();
    assert_eq!(cells(&board), vec![Mark::Empty; 9]);
    assert_eq!(board.get_state(), GameState::Ongoing);
}

#[test]
fn opponent_of_each_mark() {
    assert_eq!(Mark::X.opponent(), Mark::O);
    assert_eq!(Mark::O.opponent(), Mark::X);
    assert_eq!(Mark::Empty.opponent(), Mark::X);
}

#[test]
fn move_on_empty_cell_is_applied() {
    let mut board = Board::new();
    assert!(board.make_turn_checked(1, 2, Mark::O));
    for r in 0..3 {
        for c in 0..3 {
            let expected = if (r, c) == (1, 2) { Mark::O } else { Mark::Empty };
            assert_eq!(board.cell(r, c), expected);
        }
    }
}

#[test]
fn move_on_occupied_cell_is_rejected_and_changes_nothing() {
    let mut board = board_from(["XO.", ".X.", "..O"]);
    let before = cells(&board);
    assert!(!board.make_turn_checked(0, 0, Mark::O));
    assert!(!board.make_turn_checked(0, 1, Mark::O));
    assert!(!board.make_turn_checked(1, 1, Mark::X));
    assert!(!board.make_turn_checked(2, 2, Mark::Empty));
    assert_eq!(cells(&board), before);
}

#[test]
fn move_off_the_board_is_rejected_and_changes_nothing() {
    let mut board = board_from(["XO.", ".X.", "..O"]);
    let before = cells(&board);
    assert!(!board.make_turn_checked(3, 0, Mark::X));
    assert!(!board.make_turn_checked(0, 3, Mark::X));
    assert!(!board.make_turn_checked(3, 3, Mark::X));
    assert!(!board.make_turn_checked(usize::MAX, 1, Mark::O));
    assert!(!board.make_turn_checked(1, usize::MAX, Mark::O));
    assert_eq!(cells(&board), before);
}

#[test]
fn every_rejected_move_leaves_every_board_unchanged() {
    // All 3^9 grids, every coordinate pair in 0..5 x 0..5.
    for code in 0..19683u32 {
        let mut board = Board::new();
        let mut rest = code;
        for r in 0..3 {
            for c in 0..3 {
                let mark = [Mark::Empty, Mark::X, Mark::O][(rest % 3) as usize];
                rest /= 3;
                if mark != Mark::Empty {
                    assert!(board.make_turn_checked(r, c, mark));
                }
            }
        }
        let before = cells(&board);
        for x in 0..5 {
            for y in 0..5 {
                let legal = x < 3 && y < 3 && before[x * 3 + y] == Mark::Empty;
                if !legal {
                    assert!(!board.make_turn_checked(x, y, Mark::X));
                    assert_eq!(cells(&board), before);
                }
            }
        }
    }
}

#[test]
fn clone_is_independent() {
    let mut board = board_from(["X..", "...", "..."]);
    let copy = board.clone();
    assert!(board.make_turn_checked(1, 1, Mark::O));
    assert_eq!(copy.cell(1, 1), Mark::Empty);
    assert_eq!(copy.cell(0, 0), Mark::X);
    assert_eq!(board.cell(1, 1), Mark::O);
}

#[test]
fn each_row_wins() {
    assert_eq!(board_from(["XXX", "OO.", "..."]).get_state(), GameState::Winner(Mark::X));
    assert_eq!(board_from(["XX.", "OOO", "X.."]).get_state(), GameState::Winner(Mark::O));
    assert_eq!(board_from(["OO.", "...", "XXX"]).get_state(), GameState::Winner(Mark::X));
}

#[test]
fn each_column_wins() {
    assert_eq!(board_from(["OX.", "O.X", "O.X"]).get_state(), GameState::Winner(Mark::O));
    assert_eq!(board_from(["OX.", ".XO", ".X."]).get_state(), GameState::Winner(Mark::X));
    assert_eq!(board_from(["X.O", ".XO", "..O"]).get_state(), GameState::Winner(Mark::O));
}

#[test]
fn both_diagonals_win() {
    assert_eq!(board_from(["XO.", "OX.", "..X"]).get_state(), GameState::Winner(Mark::X));
    assert_eq!(board_from(["XXO", ".O.", "O.X"]).get_state(), GameState::Winner(Mark::O));
}

#[test]
fn full_board_without_line_is_a_draw() {
    assert_eq!(board_from(["XOX", "XOO", "OXX"]).get_state(), GameState::Draw);
    assert_eq!(board_from(["XOX", "OXX", "OXO"]).get_state(), GameState::Draw);
}

#[test]
fn full_board_with_line_is_won() {
    assert_eq!(board_from(["XOX", "OXO", "OXX"]).get_state(), GameState::Winner(Mark::X));
}

#[test]
fn board_with_empty_cell_and_no_line_is_ongoing() {
    assert_eq!(board_from(["XOX", "XOO", "OX."]).get_state(), GameState::Ongoing);
    assert_eq!(board_from(["X..", ".O.", "..."]).get_state(), GameState::Ongoing);
}

#[test]
fn empty_diagonal_is_no_line() {
    assert_eq!(board_from([".XO", "X.O", "OX."]).get_state(), GameState::Ongoing);
    assert_eq!(board_from(["XO.", "O.X", ".XO"]).get_state(), GameState::Ongoing);
}

#[test]
fn first_line_in_scan_order_decides_between_two_winners() {
    assert_eq!(board_from(["XXX", "OOO", "..."]).get_state(), GameState::Winner(Mark::X));
    assert_eq!(board_from(["OOO", "XXX", "..."]).get_state(), GameState::Winner(Mark::O));
    assert_eq!(board_from(["...", "OOO", "XXX"]).get_state(), GameState::Winner(Mark::O));
    assert_eq!(board_from(["XO.", "XO.", "XO."]).get_state(), GameState::Winner(Mark::X));
    assert_eq!(board_from(["OX.", "OX.", "OX."]).get_state(), GameState::Winner(Mark::O));
    assert_eq!(board_from([".OX", ".OX", ".OX"]).get_state(), GameState::Winner(Mark::O));
}

fn reference_state(grid: &[Mark]) -> (bool, bool, bool) {
    let lines = [
        [0, 1, 2], [3, 4, 5], [6, 7, 8], [0, 3, 6], [1, 4, 7], [2, 5, 8], [0, 4, 8], [2, 4, 6],
    ];
    let line_of = |m: Mark| lines.iter().any(|l| l.iter().all(|&i| grid[i] == m));
    let full = grid.iter().all(|&m| m != Mark::Empty);
    (line_of(Mark::X), line_of(Mark::O), full)
}

#[test]
fn state_of_every_grid_matches_its_lines() {
    for code in 0..19683u32 {
        let mut board = Board::new();
        let mut rest = code;
        for r in 0..3 {
            for c in 0..3 {
                let mark = [Mark::Empty, Mark::X, Mark::O][(rest % 3) as usize];
                rest /= 3;
                if mark != Mark::Empty {
                    assert!(board.make_turn_checked(r, c, mark));
                }
            }
        }
        let (x_line, o_line, full) = reference_state(&cells(&board));
        let state = board.get_state();
        match state {
            GameState::Draw => assert!(full && !x_line && !o_line),
            GameState::Ongoing => assert!(!full && !x_line && !o_line),
            GameState::Winner(Mark::X) => assert!(x_line),
            GameState::Winner(Mark::O) => assert!(o_line),
            GameState::Winner(Mark::Empty) => panic!("an empty winner"),
        }
        if x_line && !o_line {
            assert_eq!(state, GameState::Winner(Mark::X));
        }
        if o_line && !x_line {
            assert_eq!(state, GameState::Winner(Mark::O));
        }
    }
}

#[test]
fn run_along_a_row() {
    let board = board_from(["XXO", "...", "OOO"]);
    assert_eq!(board.count_equal_row_length(0, 0, 0, 1), 2);
    assert_eq!(board.count_equal_row_length(0, 1, 0, 1), 1);
    assert_eq!(board.count_equal_row_length(0, 2, 0, 1), 1);
    assert_eq!(board.count_equal_row_length(2, 0, 0, 1), 3);
    assert_eq!(board.count_equal_row_length(2, 2, 0, -1), 3);
    assert_eq!(board.count_equal_row_length(2, 1, 0, -1), 2);
}

#[test]
fn run_along_a_column_and_the_diagonals() {
    let board = board_from(["XOX", "XXO", "XOX"]);
    assert_eq!(board.count_equal_row_length(0, 0, 1, 0), 3);
    assert_eq!(board.count_equal_row_length(1, 0, 1, 0), 2);
    assert_eq!(board.count_equal_row_length(2, 0, -1, 0), 3);
    assert_eq!(board.count_equal_row_length(0, 0, 1, 1), 3);
    assert_eq!(board.count_equal_row_length(2, 0, -1, 1), 3);
    assert_eq!(board.count_equal_row_length(0, 1, 1, 0), 1);
    assert_eq!(board.count_equal_row_length(0, 2, 1, -1), 3);
}

#[test]
fn run_from_an_empty_cell_is_zero() {
    let board = board_from(["...", "XX.", "..."]);
    assert_eq!(board.count_equal_row_length(0, 0, 0, 1), 0);
    assert_eq!(board.count_equal_row_length(0, 0, 1, 1), 0);
    assert_eq!(board.count_equal_row_length(1, 2, 0, -1), 0);
}

#[test]
fn run_with_a_long_step_stops_at_the_edge() {
    let board = board_from(["XXX", "XXX", "XXX"]);
    assert_eq!(board.count_equal_row_length(0, 0, 2, 0), 2);
    assert_eq!(board.count_equal_row_length(0, 0, 2, 2), 2);
    assert_eq!(board.count_equal_row_length(0, 0, 3, 0), 1);
    assert_eq!(board.count_equal_row_length(1, 1, isize::MAX, 0), 1);
    assert_eq!(board.count_equal_row_length(1, 1, isize::MIN, isize::MIN), 1);
    assert_eq!(board.count_equal_row_length(2, 2, 0, isize::MAX), 1);
    assert_eq!(board.count_equal_row_length(0, 0, 1, 2), 2);
}
