//! The grid, its validated mutation and its classification.

use vstd::prelude::*;
use crate::mark::Mark;

verus! {

/// Number of rows, and of columns.
pub const BOARD_SIZE: usize = 3;

/// Classification of a grid.
#[derive(Debug, PartialEq, Eq, Structural, Clone, Copy)]
pub enum GameState {
    Ongoing,
    Winner(Mark),
    Draw,
}

/// Mathematical model of a board: rows of cells, `grid[row][col]`.
pub type Grid = Seq<Seq<Mark>>;

/// `grid` has `BOARD_SIZE` rows of `BOARD_SIZE` cells.
pub open spec fn well_formed(grid: Grid) -> bool {
    &&& grid.len() == BOARD_SIZE
    &&& forall|r: int| 0 <= r < BOARD_SIZE ==> (#[trigger] grid[r]).len() == BOARD_SIZE
}

/// `(row, col)` names a cell of the board.
pub open spec fn on_board(row: int, col: int) -> bool {
    0 <= row < BOARD_SIZE && 0 <= col < BOARD_SIZE
}

/// `(row, col)` is a cell of the board that holds no mark.
pub open spec fn is_open(grid: Grid, row: int, col: int) -> bool {
    on_board(row, col) && grid[row][col] is Empty
}

/// The grid with no mark on it.
pub open spec fn empty_grid() -> Grid {
    Seq::new(BOARD_SIZE as nat, |r: int| Seq::new(BOARD_SIZE as nat, |c: int| Mark::Empty))
}

/// `grid` with the cell `(row, col)` replaced by `mark`.
pub open spec fn place(grid: Grid, row: int, col: int, mark: Mark) -> Grid {
    grid.update(row, grid[row].update(col, mark))
}

/// 1 for an empty cell, 0 for a marked one.
pub open spec fn vacancy(mark: Mark) -> nat {
    if mark is Empty {
        1
    } else {
        0
    }
}

/// Number of empty cells in one row.
pub open spec fn row_vacancies(row: Seq<Mark>) -> nat {
    vacancy(row[0]) + vacancy(row[1]) + vacancy(row[2])
}

/// Number of empty cells on the grid.
pub open spec fn vacancies(grid: Grid) -> nat {
    row_vacancies(grid[0]) + row_vacancies(grid[1]) + row_vacancies(grid[2])
}

/// No cell of `grid` is empty.
pub open spec fn is_full(grid: Grid) -> bool {
    forall|r: int, c: int| on_board(r, c) ==> !(#[trigger] grid[r][c] is Empty)
}

/// Replacing a cell of a row changes the number of empty cells in it by
/// what the cell gains or loses.
proof fn lemma_row_update_vacancies(cells: Seq<Mark>, col: int, mark: Mark)
    requires
        cells.len() == BOARD_SIZE,
        0 <= col < BOARD_SIZE,
    ensures
        row_vacancies(cells.update(col, mark)) + vacancy(cells[col]) == row_vacancies(cells)
            + vacancy(mark),
{
}

/// Replacing a cell changes the number of empty cells by what the cell
/// gains or loses.
pub proof fn lemma_place_vacancies(grid: Grid, row: int, col: int, mark: Mark)
    requires
        well_formed(grid),
        on_board(row, col),
    ensures
        well_formed(place(grid, row, col, mark)),
        vacancies(place(grid, row, col, mark)) + vacancy(grid[row][col]) == vacancies(grid) + vacancy(
            mark,
        ),
{
    let next = place(grid, row, col, mark);
    lemma_row_update_vacancies(grid[row], col, mark);
    assert(next[row] == grid[row].update(col, mark));
    assert(forall|r: int| 0 <= r < BOARD_SIZE && r != row ==> next[r] == grid[r]);
}

/// Putting back what a cell held undoes a replacement.
pub proof fn lemma_place_back(grid: Grid, row: int, col: int, mark: Mark)
    requires
        well_formed(grid),
        on_board(row, col),
    ensures
        place(place(grid, row, col, mark), row, col, grid[row][col]) == grid,
{
    assert(place(place(grid, row, col, mark), row, col, grid[row][col]) =~~= grid);
}

/// Number of consecutive cells holding `mark`, counted from `(row, col)` in
/// steps of `(d_row, d_col)`, looking at no more than `budget` cells and
/// stopping at the edge of the board or at the first other cell.
pub open spec fn run_from(
    grid: Grid,
    mark: Mark,
    row: int,
    col: int,
    d_row: int,
    d_col: int,
    budget: nat,
) -> nat
    decreases budget,
{
    if budget > 0 && on_board(row, col) && grid[row][col] == mark {
        1 + run_from(grid, mark, row + d_row, col + d_col, d_row, d_col, (budget - 1) as nat)
    } else {
        0
    }
}

/// Length of the longest run of one non-empty mark that starts at
/// `(row, col)` and extends in steps of `(d_row, d_col)`.
///
/// A ray with a non-zero step leaves the board within `BOARD_SIZE` cells, so
/// looking at `BOARD_SIZE` cells cuts no run short.
pub open spec fn run_length(grid: Grid, row: int, col: int, d_row: int, d_col: int) -> nat {
    if grid[row][col] is Empty {
        0
    } else {
        run_from(grid, grid[row][col], row, col, d_row, d_col, BOARD_SIZE as nat)
    }
}

/// Number of straight lines of `BOARD_SIZE` cells: the rows, the columns and
/// the two diagonals.
pub open spec fn line_count() -> int {
    2 * BOARD_SIZE + 2
}

/// The `i`-th cell of line `k`. Lines are numbered in the order in which a
/// board is scanned for a winner: the rows from the top, the columns from the
/// left, the diagonal from the top left corner, and the diagonal from the
/// bottom left corner.
pub open spec fn line_cell(k: int, i: int) -> (int, int) {
    if k < BOARD_SIZE {
        (k, i)
    } else if k < 2 * BOARD_SIZE {
        (i, k - BOARD_SIZE)
    } else if k == 2 * BOARD_SIZE {
        (i, i)
    } else {
        (BOARD_SIZE - 1 - i, i)
    }
}

/// Step from one cell of line `k` to the next.
pub open spec fn line_step(k: int) -> (int, int) {
    (line_cell(k, 1).0 - line_cell(k, 0).0, line_cell(k, 1).1 - line_cell(k, 0).1)
}

/// Every cell of line `k` holds `mark`.
pub open spec fn line_filled(grid: Grid, k: int, mark: Mark) -> bool {
    forall|i: int|
        0 <= i < BOARD_SIZE ==> grid[(#[trigger] line_cell(k, i)).0][line_cell(k, i).1] == mark
}

/// Some row, column or diagonal is filled with the non-empty `mark`.
pub open spec fn has_line(grid: Grid, mark: Mark) -> bool {
    !(mark is Empty) && exists|k: int| 0 <= k < line_count() && #[trigger] line_filled(grid, k, mark)
}

/// The mark that fills line `k`, or `Empty` if the line is not filled by one
/// player.
pub open spec fn line_owner(grid: Grid, k: int) -> Mark {
    let start = line_cell(k, 0);
    let step = line_step(k);
    if run_length(grid, start.0, start.1, step.0, step.1) == BOARD_SIZE {
        grid[start.0][start.1]
    } else {
        Mark::Empty
    }
}

/// Owner of the first owned line at or after `k`, or `Empty` if there is none.
pub open spec fn first_owner(grid: Grid, k: int) -> Mark
    decreases line_count() - k,
{
    if k < 0 || k >= line_count() {
        Mark::Empty
    } else if !(line_owner(grid, k) is Empty) {
        line_owner(grid, k)
    } else {
        first_owner(grid, k + 1)
    }
}

/// Classification of `grid`: won by the owner of the first owned line,
/// else drawn if full, else still being played.
pub open spec fn grid_state(grid: Grid) -> GameState {
    let winner = first_owner(grid, 0);
    if !(winner is Empty) {
        GameState::Winner(winner)
    } else if is_full(grid) {
        GameState::Draw
    } else {
        GameState::Ongoing
    }
}

/// A ray that starts on the board and moves by a non-zero step is off the
/// board after `BOARD_SIZE` steps.
proof fn lemma_ray_leaves_board(start: int, step: int, n: int)
    requires
        0 <= start < BOARD_SIZE,
        0 <= start + n * step < BOARD_SIZE,
        0 <= n,
        step != 0,
    ensures
        n < BOARD_SIZE,
{
    if step > 0 {
        assert(n * step >= n) by (nonlinear_arith)
            requires
                n >= 0,
                step >= 1,
        ;
    } else {
        assert(n * step <= -n) by (nonlinear_arith)
            requires
                n >= 0,
                step <= -1,
        ;
    }
}

/// Looking at `BOARD_SIZE` cells is looking at the whole ray: from a cell of
/// the board and with a non-zero step, a larger budget counts the same run.
pub proof fn lemma_run_is_whole(
    grid: Grid,
    mark: Mark,
    row: int,
    col: int,
    d_row: int,
    d_col: int,
    budget: nat,
)
    requires
        on_board(row, col),
        d_row != 0 || d_col != 0,
        budget >= BOARD_SIZE,
    ensures
        run_from(grid, mark, row, col, d_row, d_col, budget) == run_from(
            grid,
            mark,
            row,
            col,
            d_row,
            d_col,
            BOARD_SIZE as nat,
        ),
{
    reveal_with_fuel(run_from, 4);
    assert(!on_board(row + d_row + d_row + d_row, col + d_col + d_col + d_col));
}

/// A line has an owner exactly when one player's mark fills it.
pub proof fn lemma_line_owner(grid: Grid, k: int, mark: Mark)
    requires
        well_formed(grid),
        0 <= k < line_count(),
        !(mark is Empty),
    ensures
        line_owner(grid, k) == mark <==> line_filled(grid, k, mark),
{
    reveal_with_fuel(run_from, 4);
    let c0 = line_cell(k, 0);
    let c1 = line_cell(k, 1);
    let c2 = line_cell(k, 2);
    if line_filled(grid, k, mark) {
        assert(grid[c0.0][c0.1] == mark && grid[c1.0][c1.1] == mark && grid[c2.0][c2.1] == mark);
    }
}

/// From line `k` on, the scan finds an owner exactly when some line at or
/// after `k` is filled by one player, and the owner it finds fills a line.
proof fn lemma_first_owner(grid: Grid, k: int)
    requires
        well_formed(grid),
        0 <= k <= line_count(),
    ensures
        first_owner(grid, k) is Empty <==> forall|j: int|
            k <= j < line_count() ==> #[trigger] line_owner(grid, j) is Empty,
        !(first_owner(grid, k) is Empty) ==> exists|j: int|
            k <= j < line_count() && #[trigger] line_owner(grid, j) == first_owner(grid, k),
    decreases line_count() - k,
{
    if k < line_count() {
        lemma_first_owner(grid, k + 1);
        if !(line_owner(grid, k) is Empty) {
            assert(line_owner(grid, k) == first_owner(grid, k));
        } else if !(first_owner(grid, k) is Empty) {
            let j = choose|j: int|
                k + 1 <= j < line_count() && #[trigger] line_owner(grid, j) == first_owner(
                    grid,
                    k + 1,
                );
            assert(line_owner(grid, j) == first_owner(grid, k));
        }
    }
}

/// How the classification of a grid reads in terms of filled lines: a grid
/// is won exactly when a player fills a line, and then by a player who does;
/// it is drawn exactly when it is full and nobody fills a line. Unless both
/// players fill a line, the winner is the player who does.
pub proof fn lemma_state_by_lines(grid: Grid)
    requires
        well_formed(grid),
    ensures
        grid_state(grid) is Winner <==> has_line(grid, Mark::X) || has_line(grid, Mark::O),
        grid_state(grid) is Draw <==> is_full(grid) && !has_line(grid, Mark::X) && !has_line(
            grid,
            Mark::O,
        ),
        grid_state(grid) is Ongoing <==> !is_full(grid) && !has_line(grid, Mark::X) && !has_line(
            grid,
            Mark::O,
        ),
        forall|mark: Mark| grid_state(grid) == GameState::Winner(mark) ==> has_line(grid, mark),
        !(has_line(grid, Mark::X) && has_line(grid, Mark::O)) ==> forall|mark: Mark|
            has_line(grid, mark) ==> grid_state(grid) == GameState::Winner(mark),
{
    lemma_first_owner(grid, 0);
    let winner = first_owner(grid, 0);
    if !(winner is Empty) {
        let j = choose|j: int| 0 <= j < line_count() && #[trigger] line_owner(grid, j) == winner;
        lemma_line_owner(grid, j, winner);
        assert(has_line(grid, winner));
    }
    assert forall|mark: Mark| #[trigger] has_line(grid, mark) implies !(winner is Empty) by {
        let j = choose|j: int| 0 <= j < line_count() && #[trigger] line_filled(grid, j, mark);
        lemma_line_owner(grid, j, mark);
        assert(!(line_owner(grid, j) is Empty));
    }
}

/// The grid.
pub struct Board {
    data: [[Mark; BOARD_SIZE]; BOARD_SIZE],
}

impl Clone for Board {
    /// An independent board with the same marks.
    fn clone(&self) -> (copy: Board)
        ensures
            copy == *self,
    {
        Board { data: self.data }
    }
}

impl View for Board {
    type V = Grid;

    closed spec fn view(&self) -> Grid {
        Seq::new(BOARD_SIZE as nat, |r: int| self.data[r]@)
    }
}

impl Board {
    /// The view of a board always has the shape of the board.
    pub proof fn lemma_view_well_formed(&self)
        ensures
            well_formed(self@),
    {
    }

    /// A board with every cell empty.
    pub fn new() -> (board: Board)
        ensures
            board@ == empty_grid(),
    {
        let board = Board { data: [[Mark::Empty; BOARD_SIZE]; BOARD_SIZE] };
        assert(board@ =~~= empty_grid());
        board
    }

    /// The mark at `(row, col)`.
    pub fn cell(&self, row: usize, col: usize) -> (mark: Mark)
        requires
            on_board(row as int, col as int),
        ensures
            mark == self@[row as int][col as int],
    {
        self.data[row][col]
    }

    /// Length of the longest run of one non-empty mark that starts at
    /// `(x, y)` and extends in steps of `(dx, dy)`, up to the edge of the
    /// board or the first cell that holds something else.
    pub fn count_equal_row_length(&self, x: usize, y: usize, dx: isize, dy: isize) -> (length:
        usize)
        requires
            on_board(x as int, y as int),
            dx != 0 || dy != 0,
        ensures
            length == run_length(self@, x as int, y as int, dx as int, dy as int),
    {
        let initial = self.data[x][y];
        if initial == Mark::Empty {
            return 0;
        }
        let mut cur_x = x;
        let mut cur_y = y;
        let mut ans: usize = 0;
        while cur_x < BOARD_SIZE && cur_y < BOARD_SIZE && self.data[cur_x][cur_y] == initial
            invariant
                on_board(x as int, y as int),
                dx != 0 || dy != 0,
                initial == self@[x as int][y as int],
                !(initial is Empty),
                ans <= BOARD_SIZE,
                cur_x == x + ans * dx,
                cur_y == y + ans * dy,
                run_from(self@, initial, x as int, y as int, dx as int, dy as int, BOARD_SIZE as nat)
                    == ans + run_from(
                    self@,
                    initial,
                    cur_x as int,
                    cur_y as int,
                    dx as int,
                    dy as int,
                    (BOARD_SIZE - ans) as nat,
                ),
            decreases BOARD_SIZE - ans,
        {
            proof {
                if dx != 0 {
                    lemma_ray_leaves_board(x as int, dx as int, ans as int);
                } else {
                    lemma_ray_leaves_board(y as int, dy as int, ans as int);
                }
                assert(run_from(
                    self@,
                    initial,
                    cur_x as int,
                    cur_y as int,
                    dx as int,
                    dy as int,
                    (BOARD_SIZE - ans) as nat,
                ) == 1 + run_from(
                    self@,
                    initial,
                    cur_x + dx,
                    cur_y + dy,
                    dx as int,
                    dy as int,
                    (BOARD_SIZE - ans - 1) as nat,
                ));
                assert((ans + 1) * dx == ans * dx + dx) by (nonlinear_arith);
                assert((ans + 1) * dy == ans * dy + dy) by (nonlinear_arith);
            }
            ans += 1;
            match (cur_x.checked_add_signed(dx), cur_y.checked_add_signed(dy)) {
                (Some(next_x), Some(next_y)) => {
                    cur_x = next_x;
                    cur_y = next_y;
                },
                _ => {
                    return ans;
                },
            }
        }
        ans
    }

    /// Classifies the board: won by the owner of the first filled line in
    /// the order rows, columns, diagonals; else drawn if no cell is empty;
    /// else still being played.
    #[verifier::loop_isolation(false)]
    pub fn get_state(&self) -> (state: GameState)
        ensures
            state == grid_state(self@),
            state is Winner <==> has_line(self@, Mark::X) || has_line(self@, Mark::O),
            state is Draw <==> is_full(self@) && !has_line(self@, Mark::X) && !has_line(
                self@,
                Mark::O,
            ),
            forall|mark: Mark| state == GameState::Winner(mark) ==> has_line(self@, mark),
            !(has_line(self@, Mark::X) && has_line(self@, Mark::O)) ==> forall|mark: Mark|
                has_line(self@, mark) ==> state == GameState::Winner(mark),
    {
        proof {
            lemma_state_by_lines(self@);
        }
        let mut i: usize = 0;
        while i < BOARD_SIZE
            invariant
                i <= BOARD_SIZE,
                first_owner(self@, 0) == first_owner(self@, i as int),
            decreases BOARD_SIZE - i,
        {
            if self.count_equal_row_length(i, 0, 0, 1) == BOARD_SIZE {
                return GameState::Winner(self.data[i][0]);
            }
            i += 1;
        }
        let mut j: usize = 0;
        while j < BOARD_SIZE
            invariant
                j <= BOARD_SIZE,
                first_owner(self@, 0) == first_owner(self@, BOARD_SIZE + j),
            decreases BOARD_SIZE - j,
        {
            if self.count_equal_row_length(0, j, 1, 0) == BOARD_SIZE {
                return GameState::Winner(self.data[0][j]);
            }
            j += 1;
        }
        if self.count_equal_row_length(0, 0, 1, 1) == BOARD_SIZE {
            return GameState::Winner(self.data[0][0]);
        }
        if self.count_equal_row_length(BOARD_SIZE - 1, 0, -1, 1) == BOARD_SIZE {
            return GameState::Winner(self.data[BOARD_SIZE - 1][0]);
        }
        assert(first_owner(self@, 0) is Empty) by {
            reveal_with_fuel(first_owner, 3);
        }
        if self.has_empty_cell() {
            GameState::Ongoing
        } else {
            GameState::Draw
        }
    }

    /// Whether some cell is empty.
    fn has_empty_cell(&self) -> (found: bool)
        ensures
            found <==> !is_full(self@),
    {
        let mut row: usize = 0;
        while row < BOARD_SIZE
            invariant
                row <= BOARD_SIZE,
                forall|r: int, c: int|
                    0 <= r < row && 0 <= c < BOARD_SIZE ==> !(#[trigger] self@[r][c] is Empty),
            decreases BOARD_SIZE - row,
        {
            let mut col: usize = 0;
            while col < BOARD_SIZE
                invariant
                    row < BOARD_SIZE,
                    col <= BOARD_SIZE,
                    forall|r: int, c: int|
                        0 <= r < row && 0 <= c < BOARD_SIZE ==> !(#[trigger] self@[r][c] is Empty),
                    forall|c: int| 0 <= c < col ==> !(#[trigger] self@[row as int][c] is Empty),
                decreases BOARD_SIZE - col,
            {
                if self.data[row][col] == Mark::Empty {
                    assert(self@[row as int][col as int] is Empty);
                    return true;
                }
                col += 1;
            }
            row += 1;
        }
        false
    }

    /// Boards with the same marks are the same board.
    pub proof fn lemma_view_injective(&self, other: &Board)
        requires
            self@ == other@,
        ensures
            *self == *other,
    {
        assert forall|r: int| 0 <= r < BOARD_SIZE implies self.data[r] == other.data[r] by {
            assert(self@[r] == other@[r]);
            assert(self.data[r] =~= other.data[r]);
        }
        assert(self.data =~= other.data);
    }

    /// Overwrites the cell `(row, col)` with `mark`, whatever it held.
    pub(crate) fn set_cell(&mut self, row: usize, col: usize, mark: Mark)
        requires
            on_board(row as int, col as int),
        ensures
            final(self)@ == place(old(self)@, row as int, col as int, mark),
    {
        self.data[row][col] = mark;
        assert(self@ =~~= place(old(self)@, row as int, col as int, mark));
    }

    /// Plays `side` at `(x, y)` if that cell is on the board and empty;
    /// otherwise changes nothing and returns `false`.
    pub fn make_turn_checked(&mut self, x: usize, y: usize, side: Mark) -> (done: bool)
        ensures
            done <==> is_open(old(self)@, x as int, y as int),
            done ==> final(self)@ == place(old(self)@, x as int, y as int, side),
            !done ==> *final(self) == *old(self),
    {
        if !(x < BOARD_SIZE && y < BOARD_SIZE) {
            return false;
        }
        if self.data[x][y] != Mark::Empty {
            return false;
        }
        self.data[x][y] = side;
        assert(self@ =~~= place(old(self)@, x as int, y as int, side));
        true
    }
}

} // verus!
