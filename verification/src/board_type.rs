//! Board definitions: a parameterized rectangular board with synthesized goal
//! rows, or an explicit grid of spaces held in an `ndarray` array.

use vstd::prelude::*;

use crate::coordinate::Coordinate;
use crate::space::Space;

verus! {

/// Largest number of playable rows a rectangular board may declare; two more
/// rows are synthesized for the goals, so the total must still fit in a `u8`.
pub const MAX_RECTANGULAR_ROWS: u8 = 253;

/// A rectangular grid of spaces, stored as an `ndarray::Array2`. The grid is
/// opaque to verification; its contents are named by [`grid_seq`] and
/// [`grid_cols`], and the methods below state how they read and build it.
#[verifier::external_body]
pub struct SpaceGrid {
    cells: ndarray::Array2<Space>,
}

/// The rows of a grid, each row the sequence of its spaces.
pub uninterp spec fn grid_seq(grid: SpaceGrid) -> Seq<Seq<Space>>;

/// The column count of a grid; every row of [`grid_seq`] has this length,
/// also when the grid has no rows.
pub uninterp spec fn grid_cols(grid: SpaceGrid) -> nat;

impl SpaceGrid {
    /// Relies on `ndarray::ArrayBase::nrows`: the number of rows of the
    /// two-dimensional array, every row holding `ncols` elements.
    #[verifier::external_body]
    pub fn nrows(&self) -> (r: usize)
        ensures
            r == grid_seq(*self).len(),
            forall|i: int|
                0 <= i < r ==> (#[trigger] grid_seq(*self)[i]).len() == grid_cols(*self),
    {
        self.cells.nrows()
    }

    /// Relies on `ndarray::ArrayBase::ncols`: the number of columns of the
    /// two-dimensional array, the length of each of its rows.
    #[verifier::external_body]
    pub fn ncols(&self) -> (r: usize)
        ensures
            r == grid_cols(*self),
            forall|i: int|
                0 <= i < grid_seq(*self).len() ==> (#[trigger] grid_seq(*self)[i]).len() == r,
    {
        self.cells.ncols()
    }

    /// Relies on `ndarray` indexing (`Index<(usize, usize)>`): the element in
    /// the given row and column.
    #[verifier::external_body]
    pub fn get(&self, row: usize, column: usize) -> (r: Space)
        requires
            row < grid_seq(*self).len(),
            column < grid_cols(*self),
        ensures
            r == grid_seq(*self)[row as int][column as int],
    {
        self.cells[(row, column)]
    }

    /// Relies on `ndarray::Array2::from_shape_vec` with a `(rows, columns)`
    /// shape: it lays the given elements out row by row, and succeeds exactly
    /// when their number matches the shape.
    #[verifier::external_body]
    pub fn from_flat(rows: usize, columns: usize, cells: Vec<Space>) -> (r: Self)
        requires
            cells@.len() == rows * columns,
        ensures
            grid_seq(r).len() == rows,
            grid_cols(r) == columns,
            forall|i: int|
                0 <= i < rows ==> (#[trigger] grid_seq(r)[i]).len() == columns,
            forall|i: int, j: int|
                0 <= i < rows && 0 <= j < columns ==> #[trigger] grid_seq(r)[i][j] == cells@[i
                    * columns + j],
    {
        Self {
            cells: ndarray::Array2::from_shape_vec((rows, columns), cells)
                .expect("shape matches the element count"),
        }
    }
}

/// A board definition.
pub enum BoardType {
    /// A rectangular board of `rows` by `columns` playable spaces. Two goal
    /// rows are synthesized above and below the playable rows, reachable only
    /// at the declared goal columns; the top goal row belongs to seat 1, the
    /// bottom one to seat 0. Valid only for exactly two seats.
    Rectangular {
        /// Number of playable rows; must be between 1 and
        /// [`MAX_RECTANGULAR_ROWS`].
        rows: u8,
        /// Number of columns; must be at least 2.
        columns: u8,
        /// The goal columns; each must be below `columns`.
        goal_locations: Vec<u8>,
    },
    /// An explicit grid of spaces.
    Custom(SpaceGrid),
}

/// The abstract value of a board definition.
#[verifier::ext_equal]
pub enum BoardTypeView {
    Rectangular { rows: u8, columns: u8, goal_locations: Seq<u8> },
    Custom { grid: Seq<Seq<Space>>, columns: nat },
}

impl View for BoardType {
    type V = BoardTypeView;

    open spec fn view(&self) -> BoardTypeView {
        match self {
            BoardType::Rectangular { rows, columns, goal_locations } => BoardTypeView::Rectangular {
                rows: *rows,
                columns: *columns,
                goal_locations: goal_locations@,
            },
            BoardType::Custom(grid) => BoardTypeView::Custom {
                grid: grid_seq(*grid),
                columns: grid_cols(*grid),
            },
        }
    }
}

/// The total number of rows of a board: the playable rows plus the two
/// synthesized goal rows for a rectangular board, the grid height otherwise.
pub open spec fn board_rows(board: BoardTypeView) -> int {
    match board {
        BoardTypeView::Rectangular { rows, .. } => rows + 2,
        BoardTypeView::Custom { grid, .. } => grid.len() as int,
    }
}

/// The number of columns of a board.
pub open spec fn board_columns(board: BoardTypeView) -> int {
    match board {
        BoardTypeView::Rectangular { columns, .. } => columns as int,
        BoardTypeView::Custom { columns, .. } => columns as int,
    }
}

/// The machine-level well-formedness of a board: its dimensions fit the `u8`
/// queries and a custom grid is rectangular. Board verification implies this.
pub open spec fn board_wf(board: BoardTypeView) -> bool {
    match board {
        BoardTypeView::Rectangular { rows, .. } => rows <= MAX_RECTANGULAR_ROWS,
        BoardTypeView::Custom { grid, columns } => grid.len() <= 255 && columns <= 255 && forall|
            i: int,
        |
            0 <= i < grid.len() ==> (#[trigger] grid[i]).len() == columns,
    }
}

/// The space a coordinate resolves to. Out-of-range coordinates, negative
/// ones included, resolve to `Invalid`. On a rectangular board row 0 and row
/// `rows + 1` are the synthesized goal rows: they hold `Goal(1)` and
/// `Goal(0)` at the declared goal columns and are `Invalid` elsewhere, and
/// every other in-range space is `Normal`.
pub open spec fn spec_get_space(board: BoardTypeView, coordinate: Coordinate) -> Space {
    match board {
        BoardTypeView::Rectangular { rows, columns, goal_locations } => {
            if coordinate.row < 0 || coordinate.row >= rows + 2 || coordinate.column < 0
                || coordinate.column >= columns {
                Space::Invalid
            } else if coordinate.row == 0 || coordinate.row == rows + 1 {
                if goal_locations.contains(coordinate.column as u8) {
                    Space::Goal(
                        if coordinate.row == 0 {
                            1
                        } else {
                            0
                        },
                    )
                } else {
                    Space::Invalid
                }
            } else {
                Space::Normal
            }
        },
        BoardTypeView::Custom { grid, columns } => {
            if coordinate.row < 0 || coordinate.row >= grid.len() || coordinate.column < 0
                || coordinate.column >= columns {
                Space::Invalid
            } else {
                grid[coordinate.row as int][coordinate.column as int]
            }
        },
    }
}

/// Whether a board has a goal: a rectangular board exactly when it declares a
/// goal column, a custom board exactly when some cell of its grid is a goal.
pub open spec fn spec_has_goal(board: BoardTypeView) -> bool {
    match board {
        BoardTypeView::Rectangular { goal_locations, .. } => goal_locations.len() > 0,
        BoardTypeView::Custom { grid, .. } => exists|i: int, j: int|
            0 <= i < grid.len() && 0 <= j < grid[i].len() && (#[trigger] grid[i][j]) is Goal,
    }
}

/// The first declared goal column that is not below the column count, or
/// `None` when all are.
pub open spec fn first_bad_goal(goal_locations: Seq<u8>, columns: u8) -> Option<u8>
    decreases goal_locations.len(),
{
    if goal_locations.len() == 0 {
        None
    } else if goal_locations[0] >= columns {
        Some(goal_locations[0])
    } else {
        first_bad_goal(goal_locations.drop_first(), columns)
    }
}

/// The first goal space of a row whose seat is not below the seat count,
/// scanned from position `j`.
pub open spec fn bad_goal_in_row(row: Seq<Space>, seats: u64, j: int) -> Option<Space>
    decreases row.len() - j,
{
    if j < 0 || j >= row.len() {
        None
    } else {
        match row[j] {
            Space::Goal(seat) => if seat >= seats {
                Some(row[j])
            } else {
                bad_goal_in_row(row, seats, j + 1)
            },
            _ => bad_goal_in_row(row, seats, j + 1),
        }
    }
}

/// The first goal space of a grid whose seat is not below the seat count, in
/// row-major order, scanned from row `i`.
pub open spec fn bad_goal_in_grid(grid: Seq<Seq<Space>>, seats: u64, i: int) -> Option<Space>
    decreases grid.len() - i,
{
    if i < 0 || i >= grid.len() {
        None
    } else {
        match bad_goal_in_row(grid[i], seats, 0) {
            Some(space) => Some(space),
            None => bad_goal_in_grid(grid, seats, i + 1),
        }
    }
}

/// The first failure of a board definition: a rectangular board is valid only
/// for exactly two seats, with playable rows between 1 and
/// [`MAX_RECTANGULAR_ROWS`], at least two columns, and every goal column
/// below the column count; a custom grid may span at most 255 rows and
/// columns, and every goal space must belong to a declared seat.
pub open spec fn spec_verify_board(board: BoardTypeView, seats: u64) -> Option<
    BoardTypeVerifyError,
> {
    match board {
        BoardTypeView::Rectangular { rows, columns, goal_locations } => {
            if seats != 2 {
                Some(BoardTypeVerifyError::InvalidSeatCount(seats))
            } else if rows < 1 || rows > MAX_RECTANGULAR_ROWS {
                Some(BoardTypeVerifyError::InvalidRows(rows as usize))
            } else if columns < 2 {
                Some(BoardTypeVerifyError::InvalidColumns(columns as usize))
            } else {
                match first_bad_goal(goal_locations, columns) {
                    Some(location) => Some(
                        BoardTypeVerifyError::InvalidGoalLocation(location as usize),
                    ),
                    None => None,
                }
            }
        },
        BoardTypeView::Custom { grid, columns } => {
            if grid.len() > 255 {
                Some(BoardTypeVerifyError::InvalidRows(grid.len() as usize))
            } else if columns > 255 {
                Some(BoardTypeVerifyError::InvalidColumns(columns as usize))
            } else {
                match bad_goal_in_grid(grid, seats, 0) {
                    Some(space) => Some(BoardTypeVerifyError::InvalidGoalSeat(space)),
                    None => None,
                }
            }
        },
    }
}

/// Whether a board is valid for the given seat count, stated directly: what
/// [`spec_verify_board`] accepts.
pub open spec fn board_valid(board: BoardTypeView, seats: u64) -> bool {
    match board {
        BoardTypeView::Rectangular { rows, columns, goal_locations } => seats == 2 && 1 <= rows
            <= MAX_RECTANGULAR_ROWS && columns >= 2 && forall|i: int|
            0 <= i < goal_locations.len() ==> goal_locations[i] < columns,
        BoardTypeView::Custom { grid, columns } => grid.len() <= 255 && columns <= 255 && forall|
            i: int,
            j: int,
        |
            0 <= i < grid.len() && 0 <= j < grid[i].len() && (#[trigger] grid[i][j]) is Goal
                ==> grid[i][j]->0 < seats,
    }
}

/// Board verification succeeds exactly on valid boards.
pub proof fn lemma_board_valid(board: BoardTypeView, seats: u64)
    ensures
        spec_verify_board(board, seats) is None <==> board_valid(board, seats),
{
    match board {
        BoardTypeView::Rectangular { rows, columns, goal_locations } => {
            if seats == 2 && 1 <= rows <= MAX_RECTANGULAR_ROWS && columns >= 2 {
                lemma_first_bad_goal(goal_locations, columns);
            }
        },
        BoardTypeView::Custom { grid, columns } => {
            if grid.len() <= 255 && columns <= 255 {
                lemma_bad_goal_in_grid(grid, seats, 0);
            }
        },
    }
}

/// The goal-column scan finds nothing exactly when every goal column is below
/// the column count.
proof fn lemma_first_bad_goal(goal_locations: Seq<u8>, columns: u8)
    ensures
        first_bad_goal(goal_locations, columns) is None <==> forall|i: int|
            0 <= i < goal_locations.len() ==> goal_locations[i] < columns,
    decreases goal_locations.len(),
{
    if goal_locations.len() > 0 {
        lemma_first_bad_goal(goal_locations.drop_first(), columns);
        assert(forall|i: int|
            0 < i < goal_locations.len() ==> goal_locations[i] == goal_locations.drop_first()[i
                - 1]);
    }
}

/// The row scan finds nothing exactly when every goal of the row suffix
/// belongs to a declared seat.
proof fn lemma_bad_goal_in_row(row: Seq<Space>, seats: u64, j: int)
    requires
        0 <= j <= row.len(),
    ensures
        bad_goal_in_row(row, seats, j) is None <==> forall|n: int|
            j <= n < row.len() && (#[trigger] row[n]) is Goal ==> row[n]->0 < seats,
    decreases row.len() - j,
{
    if j < row.len() {
        lemma_bad_goal_in_row(row, seats, j + 1);
    }
}

/// The grid scan finds nothing exactly when every goal of the row suffix
/// belongs to a declared seat.
proof fn lemma_bad_goal_in_grid(grid: Seq<Seq<Space>>, seats: u64, i: int)
    requires
        0 <= i <= grid.len(),
    ensures
        bad_goal_in_grid(grid, seats, i) is None <==> forall|n: int, j: int|
            i <= n < grid.len() && 0 <= j < grid[n].len() && (#[trigger] grid[n][j]) is Goal
                ==> grid[n][j]->0 < seats,
    decreases grid.len() - i,
{
    if i < grid.len() {
        lemma_bad_goal_in_row(grid[i], seats, 0);
        lemma_bad_goal_in_grid(grid, seats, i + 1);
    }
}

impl BoardType {
    /// Checks the board against the ruleset's seat count; success implies the
    /// board is well-formed in the machine sense of [`board_wf`].
    #[verifier::loop_isolation(false)]
    pub fn verify(&self, ruleset: &crate::ruleset::Ruleset) -> (result: BoardTypeVerifyResult<()>)
        ensures
            result is Ok <==> board_valid(self@, ruleset.seats),
            match result {
                Ok(_) => spec_verify_board(self@, ruleset.seats) is None && board_wf(self@),
                Err(e) => Some(e) == spec_verify_board(self@, ruleset.seats),
            },
    {
        proof {
            lemma_board_valid(self@, ruleset.seats);
        }
        match self {
            BoardType::Rectangular { rows, columns, goal_locations } => {
                if ruleset.seats != 2 {
                    return Err(BoardTypeVerifyError::InvalidSeatCount(ruleset.seats));
                }
                if *rows < 1 || *rows > MAX_RECTANGULAR_ROWS {
                    return Err(BoardTypeVerifyError::InvalidRows(*rows as usize));
                }
                if *columns < 2 {
                    return Err(BoardTypeVerifyError::InvalidColumns(*columns as usize));
                }
                let ghost goals = goal_locations@;
                proof {
                    assert(goals.skip(0) =~= goals);
                }
                let mut k: usize = 0;
                while k < goal_locations.len()
                    invariant
                        k <= goals.len(),
                        goals == goal_locations@,
                        first_bad_goal(goals, *columns) == first_bad_goal(
                            goals.skip(k as int),
                            *columns,
                        ),
                    decreases goals.len() - k,
                {
                    proof {
                        assert(goals.skip(k as int)[0] == goals[k as int]);
                        assert(goals.skip(k as int).drop_first() =~= goals.skip(k + 1));
                    }
                    let location = goal_locations[k];
                    if location >= *columns {
                        return Err(BoardTypeVerifyError::InvalidGoalLocation(location as usize));
                    }
                    k = k + 1;
                }
                Ok(())
            },
            BoardType::Custom(grid) => {
                let nrows = grid.nrows();
                let ncols = grid.ncols();
                if nrows > 255 {
                    return Err(BoardTypeVerifyError::InvalidRows(nrows));
                }
                if ncols > 255 {
                    return Err(BoardTypeVerifyError::InvalidColumns(ncols));
                }
                let ghost cells = grid_seq(*grid);
                let mut i: usize = 0;
                while i < nrows
                    invariant
                        i <= nrows,
                        nrows == cells.len(),
                        ncols == grid_cols(*grid),
                        forall|n: int|
                            0 <= n < cells.len() ==> (#[trigger] cells[n]).len() == ncols,
                        cells == grid_seq(*grid),
                        bad_goal_in_grid(cells, ruleset.seats, 0) == bad_goal_in_grid(
                            cells,
                            ruleset.seats,
                            i as int,
                        ),
                    decreases nrows - i,
                {
                    let mut j: usize = 0;
                    while j < ncols
                        invariant
                            i < nrows,
                            j <= ncols,
                            nrows == cells.len(),
                            ncols == grid_cols(*grid),
                            forall|n: int|
                                0 <= n < cells.len() ==> (#[trigger] cells[n]).len() == ncols,
                            cells == grid_seq(*grid),
                            bad_goal_in_grid(cells, ruleset.seats, 0) == (
                            match bad_goal_in_row(cells[i as int], ruleset.seats, j as int) {
                                Some(space) => Some(space),
                                None => bad_goal_in_grid(cells, ruleset.seats, i + 1),
                            }),
                        decreases ncols - j,
                    {
                        let space = grid.get(i, j);
                        if let Space::Goal(seat) = space {
                            if seat >= ruleset.seats {
                                return Err(BoardTypeVerifyError::InvalidGoalSeat(space));
                            }
                        }
                        j = j + 1;
                    }
                    i = i + 1;
                }
                Ok(())
            },
        }
    }

    /// The space the coordinate resolves to; `Invalid` when it is out of
    /// range.
    pub fn get_space(&self, coordinate: Coordinate) -> (r: Space)
        requires
            board_wf(self@),
        ensures
            r == spec_get_space(self@, coordinate),
    {
        match self {
            BoardType::Rectangular { rows, columns, goal_locations } => {
                if coordinate.row < 0 || coordinate.row >= *rows as i16 + 2 || coordinate.column
                    < 0 || coordinate.column >= *columns as i16 {
                    Space::Invalid
                } else if coordinate.row == 0 || coordinate.row == *rows as i16 + 1 {
                    if contains_u8(goal_locations, coordinate.column as u8) {
                        Space::Goal(
                            if coordinate.row == 0 {
                                1
                            } else {
                                0
                            },
                        )
                    } else {
                        Space::Invalid
                    }
                } else {
                    Space::Normal
                }
            },
            BoardType::Custom(grid) => {
                let nrows = grid.nrows();
                let ncols = grid.ncols();
                if coordinate.row < 0 || coordinate.row as usize >= nrows || coordinate.column < 0
                    || coordinate.column as usize >= ncols {
                    Space::Invalid
                } else {
                    grid.get(coordinate.row as usize, coordinate.column as usize)
                }
            },
        }
    }

    /// The total number of rows, the synthesized goal rows included.
    pub fn rows(&self) -> (r: u8)
        requires
            board_wf(self@),
        ensures
            r as int == board_rows(self@),
    {
        match self {
            BoardType::Rectangular { rows, .. } => *rows + 2,
            BoardType::Custom(grid) => grid.nrows() as u8,
        }
    }

    /// The number of columns.
    pub fn columns(&self) -> (r: u8)
        requires
            board_wf(self@),
        ensures
            r as int == board_columns(self@),
    {
        match self {
            BoardType::Rectangular { columns, .. } => *columns,
            BoardType::Custom(grid) => grid.ncols() as u8,
        }
    }

    /// Whether any space of the board is a goal.
    #[verifier::loop_isolation(false)]
    pub fn has_goal(&self) -> (r: bool)
        requires
            board_wf(self@),
        ensures
            r == spec_has_goal(self@),
    {
        match self {
            BoardType::Rectangular { goal_locations, .. } => goal_locations.len() > 0,
            BoardType::Custom(grid) => {
                let nrows = grid.nrows();
                let ncols = grid.ncols();
                let ghost cells = grid_seq(*grid);
                let mut row: usize = 0;
                while row < nrows
                    invariant
                        nrows == cells.len(),
                        ncols == grid_cols(*grid),
                        forall|i: int|
                            0 <= i < cells.len() ==> (#[trigger] cells[i]).len() == ncols,
                        cells == grid_seq(*grid),
                        row <= nrows,
                        forall|i: int, j: int|
                            0 <= i < row && 0 <= j < ncols ==> !((#[trigger] cells[i][j]) is Goal),
                    decreases nrows - row,
                {
                    let mut column: usize = 0;
                    while column < ncols
                        invariant
                            nrows == cells.len(),
                            ncols == grid_cols(*grid),
                            forall|i: int|
                                0 <= i < cells.len() ==> (#[trigger] cells[i]).len() == ncols,
                            cells == grid_seq(*grid),
                            row < nrows,
                            column <= ncols,
                            forall|i: int, j: int|
                                0 <= i < row && 0 <= j < ncols ==> !(
                                (#[trigger] cells[i][j]) is Goal),
                            forall|j: int|
                                0 <= j < column ==> !((#[trigger] cells[row as int][j]) is Goal),
                        decreases ncols - column,
                    {
                        if let Space::Goal(_) = grid.get(row, column) {
                            assert(cells[row as int][column as int] is Goal);
                            return true;
                        }
                        column = column + 1;
                    }
                    row = row + 1;
                }
                false
            },
        }
    }
}

pub type BoardTypeVerifyResult<T> = Result<T, BoardTypeVerifyError>;

/// A failed board check.
#[derive(Copy, Clone, Debug, Hash, PartialEq, Eq, Structural)]
pub enum BoardTypeVerifyError {
    InvalidRows(usize),
    InvalidColumns(usize),
    InvalidGoalLocation(usize),
    InvalidGoalSeat(Space),
    InvalidSeatCount(u64),
}

/// On a well-formed, valid board, `has_goal` holds exactly when some
/// coordinate resolves to a goal space.
pub proof fn lemma_has_goal_reachable(board: BoardTypeView, seats: u64)
    requires
        board_wf(board),
        board_valid(board, seats),
    ensures
        spec_has_goal(board) <==> exists|c: Coordinate| (#[trigger] spec_get_space(board, c)) is Goal,
{
    match board {
        BoardTypeView::Rectangular { rows, columns, goal_locations } => {
            if goal_locations.len() > 0 {
                let c = Coordinate { row: 0i16, column: goal_locations[0] as i16 };
                assert(goal_locations.contains(goal_locations[0]));
                assert(spec_get_space(board, c) is Goal);
            }
            if exists|c: Coordinate| (#[trigger] spec_get_space(board, c)) is Goal {
                let c = choose|c: Coordinate| (#[trigger] spec_get_space(board, c)) is Goal;
                assert(goal_locations.contains(c.column as u8));
            }
        },
        BoardTypeView::Custom { grid, columns } => {
            if spec_has_goal(board) {
                let (i, j) = choose|i: int, j: int|
                    0 <= i < grid.len() && 0 <= j < grid[i].len() && (#[trigger] grid[i][j]) is Goal;
                let c = Coordinate { row: i as i16, column: j as i16 };
                assert(spec_get_space(board, c) is Goal);
            }
            if exists|c: Coordinate| (#[trigger] spec_get_space(board, c)) is Goal {
                let c = choose|c: Coordinate| (#[trigger] spec_get_space(board, c)) is Goal;
                assert(grid[c.row as int][c.column as int] is Goal);
            }
        },
    }
}

/// For any board and any coordinate whose row is in range, flipping twice
/// about the horizontal axis gives the coordinate back.
pub proof fn lemma_board_flip_involution(board: BoardTypeView, c: Coordinate)
    requires
        board_wf(board),
        0 <= c.row < board_rows(board),
    ensures
        crate::coordinate::spec_flip(
            board_rows(board),
            crate::coordinate::spec_flip(board_rows(board), c),
        ) == c,
{
    crate::coordinate::lemma_flip_involution(board_rows(board), c);
}

/// For any board and any in-range coordinate, rotating twice by 180 degrees
/// gives the coordinate back.
pub proof fn lemma_board_rotate_involution(board: BoardTypeView, c: Coordinate)
    requires
        board_wf(board),
        0 <= c.row < board_rows(board),
        0 <= c.column < board_columns(board),
    ensures
        crate::coordinate::spec_rotate(
            board_rows(board),
            board_columns(board),
            crate::coordinate::spec_rotate(board_rows(board), board_columns(board), c),
        ) == c,
{
    crate::coordinate::lemma_rotate_involution(board_rows(board), board_columns(board), c);
}

/// Whether a byte vector holds a given value.
#[verifier::loop_isolation(false)]
pub fn contains_u8(values: &Vec<u8>, value: u8) -> (r: bool)
    ensures
        r == values@.contains(value),
{
    let mut k: usize = 0;
    while k < values.len()
        invariant
            k <= values@.len(),
            forall|i: int| 0 <= i < k ==> values@[i] != value,
        decreases values@.len() - k,
    {
        if values[k] == value {
            return true;
        }
        k = k + 1;
    }
    false
}

} // verus!
