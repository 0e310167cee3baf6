//! Two-dimensional signed board coordinates and the two symmetry transforms
//! (flip about the horizontal axis, 180-degree rotation) used to check
//! mirrored layouts.

use vstd::prelude::*;

verus! {

/// A 2-D coordinate. A coordinate is a plain value with no intrinsic
/// invariant; whether it is meaningful depends on the board it is read
/// against.
#[derive(Copy, Clone, Debug, Hash, PartialEq, Eq, Structural)]
pub struct Coordinate {
    pub row: i16,
    pub column: i16,
}

impl Coordinate {
    pub fn new(row: i16, column: i16) -> (r: Self)
        ensures
            r == (Coordinate { row, column }),
    {
        Self { row, column }
    }

    pub fn to_tuple(self) -> (r: (usize, usize))
        requires
            self.row >= 0,
            self.column >= 0,
        ensures
            r.0 == self.row as usize,
            r.1 == self.column as usize,
    {
        (self.row as usize, self.column as usize)
    }

    /// Component-wise addition.
    pub fn add(self, rhs: Self) -> (r: Self)
        requires
            i16::MIN <= self.row + rhs.row <= i16::MAX,
            i16::MIN <= self.column + rhs.column <= i16::MAX,
        ensures
            r.row == self.row + rhs.row,
            r.column == self.column + rhs.column,
    {
        Self { row: self.row + rhs.row, column: self.column + rhs.column }
    }

    /// Component-wise subtraction.
    pub fn sub(self, rhs: Self) -> (r: Self)
        requires
            i16::MIN <= self.row - rhs.row <= i16::MAX,
            i16::MIN <= self.column - rhs.column <= i16::MAX,
        ensures
            r.row == self.row - rhs.row,
            r.column == self.column - rhs.column,
    {
        Self { row: self.row - rhs.row, column: self.column - rhs.column }
    }

    /// Scaling by a signed scalar.
    pub fn mul(self, rhs: i16) -> (r: Self)
        requires
            i16::MIN <= self.row * rhs <= i16::MAX,
            i16::MIN <= self.column * rhs <= i16::MAX,
        ensures
            r.row == self.row * rhs,
            r.column == self.column * rhs,
    {
        Self { row: self.row * rhs, column: self.column * rhs }
    }
}

/// The flip image of `c` on a board with `rows` rows: the row is reflected
/// about the horizontal center line, the column is unchanged.
pub open spec fn spec_flip(rows: int, c: Coordinate) -> Coordinate {
    Coordinate { row: (rows - c.row - 1) as i16, column: c.column }
}

/// The 180-degree rotation image of `c` on a board with `rows` rows and
/// `columns` columns.
pub open spec fn spec_rotate(rows: int, columns: int, c: Coordinate) -> Coordinate {
    Coordinate {
        row: (rows - c.row - 1) as i16,
        column: (columns - c.column - 1) as i16,
    }
}

/// The flip image of a coordinate on the given board.
pub fn flip_coordinate(board: &crate::board_type::BoardType, coordinate: Coordinate) -> (r:
    Coordinate)
    requires
        crate::board_type::board_wf(board@),
        i16::MIN <= crate::board_type::board_rows(board@) - coordinate.row - 1 <= i16::MAX,
    ensures
        r == spec_flip(crate::board_type::board_rows(board@), coordinate),
{
    let row: i32 = board.rows() as i32 - coordinate.row as i32 - 1;
    Coordinate::new(row as i16, coordinate.column)
}

/// The 180-degree rotation image of a coordinate on the given board.
pub fn rotate_coordinate(board: &crate::board_type::BoardType, coordinate: Coordinate) -> (r:
    Coordinate)
    requires
        crate::board_type::board_wf(board@),
        i16::MIN <= crate::board_type::board_rows(board@) - coordinate.row - 1 <= i16::MAX,
        i16::MIN <= crate::board_type::board_columns(board@) - coordinate.column - 1 <= i16::MAX,
    ensures
        r == spec_rotate(
            crate::board_type::board_rows(board@),
            crate::board_type::board_columns(board@),
            coordinate,
        ),
{
    let row: i32 = board.rows() as i32 - coordinate.row as i32 - 1;
    let column: i32 = board.columns() as i32 - coordinate.column as i32 - 1;
    Coordinate::new(row as i16, column as i16)
}

/// Flipping twice about the same axis gives the coordinate back, for any
/// coordinate whose row is in range for the board.
pub proof fn lemma_flip_involution(rows: int, c: Coordinate)
    requires
        0 <= rows <= u8::MAX,
        0 <= c.row < rows,
    ensures
        spec_flip(rows, spec_flip(rows, c)) == c,
{
}

/// Rotating twice by 180 degrees gives the coordinate back, for any in-range
/// coordinate.
pub proof fn lemma_rotate_involution(rows: int, columns: int, c: Coordinate)
    requires
        0 <= rows <= u8::MAX,
        0 <= columns <= u8::MAX,
        0 <= c.row < rows,
        0 <= c.column < columns,
    ensures
        spec_rotate(rows, columns, spec_rotate(rows, columns, c)) == c,
{
}

} // verus!
