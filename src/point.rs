use vstd::prelude::*;

verus! {

/// A position in a text, as a row and a column.
#[derive(Clone, Copy, Debug, PartialEq, Eq, Structural)]
pub struct Point {
    pub row: usize,
    pub column: usize,
}

impl Point {
    pub fn new(row: usize, column: usize) -> (r: Point)
        ensures
            r.row == row,
            r.column == column,
    {
        Point { row, column }
    }
}

/// A position as the parsing engine reports it, in 32-bit fields.
#[derive(Clone, Copy, Debug, PartialEq, Eq, Structural)]
pub struct RawPoint {
    pub row: u32,
    pub column: u32,
}

impl Point {
    /// The same position, with the same row and column.
    pub open spec fn of_raw(p: RawPoint) -> Point {
        Point { row: p.row as usize, column: p.column as usize }
    }

    pub fn from_raw(p: RawPoint) -> (r: Point)
        ensures
            r == Point::of_raw(p),
    {
        Point { row: p.row as usize, column: p.column as usize }
    }
}

} // verus!
