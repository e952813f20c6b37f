//! Logical grid positions used by the editing surface.

use vstd::prelude::*;

verus! {

/// A logical (row, col) position on the editing grid.
///
/// Logical positions are derived from the physical geometry by the visual
/// mapping; they are not electrical matrix addresses.
#[derive(Clone, Copy, Debug, PartialEq, Eq, Structural)]
pub struct Position {
    pub row: u8,
    pub col: u8,
}

impl Position {
    /// Creates a position from its row and column.
    pub fn new(row: u8, col: u8) -> (p: Position)
        ensures
            p.row == row,
            p.col == col,
    {
        Position { row, col }
    }
}

} // verus!
