//! Sizes and positions on the screen.

use vstd::prelude::*;

verus! {

/// Size of a rectangle of the screen, in rows and columns.
#[derive(Copy, Clone, Debug, PartialEq, Eq, Structural)]
pub struct Size {
    pub height: usize,
    pub width: usize,
}

/// A cell of the screen, or of the unbounded canvas on which a document is laid out.
#[derive(Copy, Clone, Debug, PartialEq, Eq, Structural)]
pub struct Position {
    pub col: usize,
    pub row: usize,
}

impl Default for Position {
    fn default() -> (r: Self)
        ensures
            r == (Position { col: 0, row: 0 }),
    {
        Position { col: 0, row: 0 }
    }
}

} // verus!
