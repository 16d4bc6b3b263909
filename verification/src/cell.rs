use vstd::prelude::*;

use crate::attr::{plain_attr, Attr};

verus! {

/// A single cell in the terminal grid.
#[derive(Debug, Clone, Copy, PartialEq, Eq, Structural)]
pub struct Cell {
    /// The character displayed in this cell.
    pub c: char,
    /// Visual attributes (color, bold, etc.).
    pub attr: Attr,
    /// Width of this cell (1 for normal, 2 for wide chars).
    /// A wide char occupies this cell (width=2) and the next cell (width=0).
    pub width: u8,
    /// Whether this cell has been modified since last render.
    pub dirty: bool,
}

/// A blank cell as written by a reset: a space with plain attributes,
/// width one, marked dirty.
pub open spec fn blank_cell() -> Cell {
    Cell { c: ' ', attr: plain_attr(), width: 1, dirty: true }
}

impl Default for Cell {
    fn default() -> (cell: Self)
        ensures
            cell == blank_cell(),
    {
        Cell { c: ' ', attr: Attr::default(), width: 1, dirty: true }
    }
}

impl Cell {
    /// Reset the cell to a blank, dirty space.
    pub fn reset(&mut self)
        ensures
            *final(self) == blank_cell(),
    {
        *self = Self::default();
    }
}

} // verus!
