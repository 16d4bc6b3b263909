use vstd::prelude::*;

verus! {

/// A point in grid coordinates.
#[derive(Debug, Clone, Copy, PartialEq, Eq, Structural)]
pub struct GridPoint {
    pub row: usize,
    pub col: usize,
}

/// `a` comes no later than `b` in reading order (row first, then column).
pub open spec fn at_or_before(a: GridPoint, b: GridPoint) -> bool {
    a.row < b.row || (a.row == b.row && a.col <= b.col)
}

/// The normalized range of a selection given its anchor and end:
/// `(start_row, start_col, end_row, end_col)` with the start no later than
/// the end, or nothing when either point is missing or they coincide.
pub open spec fn selection_range(anchor: Option<GridPoint>, end: Option<GridPoint>) -> Option<
    (usize, usize, usize, usize),
> {
    match (anchor, end) {
        (Some(a), Some(e)) => if a == e {
            None
        } else if at_or_before(a, e) {
            Some((a.row, a.col, e.row, e.col))
        } else {
            Some((e.row, e.col, a.row, a.col))
        },
        _ => None,
    }
}

/// Whether `(row, col)` lies in the range: at or after its start and
/// strictly before its end, in reading order.
pub open spec fn range_contains(
    range: Option<(usize, usize, usize, usize)>,
    row: usize,
    col: usize,
) -> bool {
    match range {
        Some((sr, sc, er, ec)) => {
            &&& at_or_before(GridPoint { row: sr, col: sc }, GridPoint { row, col })
            &&& !at_or_before(GridPoint { row: er, col: ec }, GridPoint { row, col })
        },
        None => false,
    }
}

/// Text selection state.
#[derive(Debug, Clone)]
pub struct Selection {
    /// Anchor point (where mousedown happened).
    anchor: Option<GridPoint>,
    /// Current end point (where mouse is now).
    end: Option<GridPoint>,
}

impl View for Selection {
    /// The anchor and the end point.
    type V = (Option<GridPoint>, Option<GridPoint>);

    closed spec fn view(&self) -> (Option<GridPoint>, Option<GridPoint>) {
        (self.anchor, self.end)
    }
}

impl Selection {
    pub fn new() -> (s: Self)
        ensures
            s@ == (None::<GridPoint>, None::<GridPoint>),
    {
        Self { anchor: None, end: None }
    }

    /// Start a new selection at the given point.
    pub fn start(&mut self, row: usize, col: usize)
        ensures
            final(self)@ == (Some(GridPoint { row, col }), Some(GridPoint { row, col })),
    {
        self.anchor = Some(GridPoint { row, col });
        self.end = Some(GridPoint { row, col });
    }

    /// Update the selection endpoint (mouse drag).
    pub fn update(&mut self, row: usize, col: usize)
        ensures
            final(self)@ == (old(self)@.0, Some(GridPoint { row, col })),
    {
        self.end = Some(GridPoint { row, col });
    }

    /// Clear the selection.
    pub fn clear(&mut self)
        ensures
            final(self)@ == (None::<GridPoint>, None::<GridPoint>),
    {
        self.anchor = None;
        self.end = None;
    }

    /// Whether a selection is active: both points set and distinct.
    pub fn is_active(&self) -> (b: bool)
        ensures
            b == (selection_range(self@.0, self@.1) is Some),
    {
        if let (Some(a), Some(e)) = (self.anchor, self.end) {
            a != e
        } else {
            false
        }
    }

    /// Get the normalized selection range (start <= end).
    /// Returns (start_row, start_col, end_row, end_col).
    pub fn range(&self) -> (r: Option<(usize, usize, usize, usize)>)
        ensures
            r == selection_range(self@.0, self@.1),
    {
        let (a, e) = match (self.anchor, self.end) {
            (Some(a), Some(e)) => (a, e),
            _ => return None,
        };
        if a == e {
            return None;
        }
        let (start, end) = if a.row < e.row || (a.row == e.row && a.col <= e.col) {
            (a, e)
        } else {
            (e, a)
        };
        Some((start.row, start.col, end.row, end.col))
    }

    /// Check if a cell at (row, col) is within the selection.
    pub fn contains(&self, row: usize, col: usize) -> (b: bool)
        ensures
            b == range_contains(selection_range(self@.0, self@.1), row, col),
    {
        let (sr, sc, er, ec) = match self.range() {
            Some(r) => r,
            None => return false,
        };
        if row < sr || row > er {
            return false;
        }
        if row == sr && row == er {
            return col >= sc && col < ec;
        }
        if row == sr {
            return col >= sc;
        }
        if row == er {
            return col < ec;
        }
        true  // middle rows are fully selected
    }
}

/// The range of a selection starts no later than it ends.
pub proof fn lemma_range_ordered(anchor: Option<GridPoint>, end: Option<GridPoint>)
    ensures
        selection_range(anchor, end) matches Some((sr, sc, er, ec)) ==> at_or_before(
            GridPoint { row: sr, col: sc },
            GridPoint { row: er, col: ec },
        ),
{
}

/// Dragging backwards selects the same cells as dragging forwards: the
/// range does not depend on which point is the anchor.
pub proof fn lemma_range_symmetric(a: GridPoint, e: GridPoint)
    ensures
        selection_range(Some(a), Some(e)) == selection_range(Some(e), Some(a)),
{
}

/// A selection holds its start cell and never its end cell.
pub proof fn lemma_range_half_open(anchor: Option<GridPoint>, end: Option<GridPoint>)
    ensures
        selection_range(anchor, end) matches Some((sr, sc, er, ec)) ==> {
            &&& range_contains(selection_range(anchor, end), sr, sc)
            &&& !range_contains(selection_range(anchor, end), er, ec)
        },
{
}

} // verus!
