//! Whether a cell lies in a range.

use vstd::prelude::*;
use crate::a1::cell_ref_coord::CellRefCoord;
use crate::a1::ref_range_bounds::{RefRangeBounds, Span};
use crate::grid::Pos;

verus! {

/// Whether position `p` lies between `start` and `end` on their axis.
pub(crate) fn axis_contains(start: &CellRefCoord, end: &CellRefCoord, p: i64) -> (r: bool)
    ensures
        r == (Span { lo: start.bound(), hi: end.bound() }).has(p as int),
{
    (start.is_unbounded() || start.coord <= p) && (end.is_unbounded() || p <= end.coord)
}

impl RefRangeBounds {
    /// Whether the cell at column `col` and row `row` lies in the range: on
    /// each axis it is not before the start and not behind the end, and a
    /// side without a bound lets everything pass.
    pub fn contains(&self, col: i64, row: i64) -> (r: bool)
        ensures
            r == self@.has(col as int, row as int),
    {
        axis_contains(&self.start.col, &self.end.col, col) && axis_contains(
            &self.start.row,
            &self.end.row,
            row,
        )
    }

    /// Whether the cell at `pos` lies in the range.
    pub fn contains_pos(&self, pos: Pos) -> (r: bool)
        ensures
            r == self@.has(pos.x as int, pos.y as int),
    {
        self.contains(pos.x, pos.y)
    }
}

} // verus!
