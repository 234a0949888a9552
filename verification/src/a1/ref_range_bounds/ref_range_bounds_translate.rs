//! Moving a range when rows or columns are inserted or deleted before it.
//!
//! Every coordinate that names a position moves, absolute or relative alike:
//! a `$` fixes a coordinate when a formula is copied, not when the sheet
//! under it changes shape. The `$` itself is kept. A side without a bound
//! stays without one.

use vstd::prelude::*;
use crate::a1::a1_error::{A1Error, A1ErrorView};
use crate::a1::cell_ref_coord::UNBOUNDED;
use crate::a1::ref_range_bounds::RefRangeBounds;

verus! {

impl RefRangeBounds {
    /// The range moved by `dx` columns and `dy` rows, or `None` where one of
    /// its coordinates would leave the sheet: land before position 1, or at
    /// or beyond [`UNBOUNDED`].
    pub open spec fn shifted(self, dx: int, dy: int) -> Option<RefRangeBounds> {
        match (self.start.shifted(dx, dy), self.end.shifted(dx, dy)) {
            (Some(start), Some(end)) => Some(RefRangeBounds { start, end }),
            _ => None,
        }
    }

    /// Moves the range by `delta_col` columns and `delta_row` rows. Where a
    /// coordinate would leave the sheet nothing is clamped: the call fails
    /// and hands back the text of the range.
    pub fn translate(&self, delta_col: i64, delta_row: i64) -> (r: Result<RefRangeBounds, A1Error>)
        ensures
            match self.shifted(delta_col as int, delta_row as int) {
                Some(moved) => r == Ok::<RefRangeBounds, A1Error>(moved),
                None => r is Err && r->Err_0@ == A1ErrorView::OutOfBounds(self.text()),
            },
    {
        match self.start.translate(delta_col, delta_row) {
            Some(start) => match self.end.translate(delta_col, delta_row) {
                Some(end) => {
                    return Ok(RefRangeBounds { start, end });
                },
                None => {},
            },
            None => {},
        }
        Err(A1Error::OutOfBounds(self.to_string()))
    }
}

/// Moving a well-formed range and then moving it back by the same amounts
/// gives the range that one started with.
pub proof fn lemma_translate_back(r: RefRangeBounds, dx: int, dy: int)
    requires
        r.wf(),
        r.shifted(dx, dy) is Some,
    ensures
        r.shifted(dx, dy)->0.shifted(-dx, -dy) == Some(r),
{
}

/// A moved range covers the cells of the original, each moved by the same
/// amounts, and is well formed if the original is.
pub proof fn lemma_translate_extent(r: RefRangeBounds, dx: int, dy: int)
    requires
        r.shifted(dx, dy) is Some,
    ensures
        r.shifted(dx, dy)->0@ == r@.moved(dx, dy),
        forall|x: int, y: int| r@.has(x, y) <==> #[trigger] r.shifted(dx, dy)->0@.has(x + dx, y + dy),
        r.wf() ==> r.shifted(dx, dy)->0.wf(),
{
}

} // verus!
