//! Making ranges.

use vstd::prelude::*;
use crate::a1::cell_ref_coord::CellRefCoord;
use crate::a1::cell_ref_range_end::CellRefRangeEnd;
use crate::a1::ref_range_bounds::{in_order, RefRangeBounds};
use crate::grid::{Pos, Rect};

verus! {

/// The relative coordinate at `n`.
pub open spec fn rel(n: i64) -> CellRefCoord {
    CellRefCoord { coord: n, is_absolute: false }
}

/// The relative corner at column `x` and row `y`.
pub open spec fn rel_xy(x: i64, y: i64) -> CellRefRangeEnd {
    CellRefRangeEnd { col: rel(x), row: rel(y) }
}

impl RefRangeBounds {
    /// The range between two corners, whichever way round they are given: on
    /// an axis where both name a position and the first lies behind the
    /// second, the two coordinates change places.
    pub open spec fn spec_new(start: CellRefRangeEnd, end: CellRefRangeEnd) -> RefRangeBounds {
        let cols_swap = !in_order(start.col, end.col);
        let rows_swap = !in_order(start.row, end.row);
        RefRangeBounds {
            start: CellRefRangeEnd {
                col: if cols_swap {
                    end.col
                } else {
                    start.col
                },
                row: if rows_swap {
                    end.row
                } else {
                    start.row
                },
            },
            end: CellRefRangeEnd {
                col: if cols_swap {
                    start.col
                } else {
                    end.col
                },
                row: if rows_swap {
                    start.row
                } else {
                    end.row
                },
            },
        }
    }

    /// The range that covers the whole sheet.
    pub open spec fn spec_all() -> RefRangeBounds {
        RefRangeBounds { start: CellRefRangeEnd::start(), end: CellRefRangeEnd::unbounded() }
    }

    /// The range that covers the whole sheet.
    #[verifier::when_used_as_spec(spec_all)]
    pub fn all() -> (r: RefRangeBounds)
        ensures
            r == Self::spec_all(),
            r.wf(),
    {
        RefRangeBounds { start: CellRefRangeEnd::start(), end: CellRefRangeEnd::unbounded() }
    }

    /// The range between two corners, whichever way round they are given.
    #[verifier::when_used_as_spec(spec_new)]
    pub fn new(start: CellRefRangeEnd, end: CellRefRangeEnd) -> (r: RefRangeBounds)
        ensures
            r == Self::spec_new(start, end),
            start.wf() && end.wf() ==> r.wf(),
    {
        let cols_swap = !start.col.is_unbounded() && !end.col.is_unbounded() && start.col.coord
            > end.col.coord;
        let rows_swap = !start.row.is_unbounded() && !end.row.is_unbounded() && start.row.coord
            > end.row.coord;
        RefRangeBounds {
            start: CellRefRangeEnd {
                col: if cols_swap {
                    end.col
                } else {
                    start.col
                },
                row: if rows_swap {
                    end.row
                } else {
                    start.row
                },
            },
            end: CellRefRangeEnd {
                col: if cols_swap {
                    start.col
                } else {
                    end.col
                },
                row: if rows_swap {
                    start.row
                } else {
                    end.row
                },
            },
        }
    }

    /// The range of the single cell at `pos`.
    pub fn new_relative_pos(pos: Pos) -> (r: RefRangeBounds)
        requires
            1 <= pos.x,
            1 <= pos.y,
        ensures
            r.start == rel_xy(pos.x, pos.y),
            r.end == r.start,
            r.wf(),
    {
        let corner = CellRefRangeEnd::new_relative_xy(pos.x, pos.y);
        RefRangeBounds { start: corner, end: corner }
    }

    /// The rectangle between the relative corners at (`start_col`,
    /// `start_row`) and (`end_col`, `end_row`), whichever way round they are
    /// given.
    pub fn new_relative(start_col: i64, start_row: i64, end_col: i64, end_row: i64) -> (r:
        RefRangeBounds)
        requires
            1 <= start_col,
            1 <= start_row,
            1 <= end_col,
            1 <= end_row,
        ensures
            r == Self::spec_new(rel_xy(start_col, start_row), rel_xy(end_col, end_row)),
            r.wf(),
    {
        Self::new(
            CellRefRangeEnd::new_relative_xy(start_col, start_row),
            CellRefRangeEnd::new_relative_xy(end_col, end_row),
        )
    }

    /// The range that covers the cells of `rect`.
    pub fn new_relative_rect(rect: Rect) -> (r: RefRangeBounds)
        requires
            rect.wf(),
        ensures
            r.start == rel_xy(rect.min.x, rect.min.y),
            r.end == rel_xy(rect.max.x, rect.max.y),
            r.wf(),
            r.finite(),
    {
        RefRangeBounds {
            start: CellRefRangeEnd::new_relative_xy(rect.min.x, rect.min.y),
            end: CellRefRangeEnd::new_relative_xy(rect.max.x, rect.max.y),
        }
    }

    /// The whole of row `row`.
    pub fn new_infinite_row(row: i64) -> (r: RefRangeBounds)
        requires
            1 <= row,
        ensures
            r.start == rel_xy(1, row),
            r.end == (CellRefRangeEnd { col: CellRefCoord::unbounded(), row: rel(row) }),
            r.wf(),
    {
        RefRangeBounds {
            start: CellRefRangeEnd::new_relative_xy(1, row),
            end: CellRefRangeEnd::new_infinite_row_end(row),
        }
    }

    /// The whole rows between `start_row` and `end_row`, whichever way round
    /// they are given.
    pub fn new_infinite_rows(start_row: i64, end_row: i64) -> (r: RefRangeBounds)
        requires
            1 <= start_row,
            1 <= end_row,
        ensures
            r == Self::spec_new(
                rel_xy(1, start_row),
                CellRefRangeEnd { col: CellRefCoord::unbounded(), row: rel(end_row) },
            ),
            r.wf(),
    {
        Self::new(
            CellRefRangeEnd::new_relative_xy(1, start_row),
            CellRefRangeEnd::new_infinite_row_end(end_row),
        )
    }

    /// The whole of column `col`.
    pub fn new_infinite_col(col: i64) -> (r: RefRangeBounds)
        requires
            1 <= col,
        ensures
            r.start == rel_xy(col, 1),
            r.end == (CellRefRangeEnd { col: rel(col), row: CellRefCoord::unbounded() }),
            r.wf(),
    {
        RefRangeBounds {
            start: CellRefRangeEnd::new_relative_xy(col, 1),
            end: CellRefRangeEnd::new_infinite_col_end(col),
        }
    }

    /// The whole columns between `start_col` and `end_col`, whichever way
    /// round they are given.
    pub fn new_infinite_cols(start_col: i64, end_col: i64) -> (r: RefRangeBounds)
        requires
            1 <= start_col,
            1 <= end_col,
        ensures
            r == Self::spec_new(
                rel_xy(start_col, 1),
                CellRefRangeEnd { col: rel(end_col), row: CellRefCoord::unbounded() },
            ),
            r.wf(),
    {
        Self::new(
            CellRefRangeEnd::new_relative_xy(start_col, 1),
            CellRefRangeEnd::new_infinite_col_end(end_col),
        )
    }

    /// Whether the range is well formed.
    pub fn is_valid(&self) -> (r: bool)
        ensures
            r == self.wf(),
    {
        self.start.is_valid() && self.end.is_valid() && (self.start.col.is_unbounded()
            || self.end.col.is_unbounded() || self.start.col.coord <= self.end.col.coord) && (
        self.start.row.is_unbounded() || self.end.row.is_unbounded() || self.start.row.coord
            <= self.end.row.coord)
    }
}

/// Putting two corners in order gives a range in order, and leaves a range
/// that is in order as it is.
pub proof fn lemma_new_in_order(start: CellRefRangeEnd, end: CellRefRangeEnd)
    ensures
        in_order(RefRangeBounds::spec_new(start, end).start.col, RefRangeBounds::spec_new(start, end).end.col),
        in_order(RefRangeBounds::spec_new(start, end).start.row, RefRangeBounds::spec_new(start, end).end.row),
        start.wf() && end.wf() ==> RefRangeBounds::spec_new(start, end).wf(),
        in_order(start.col, end.col) && in_order(start.row, end.row) ==> RefRangeBounds::spec_new(
            start,
            end,
        ) == (RefRangeBounds { start, end }),
{
}

} // verus!
