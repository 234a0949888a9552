//! The bounds of a range of cells: two corners, with sides that may run on
//! to the edge of the sheet.

use vstd::prelude::*;
use crate::a1::cell_ref_coord::CellRefCoord;
use crate::a1::cell_ref_range_end::CellRefRangeEnd;

pub mod ref_range_bounds_contains;
pub mod ref_range_bounds_create;
pub mod ref_range_bounds_display;
pub mod ref_range_bounds_intersection;
pub mod ref_range_bounds_parse;
pub mod ref_range_bounds_query;
pub mod ref_range_bounds_translate;

verus! {

/// A stretch of positions along one axis. A side without a bound runs on
/// without end.
pub struct Span {
    pub lo: Option<int>,
    pub hi: Option<int>,
}

/// The greater of two lower bounds, where no bound is the least of all.
pub open spec fn higher(a: Option<int>, b: Option<int>) -> Option<int> {
    match (a, b) {
        (None, _) => b,
        (_, None) => a,
        (Some(x), Some(y)) => Some(
            if x >= y {
                x
            } else {
                y
            },
        ),
    }
}

/// The lesser of two upper bounds, where no bound is the greatest of all.
pub open spec fn lower(a: Option<int>, b: Option<int>) -> Option<int> {
    match (a, b) {
        (None, _) => b,
        (_, None) => a,
        (Some(x), Some(y)) => Some(
            if x <= y {
                x
            } else {
                y
            },
        ),
    }
}

impl Span {
    /// Position `p` lies in the stretch.
    pub open spec fn has(self, p: int) -> bool {
        &&& self.lo is Some ==> self.lo->0 <= p
        &&& self.hi is Some ==> p <= self.hi->0
    }

    /// No position lies in the stretch.
    pub open spec fn is_empty(self) -> bool {
        self.lo is Some && self.hi is Some && self.lo->0 > self.hi->0
    }

    /// The stretch that two stretches have in common.
    pub open spec fn meet(self, other: Span) -> Span {
        Span { lo: higher(self.lo, other.lo), hi: lower(self.hi, other.hi) }
    }

    /// The stretch moved by `delta`.
    pub open spec fn moved(self, delta: int) -> Span {
        Span {
            lo: match self.lo {
                Some(x) => Some(x + delta),
                None => None,
            },
            hi: match self.hi {
                Some(x) => Some(x + delta),
                None => None,
            },
        }
    }
}

/// The cells that a range covers: a stretch of columns and a stretch of rows.
pub struct Extent {
    pub cols: Span,
    pub rows: Span,
}

impl Extent {
    /// The cell at column `x` and row `y` is covered.
    pub open spec fn has(self, x: int, y: int) -> bool {
        self.cols.has(x) && self.rows.has(y)
    }

    /// No cell is covered.
    pub open spec fn is_empty(self) -> bool {
        self.cols.is_empty() || self.rows.is_empty()
    }

    /// The cells that two extents have in common.
    pub open spec fn meet(self, other: Extent) -> Extent {
        Extent { cols: self.cols.meet(other.cols), rows: self.rows.meet(other.rows) }
    }

    /// The extent moved by `dx` columns and `dy` rows.
    pub open spec fn moved(self, dx: int, dy: int) -> Extent {
        Extent { cols: self.cols.moved(dx), rows: self.rows.moved(dy) }
    }
}

/// Two coordinates of one axis stand in order: the first is not behind the
/// second. A side without a bound is in order with anything.
pub open spec fn in_order(a: CellRefCoord, b: CellRefCoord) -> bool {
    a.is_unbounded() || b.is_unbounded() || a.coord <= b.coord
}

/// The bounds of a range.
///
/// An unbounded coordinate in `end` stands for no last position at all. An
/// unbounded coordinate in `start` puts no bound on its side either, which
/// on a sheet, where positions start at 1, is to start at the first position
/// of its axis.
#[derive(Clone, Copy, Debug, PartialEq, Eq, Hash, Structural)]
pub struct RefRangeBounds {
    pub start: CellRefRangeEnd,
    pub end: CellRefRangeEnd,
}

impl View for RefRangeBounds {
    type V = Extent;

    /// The cells that the range covers.
    open spec fn view(&self) -> Extent {
        Extent {
            cols: Span { lo: self.start.col.bound(), hi: self.end.col.bound() },
            rows: Span { lo: self.start.row.bound(), hi: self.end.row.bound() },
        }
    }
}

impl RefRangeBounds {
    /// The corners are well formed and stand in order on both axes.
    pub open spec fn wf(self) -> bool {
        &&& self.start.wf()
        &&& self.end.wf()
        &&& in_order(self.start.col, self.end.col)
        &&& in_order(self.start.row, self.end.row)
    }

    /// The range with every unbounded coordinate of `start` replaced by the
    /// first position of its axis, which is what it stands for.
    pub open spec fn anchored(self) -> RefRangeBounds {
        RefRangeBounds {
            start: CellRefRangeEnd {
                col: if self.start.col.is_unbounded() {
                    CellRefCoord::start()
                } else {
                    self.start.col
                },
                row: if self.start.row.is_unbounded() {
                    CellRefCoord::start()
                } else {
                    self.start.row
                },
            },
            end: self.end,
        }
    }
}

/// On the sheet, where positions start at 1, a range with its start
/// anchored covers the cells that the range covers.
pub proof fn lemma_anchored_covers(r: RefRangeBounds, x: int, y: int)
    requires
        1 <= x,
        1 <= y,
    ensures
        r.anchored()@.has(x, y) == r@.has(x, y),
{
}

} // verus!
