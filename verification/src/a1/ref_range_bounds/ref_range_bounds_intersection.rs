//! What two ranges have in common.

use vstd::prelude::*;
use crate::a1::cell_ref_coord::{CellRefCoord, UNBOUNDED};
use crate::a1::cell_ref_range_end::CellRefRangeEnd;
use crate::a1::ref_range_bounds::{higher, lower, Extent, RefRangeBounds, Span};

verus! {

/// The relative coordinate at a bound, or the unbounded coordinate where
/// there is none.
pub open spec fn coord_at(b: Option<int>) -> CellRefCoord {
    match b {
        Some(n) => CellRefCoord { coord: n as i64, is_absolute: false },
        None => CellRefCoord::unbounded(),
    }
}

/// The range with relative coordinates that covers `e`.
pub open spec fn relative_over(e: Extent) -> RefRangeBounds {
    RefRangeBounds {
        start: CellRefRangeEnd { col: coord_at(e.cols.lo), row: coord_at(e.rows.lo) },
        end: CellRefRangeEnd { col: coord_at(e.cols.hi), row: coord_at(e.rows.hi) },
    }
}

impl RefRangeBounds {
    /// The range that `self` and `other` have in common, if they have a cell
    /// in common.
    ///
    /// On each axis the result starts at the later of the two starts and
    /// ends at the earlier of the two ends; a side stays unbounded only
    /// where it is unbounded in both. The result is made of relative
    /// coordinates, whatever the `$` of the operands.
    pub open spec fn spec_intersection(self, other: RefRangeBounds) -> Option<RefRangeBounds> {
        let common = self@.meet(other@);
        if common.is_empty() {
            None
        } else {
            Some(relative_over(common))
        }
    }

    /// The box around the range: its extent once the corners are put in
    /// order.
    pub open spec fn hull(self) -> Extent {
        Self::spec_new(self.start, self.end)@
    }

    /// The boxes around `self` and `other` overlap.
    pub open spec fn spec_might_intersect(self, other: RefRangeBounds) -> bool {
        !self.hull().meet(other.hull()).is_empty()
    }

    /// The range that `self` and `other` have in common, or `None` where
    /// they have no cell in common.
    pub fn intersection(&self, other: &RefRangeBounds) -> (r: Option<RefRangeBounds>)
        ensures
            r == self.spec_intersection(*other),
    {
        let start_col = later_start(&self.start.col, &other.start.col);
        let start_row = later_start(&self.start.row, &other.start.row);
        let end_col = earlier_end(&self.end.col, &other.end.col);
        let end_row = earlier_end(&self.end.row, &other.end.row);
        if behind(&start_col, &end_col) || behind(&start_row, &end_row) {
            None
        } else {
            Some(
                RefRangeBounds {
                    start: CellRefRangeEnd { col: start_col, row: start_row },
                    end: CellRefRangeEnd { col: end_col, row: end_row },
                },
            )
        }
    }

    /// A quick test for common cells that looks only at the boxes around the
    /// two ranges. It never answers `false` for ranges that have a cell in
    /// common. It may answer `true` for ranges that have none, in one case:
    /// where a range is given with a start behind its end, it covers no cell,
    /// yet the box around it does.
    pub fn might_intersect(&self, other: &RefRangeBounds) -> (r: bool)
        ensures
            r == self.spec_might_intersect(*other),
            self.spec_intersection(*other) is Some ==> r,
            self.wf() && other.wf() ==> r == (self.spec_intersection(*other) is Some),
    {
        let a = RefRangeBounds::new(self.start, self.end);
        let b = RefRangeBounds::new(other.start, other.end);
        proof {
            lemma_might_intersect(*self, *other);
        }
        !behind(&later_start(&a.start.col, &b.start.col), &earlier_end(&a.end.col, &b.end.col))
            && !behind(
            &later_start(&a.start.row, &b.start.row),
            &earlier_end(&a.end.row, &b.end.row),
        )
    }
}

/// The later of two starts, as a relative coordinate.
fn later_start(a: &CellRefCoord, b: &CellRefCoord) -> (c: CellRefCoord)
    ensures
        c == coord_at(higher(a.bound(), b.bound())),
        c.bound() == higher(a.bound(), b.bound()),
{
    if a.is_unbounded() {
        if b.is_unbounded() {
            CellRefCoord::unbounded()
        } else {
            CellRefCoord::new_rel(b.coord)
        }
    } else if b.is_unbounded() || a.coord >= b.coord {
        CellRefCoord::new_rel(a.coord)
    } else {
        CellRefCoord::new_rel(b.coord)
    }
}

/// The earlier of two ends, as a relative coordinate.
fn earlier_end(a: &CellRefCoord, b: &CellRefCoord) -> (c: CellRefCoord)
    ensures
        c == coord_at(lower(a.bound(), b.bound())),
        c.bound() == lower(a.bound(), b.bound()),
{
    if a.is_unbounded() {
        if b.is_unbounded() {
            CellRefCoord::unbounded()
        } else {
            CellRefCoord::new_rel(b.coord)
        }
    } else if b.is_unbounded() || a.coord <= b.coord {
        CellRefCoord::new_rel(a.coord)
    } else {
        CellRefCoord::new_rel(b.coord)
    }
}

/// Whether `start` lies behind `end`, so that nothing lies between them.
fn behind(start: &CellRefCoord, end: &CellRefCoord) -> (r: bool)
    ensures
        r == (Span { lo: start.bound(), hi: end.bound() }).is_empty(),
{
    !start.is_unbounded() && !end.is_unbounded() && start.coord > end.coord
}

/// The range over an extent whose bounds are coordinates covers that extent.
pub proof fn lemma_relative_over(e: Extent)
    requires
        e.cols.lo is Some ==> i64::MIN <= e.cols.lo->0 < UNBOUNDED,
        e.cols.hi is Some ==> i64::MIN <= e.cols.hi->0 < UNBOUNDED,
        e.rows.lo is Some ==> i64::MIN <= e.rows.lo->0 < UNBOUNDED,
        e.rows.hi is Some ==> i64::MIN <= e.rows.hi->0 < UNBOUNDED,
    ensures
        relative_over(e)@ == e,
{
}

/// The order of the operands makes no difference to their intersection.
pub proof fn lemma_intersection_commutes(a: RefRangeBounds, b: RefRangeBounds)
    ensures
        a.spec_intersection(b) == b.spec_intersection(a),
{
    assert(a@.meet(b@) == b@.meet(a@));
}

/// The intersection covers the cells that both ranges cover, and no others;
/// where there is none, no cell lies in both.
pub proof fn lemma_intersection_contains(a: RefRangeBounds, b: RefRangeBounds, x: int, y: int)
    ensures
        match a.spec_intersection(b) {
            Some(c) => c@.has(x, y) <==> a@.has(x, y) && b@.has(x, y),
            None => !(a@.has(x, y) && b@.has(x, y)),
        },
{
    lemma_relative_over(a@.meet(b@));
}

/// The intersection of well-formed ranges is well formed.
pub proof fn lemma_intersection_wf(a: RefRangeBounds, b: RefRangeBounds)
    requires
        a.wf(),
        b.wf(),
    ensures
        a.spec_intersection(b) is Some ==> a.spec_intersection(b)->0.wf(),
{
}

/// Ranges with a cell in common pass the quick test; between well-formed
/// ranges the quick test is exact.
pub proof fn lemma_might_intersect(a: RefRangeBounds, b: RefRangeBounds)
    ensures
        a.spec_intersection(b) is Some ==> a.spec_might_intersect(b),
        a.wf() && b.wf() ==> a.spec_might_intersect(b) == (a.spec_intersection(b) is Some),
{
}

} // verus!
