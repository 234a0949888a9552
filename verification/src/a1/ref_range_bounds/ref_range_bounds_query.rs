//! Walking over what a range covers: its cells, its columns, its rows.
//!
//! Nothing here builds a list. A range says how many cells, columns or rows
//! it covers, where it covers finitely many, and hands out the one at a given
//! place in the walk. Cells come row by row, each row from left to right.
//! A range without an end on some axis covers no finite number of cells; its
//! cells within a part of the sheet are those of [`RefRangeBounds::within`].
//! Its columns and rows can still be walked, from the first one on.

use vstd::prelude::*;
use vstd::arithmetic::div_mod::{
    lemma_div_pos_is_pos, lemma_fundamental_div_mod, lemma_fundamental_div_mod_converse,
    lemma_mod_pos_bound, lemma_multiply_divide_lt,
};
use crate::a1::cell_ref_coord::{CellRefCoord, UNBOUNDED};
use crate::a1::ref_range_bounds::RefRangeBounds;
use crate::grid::{Pos, Rect};

verus! {

/// The first position that a range covers on an axis where it starts at
/// `start`: an unbounded start stands for position 1.
pub open spec fn axis_first(start: CellRefCoord) -> int {
    match start.bound() {
        Some(n) => n,
        None => 1,
    }
}

/// How many positions lie from `start` to `end`, or `None` where `end` is
/// unbounded.
pub open spec fn axis_len(start: CellRefCoord, end: CellRefCoord) -> Option<int> {
    match end.bound() {
        Some(hi) => Some(
            if hi >= axis_first(start) {
                hi - axis_first(start) + 1
            } else {
                0
            },
        ),
        None => None,
    }
}

/// The position `i` places behind the first one, if the stretch from `start`
/// to `end` reaches that far.
pub open spec fn axis_at(start: CellRefCoord, end: CellRefCoord, i: int) -> Option<int> {
    let p = axis_first(start) + i;
    if 0 <= i && p < UNBOUNDED && (end.bound() is Some ==> p <= end.bound()->0) {
        Some(p)
    } else {
        None
    }
}

fn first_of(start: &CellRefCoord) -> (p: i64)
    ensures
        p == axis_first(*start),
{
    if start.is_unbounded() {
        1
    } else {
        start.coord
    }
}

fn len_of(start: &CellRefCoord, end: &CellRefCoord) -> (n: Option<u64>)
    ensures
        n is Some == axis_len(*start, *end) is Some,
        n is Some ==> n->0 == axis_len(*start, *end)->0,
{
    if end.is_unbounded() {
        None
    } else {
        let first = first_of(start);
        if end.coord < first {
            Some(0)
        } else {
            Some((end.coord as i128 - first as i128 + 1) as u64)
        }
    }
}

fn at_of(start: &CellRefCoord, end: &CellRefCoord, i: u64) -> (p: Option<i64>)
    ensures
        p is Some == axis_at(*start, *end, i as int) is Some,
        p is Some ==> p->0 == axis_at(*start, *end, i as int)->0,
{
    let at: i128 = first_of(start) as i128 + i as i128;
    if at < UNBOUNDED as i128 && (end.is_unbounded() || at <= end.coord as i128) {
        Some(at as i64)
    } else {
        None
    }
}

impl RefRangeBounds {
    /// The first column that the range covers.
    pub open spec fn first_col(self) -> int {
        axis_first(self.start.col)
    }

    /// The first row that the range covers.
    pub open spec fn first_row(self) -> int {
        axis_first(self.start.row)
    }

    /// How many columns the range covers, or `None` where it has no last
    /// column.
    pub open spec fn spec_col_count(self) -> Option<int> {
        axis_len(self.start.col, self.end.col)
    }

    /// How many rows the range covers, or `None` where it has no last row.
    pub open spec fn spec_row_count(self) -> Option<int> {
        axis_len(self.start.row, self.end.row)
    }

    /// How many cells the range covers, or `None` where it is not finite.
    pub open spec fn spec_count(self) -> Option<int> {
        match (self.spec_col_count(), self.spec_row_count()) {
            (Some(w), Some(h)) => Some(w * h),
            _ => None,
        }
    }

    /// The cell at place `i` of the walk over a finite range, which goes row
    /// by row and in each row from the first column to the last.
    pub open spec fn spec_pos_at(self, i: int) -> Option<Pos> {
        match (self.spec_col_count(), self.spec_row_count()) {
            (Some(w), Some(h)) => if 0 <= i < w * h {
                Some(
                    Pos {
                        x: (self.first_col() + i % w) as i64,
                        y: (self.first_row() + i / w) as i64,
                    },
                )
            } else {
                None
            },
            _ => None,
        }
    }

    /// The place in the walk over a finite range at which the cell at column
    /// `x` and row `y` comes, if the range covers that cell of the sheet.
    pub open spec fn spec_index_of(self, x: int, y: int) -> Option<int> {
        match (self.spec_col_count(), self.spec_row_count()) {
            (Some(w), Some(h)) => if self.anchored()@.has(x, y) {
                Some((y - self.first_row()) * w + (x - self.first_col()))
            } else {
                None
            },
            _ => None,
        }
    }

    /// The range ends somewhere on both axes, so that it covers a finite
    /// part of the sheet.
    pub open spec fn finite(&self) -> bool {
        !self.end.col.is_unbounded() && !self.end.row.is_unbounded()
    }

    /// Whether the range ends somewhere on both axes.
    #[verifier::when_used_as_spec(finite)]
    pub fn is_finite(&self) -> (r: bool)
        ensures
            r == self.finite(),
    {
        !self.end.col.is_unbounded() && !self.end.row.is_unbounded()
    }

    /// The column `i` places behind the first one that the range covers, or
    /// `None` where the range does not reach that far.
    pub fn col_at(&self, i: u64) -> (r: Option<i64>)
        ensures
            r is Some == axis_at(self.start.col, self.end.col, i as int) is Some,
            r is Some ==> r->0 == axis_at(self.start.col, self.end.col, i as int)->0,
            r is Some ==> self.anchored()@.cols.has(r->0 as int),
    {
        at_of(&self.start.col, &self.end.col, i)
    }

    /// The row `i` places behind the first one that the range covers, or
    /// `None` where the range does not reach that far.
    pub fn row_at(&self, i: u64) -> (r: Option<i64>)
        ensures
            r is Some == axis_at(self.start.row, self.end.row, i as int) is Some,
            r is Some ==> r->0 == axis_at(self.start.row, self.end.row, i as int)->0,
            r is Some ==> self.anchored()@.rows.has(r->0 as int),
    {
        at_of(&self.start.row, &self.end.row, i)
    }

    /// How many columns the range covers, or `None` where it has no last
    /// column.
    pub fn col_count(&self) -> (r: Option<u64>)
        ensures
            r is Some == self.spec_col_count() is Some,
            r is Some ==> r->0 == self.spec_col_count()->0,
    {
        len_of(&self.start.col, &self.end.col)
    }

    /// How many rows the range covers, or `None` where it has no last row.
    pub fn row_count(&self) -> (r: Option<u64>)
        ensures
            r is Some == self.spec_row_count() is Some,
            r is Some ==> r->0 == self.spec_row_count()->0,
    {
        len_of(&self.start.row, &self.end.row)
    }

    /// How many cells the range covers, or `None` where it is not finite.
    pub fn count(&self) -> (r: Option<u128>)
        ensures
            r is Some == self.finite(),
            r is Some == self.spec_count() is Some,
            r is Some ==> r->0 == self.spec_count()->0,
    {
        match (self.col_count(), self.row_count()) {
            (Some(w), Some(h)) => {
                assert(w * h <= 0xffff_ffff_ffff_ffff * 0xffff_ffff_ffff_ffff) by (nonlinear_arith)
                    requires
                        0 <= w <= 0xffff_ffff_ffff_ffff,
                        0 <= h <= 0xffff_ffff_ffff_ffff,
                ;
                Some((w as u128) * (h as u128))
            },
            _ => None,
        }
    }

    /// The cell at place `index` of the walk over the range, or `None` where
    /// the range is not finite or covers no more than `index` cells.
    pub fn pos_at(&self, index: u128) -> (r: Option<Pos>)
        ensures
            r == self.spec_pos_at(index as int),
    {
        match (self.col_count(), self.row_count()) {
            (Some(w), Some(h)) => {
                assert(w * h <= 0xffff_ffff_ffff_ffff * 0xffff_ffff_ffff_ffff) by (nonlinear_arith)
                    requires
                        0 <= w <= 0xffff_ffff_ffff_ffff,
                        0 <= h <= 0xffff_ffff_ffff_ffff,
                ;
                if index >= (w as u128) * (h as u128) {
                    return None;
                }
                assert(w != 0) by (nonlinear_arith)
                    requires
                        0 <= index < w * h,
                        0 <= h,
                ;
                let q: u128 = index / (w as u128);
                let m: u128 = index % (w as u128);
                proof {
                    lemma_multiply_divide_lt(index as int, w as int, h as int);
                    lemma_mod_pos_bound(index as int, w as int);
                    lemma_div_pos_is_pos(index as int, w as int);
                }
                let x: i128 = first_of(&self.start.col) as i128 + m as i128;
                let y: i128 = first_of(&self.start.row) as i128 + q as i128;
                Some(Pos { x: x as i64, y: y as i64 })
            },
            _ => None,
        }
    }

    /// The place in the walk over the range at which the cell at `pos`
    /// comes, or `None` where the range is not finite or does not cover that
    /// cell of the sheet.
    pub fn index_of(&self, pos: Pos) -> (r: Option<u128>)
        ensures
            r is Some == self.spec_index_of(pos.x as int, pos.y as int) is Some,
            r is Some ==> r->0 == self.spec_index_of(pos.x as int, pos.y as int)->0,
    {
        match self.col_count() {
            Some(w) => {
                let first_col = first_of(&self.start.col);
                let first_row = first_of(&self.start.row);
                if self.end.row.is_unbounded() || pos.x < first_col || pos.x > self.end.col.coord
                    || pos.y < first_row || pos.y > self.end.row.coord {
                    return None;
                }
                let dy: u128 = (pos.y as i128 - first_row as i128) as u128;
                let dx: u128 = (pos.x as i128 - first_col as i128) as u128;
                assert(dy * w <= 0xffff_ffff_ffff_ffff * 0xffff_ffff_ffff_ffff) by (nonlinear_arith)
                    requires
                        0 <= w <= 0xffff_ffff_ffff_ffff,
                        0 <= dy <= 0xffff_ffff_ffff_ffff,
                ;
                Some(dy * (w as u128) + dx)
            },
            None => None,
        }
    }

    /// The rectangle that a finite range covers, from its first column and
    /// row to its last. `None` where the range is not finite.
    pub fn to_rect(&self) -> (r: Option<Rect>)
        ensures
            r is Some == self.finite(),
            r is Some ==> {
                &&& r->0.min.x == self.first_col()
                &&& r->0.min.y == self.first_row()
                &&& r->0.max.x == self.end.col.coord
                &&& r->0.max.y == self.end.row.coord
            },
    {
        if self.is_finite() {
            Some(
                Rect {
                    min: Pos { x: first_of(&self.start.col), y: first_of(&self.start.row) },
                    max: Pos { x: self.end.col.coord, y: self.end.row.coord },
                },
            )
        } else {
            None
        }
    }

    /// The part of the range that lies within `extent`, the part of the sheet
    /// that is in use: a finite range, whichever sides of `self` are
    /// unbounded. `None` where no cell of the range lies within `extent`.
    pub fn within(&self, extent: Rect) -> (r: Option<RefRangeBounds>)
        requires
            extent.wf(),
        ensures
            r == self.spec_intersection(
                RefRangeBounds { start: rel_corner(extent.min), end: rel_corner(extent.max) },
            ),
            r is Some ==> r->0.finite() && r->0.anchored() == r->0,
    {
        let bounds = RefRangeBounds::new_relative_rect(extent);
        self.intersection(&bounds)
    }
}

/// A walk over the cells of a finite range, row by row. It holds the place
/// of the cell that comes next and makes no list of cells.
#[derive(Clone, Copy, Debug, PartialEq, Eq, Structural)]
pub struct CellWalk {
    pub range: RefRangeBounds,
    pub index: u128,
}

impl RefRangeBounds {
    /// A walk over the cells of the range, at its start.
    pub fn cells(&self) -> (walk: CellWalk)
        ensures
            walk.range == *self,
            walk.index == 0,
    {
        CellWalk { range: *self, index: 0 }
    }
}

impl CellWalk {
    /// The cell at which the walk stands, and a step on to the one behind
    /// it; `None`, and no step, where the walk is at its end or the range is
    /// not finite.
    pub fn next(&mut self) -> (r: Option<Pos>)
        ensures
            r == old(self).range.spec_pos_at(old(self).index as int),
            final(self).range == old(self).range,
            final(self).index == if r is Some {
                old(self).index + 1
            } else {
                old(self).index as int
            },
    {
        let pos = self.range.pos_at(self.index);
        if pos.is_some() {
            proof {
                let w = self.range.spec_col_count()->0;
                let h = self.range.spec_row_count()->0;
                assert(w * h <= 0xffff_ffff_ffff_ffff * 0xffff_ffff_ffff_ffff) by (nonlinear_arith)
                    requires
                        0 <= w <= 0xffff_ffff_ffff_ffff,
                        0 <= h <= 0xffff_ffff_ffff_ffff,
                ;
            }
            self.index = self.index + 1;
        }
        pos
    }

    /// Takes the walk back to its start.
    pub fn restart(&mut self)
        ensures
            final(self).range == old(self).range,
            final(self).index == 0,
    {
        self.index = 0;
    }
}

/// The relative corner at `pos`.
pub open spec fn rel_corner(pos: Pos) -> crate::a1::cell_ref_range_end::CellRefRangeEnd {
    crate::a1::cell_ref_range_end::CellRefRangeEnd {
        col: CellRefCoord { coord: pos.x, is_absolute: false },
        row: CellRefCoord { coord: pos.y, is_absolute: false },
    }
}

/// Every cell of the walk over a finite range lies in the range.
pub proof fn lemma_pos_at_contained(r: RefRangeBounds, i: int)
    requires
        r.spec_pos_at(i) is Some,
    ensures
        r.anchored()@.has(r.spec_pos_at(i)->0.x as int, r.spec_pos_at(i)->0.y as int),
        r@.has(r.spec_pos_at(i)->0.x as int, r.spec_pos_at(i)->0.y as int),
        r.spec_index_of(r.spec_pos_at(i)->0.x as int, r.spec_pos_at(i)->0.y as int) == Some(i),
{
    let w = r.spec_col_count()->0;
    let h = r.spec_row_count()->0;
    assert(w > 0 && h > 0) by (nonlinear_arith)
        requires
            0 <= i < w * h,
            0 <= w,
            0 <= h,
    ;
    lemma_multiply_divide_lt(i, w, h);
    lemma_mod_pos_bound(i, w);
    lemma_div_pos_is_pos(i, w);
    lemma_fundamental_div_mod(i, w);
    assert((i / w) * w + i % w == i) by (nonlinear_arith)
        requires
            i == w * (i / w) + i % w,
    ;
}

/// Every cell of the sheet that a finite range covers comes in the walk, at
/// the place that `spec_index_of` gives.
pub proof fn lemma_index_of_walked(r: RefRangeBounds, x: int, y: int)
    requires
        r.finite(),
        r.anchored()@.has(x, y),
    ensures
        r.spec_index_of(x, y) is Some,
        r.spec_pos_at(r.spec_index_of(x, y)->0) == Some(Pos { x: x as i64, y: y as i64 }),
{
    let w = r.spec_col_count()->0;
    let h = r.spec_row_count()->0;
    let dx = x - r.first_col();
    let dy = y - r.first_row();
    let i = dy * w + dx;
    assert(0 <= dx < w);
    assert(0 <= dy < h);
    assert(0 <= i < w * h) by (nonlinear_arith)
        requires
            i == dy * w + dx,
            0 <= dx < w,
            0 <= dy < h,
    ;
    lemma_fundamental_div_mod_converse(i, w, dy, dx);
}

/// No cell comes twice in the walk over a finite range.
pub proof fn lemma_pos_at_once(r: RefRangeBounds, i: int, j: int)
    requires
        r.spec_pos_at(i) is Some,
        r.spec_pos_at(i) == r.spec_pos_at(j),
    ensures
        i == j,
{
    lemma_pos_at_contained(r, i);
    lemma_pos_at_contained(r, j);
}

} // verus!
