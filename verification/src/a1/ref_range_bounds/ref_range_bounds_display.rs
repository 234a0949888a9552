//! The text of a range: the shortest way to write it in A1 notation.

use vstd::prelude::*;
use crate::a1::cell_ref_coord::CellRefCoord;
use crate::a1::cell_ref_range_end::{
    column_text, corner_text, push_column_text, push_row_text, row_text, CellRefRangeEnd,
};
use crate::a1::ref_range_bounds::RefRangeBounds;

verus! {

impl RefRangeBounds {
    /// The range is a band of whole columns: it starts at the first row,
    /// relative, has no last row, and has a last column.
    pub open spec fn is_col_range(self) -> bool {
        &&& self.start.row == CellRefCoord::start()
        &&& self.end.row.is_unbounded()
        &&& !self.end.col.is_unbounded()
    }

    /// The range is a band of several whole rows: it starts at the first
    /// column, relative, has no last column, and ends at a row other than the
    /// one it starts at.
    pub open spec fn is_multi_row_range(self) -> bool {
        &&& self.start.col == CellRefCoord::start()
        &&& self.end.col.is_unbounded()
        &&& !self.end.row.is_unbounded()
        &&& self.start.row.coord != self.end.row.coord
    }

    /// The text stops after the first corner: the second one says nothing
    /// more. That is so for a single column and for a single cell.
    pub open spec fn is_single(self) -> bool {
        ||| self.is_col_range() && self.start.col == self.end.col
        ||| self.start == self.end
    }

    /// What the text shows of the first corner. A band of columns shows no
    /// row; a band of several rows shows no column.
    pub open spec fn start_text(self) -> Seq<char> {
        corner_text(
            if self.is_multi_row_range() {
                None
            } else {
                Some(self.start.col)
            },
            if self.is_col_range() {
                None
            } else {
                Some(self.start.row)
            },
        )
    }

    /// What the text shows of the second corner: the coordinates that name a
    /// position.
    pub open spec fn end_text(self) -> Seq<char> {
        corner_text(
            if self.end.col.is_unbounded() {
                None
            } else {
                Some(self.end.col)
            },
            if self.end.row.is_unbounded() {
                None
            } else {
                Some(self.end.row)
            },
        )
    }

    /// The text of the range.
    ///
    /// The whole sheet is `*`. A band of columns is `B`, or `B:D`. A band of
    /// several rows is `2:5`. Anything else is its first corner, then a colon
    /// and what is bounded of its second corner unless that is the first
    /// corner again: `B2`, `B2:D5`, `B2:D`, `B2:5`, `B2:`, and `A3:3` for the
    /// single row 3. An unbounded start is written as the first position,
    /// which is what it stands for.
    pub open spec fn text(self) -> Seq<char> {
        let r = self.anchored();
        if r == Self::all() {
            seq!['*']
        } else if r.is_single() {
            r.start_text()
        } else {
            r.start_text() + seq![':'] + r.end_text()
        }
    }

    /// The range with its start anchored.
    fn anchor(&self) -> (r: RefRangeBounds)
        ensures
            r == self.anchored(),
    {
        RefRangeBounds {
            start: CellRefRangeEnd {
                col: if self.start.col.is_unbounded() {
                    CellRefCoord::start()
                } else {
                    self.start.col
                },
                row: if self.start.row.is_unbounded() {
                    CellRefCoord::start()
                } else {
                    self.start.row
                },
            },
            end: self.end,
        }
    }

    /// The text of the range in A1 notation.
    pub fn to_string(&self) -> (s: String)
        ensures
            s@ == self.text(),
    {
        let r = self.anchor();
        let mut out = String::new();
        if r == RefRangeBounds::all() {
            out.push('*');
            assert(out@ =~= seq!['*']);
            return out;
        }
        let first = CellRefCoord::start();
        let col_range = r.start.row == first && r.end.row.is_unbounded()
            && !r.end.col.is_unbounded();
        let multi_row = r.start.col == first && r.end.col.is_unbounded()
            && !r.end.row.is_unbounded() && r.start.row.coord != r.end.row.coord;
        let single = (col_range && r.start.col == r.end.col) || r.start == r.end;
        push_corner_text(
            &mut out,
            if multi_row {
                None
            } else {
                Some(r.start.col)
            },
            if col_range {
                None
            } else {
                Some(r.start.row)
            },
        );
        assert(out@ =~= r.start_text());
        if single {
            return out;
        }
        out.push(':');
        push_corner_text(
            &mut out,
            if r.end.col.is_unbounded() {
                None
            } else {
                Some(r.end.col)
            },
            if r.end.row.is_unbounded() {
                None
            } else {
                Some(r.end.row)
            },
        );
        assert(out@ =~= r.start_text() + seq![':'] + r.end_text());
        out
    }
}

/// Appends to `out` the text of a corner of which the given parts are shown.
fn push_corner_text(out: &mut String, col: Option<CellRefCoord>, row: Option<CellRefCoord>)
    ensures
        final(out)@ == old(out)@ + corner_text(col, row),
{
    match col {
        Some(c) => {
            push_column_text(out, &c);
        },
        None => {},
    }
    let ghost mid = out@;
    assert(mid =~= old(out)@ + column_text(col));
    match row {
        Some(c) => {
            push_row_text(out, &c);
        },
        None => {},
    }
    assert(out@ =~= mid + row_text(row));
    assert(out@ =~= old(out)@ + corner_text(col, row));
}

} // verus!
