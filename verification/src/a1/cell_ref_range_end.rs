//! One corner of a range, and the text of a corner: column letters, then a
//! row number, each of them optional and each with an optional `$` before it.

use vstd::prelude::*;
use crate::a1::a1_text::{
    column_letters, column_value, decimal_value, in_run, lemma_column_name,
    lemma_decimal, lemma_run_end_bounds, lemma_run_end_is, push_column_name,
    push_signed_decimal, read_column, read_decimal, run_end, scan_run, signed_decimal,
};
use crate::a1::cell_ref_coord::{CellRefCoord, UNBOUNDED};
use crate::grid::Pos;

verus! {

/// The corner of a range: a column and a row, either of which may be
/// unbounded.
#[derive(Clone, Copy, Debug, PartialEq, Eq, Hash, Structural)]
pub struct CellRefRangeEnd {
    pub col: CellRefCoord,
    pub row: CellRefCoord,
}

impl CellRefRangeEnd {
    /// The origin of a sheet: column 1 and row 1, both relative.
    pub open spec fn spec_start() -> CellRefRangeEnd {
        CellRefRangeEnd { col: CellRefCoord::start(), row: CellRefCoord::start() }
    }

    /// The corner without a bound on either axis.
    pub open spec fn spec_unbounded() -> CellRefRangeEnd {
        CellRefRangeEnd { col: CellRefCoord::unbounded(), row: CellRefCoord::unbounded() }
    }

    /// Both coordinates are well formed.
    pub open spec fn wf(self) -> bool {
        self.col.wf() && self.row.wf()
    }

    /// The corner moved by `dx` columns and `dy` rows, where both coordinates
    /// can move.
    pub open spec fn shifted(self, dx: int, dy: int) -> Option<CellRefRangeEnd> {
        match (self.col.shifted(dx), self.row.shifted(dy)) {
            (Some(col), Some(row)) => Some(CellRefRangeEnd { col, row }),
            _ => None,
        }
    }

    /// The origin of a sheet: column 1 and row 1, both relative.
    #[verifier::when_used_as_spec(spec_start)]
    pub fn start() -> (e: CellRefRangeEnd)
        ensures
            e == Self::spec_start(),
    {
        CellRefRangeEnd { col: CellRefCoord::start(), row: CellRefCoord::start() }
    }

    /// The corner without a bound on either axis.
    #[verifier::when_used_as_spec(spec_unbounded)]
    pub fn unbounded() -> (e: CellRefRangeEnd)
        ensures
            e == Self::spec_unbounded(),
    {
        CellRefRangeEnd { col: CellRefCoord::unbounded(), row: CellRefCoord::unbounded() }
    }

    /// The relative corner at column `x` and row `y`.
    pub fn new_relative_xy(x: i64, y: i64) -> (e: CellRefRangeEnd)
        requires
            1 <= x,
            1 <= y,
        ensures
            e.col == (CellRefCoord { coord: x, is_absolute: false }),
            e.row == (CellRefCoord { coord: y, is_absolute: false }),
            e.wf(),
    {
        CellRefRangeEnd { col: CellRefCoord::new_rel(x), row: CellRefCoord::new_rel(y) }
    }

    /// The relative corner at `pos`.
    pub fn new_relative_pos(pos: Pos) -> (e: CellRefRangeEnd)
        requires
            1 <= pos.x,
            1 <= pos.y,
        ensures
            e.col == (CellRefCoord { coord: pos.x, is_absolute: false }),
            e.row == (CellRefCoord { coord: pos.y, is_absolute: false }),
            e.wf(),
    {
        Self::new_relative_xy(pos.x, pos.y)
    }

    /// The far corner of a band of rows that ends at row `y`: no bound on
    /// the column.
    pub fn new_infinite_row_end(y: i64) -> (e: CellRefRangeEnd)
        requires
            1 <= y,
        ensures
            e.col == CellRefCoord::unbounded(),
            e.row == (CellRefCoord { coord: y, is_absolute: false }),
            e.wf(),
    {
        CellRefRangeEnd { col: CellRefCoord::unbounded(), row: CellRefCoord::new_rel(y) }
    }

    /// The far corner of a band of columns that ends at column `x`: no bound
    /// on the row.
    pub fn new_infinite_col_end(x: i64) -> (e: CellRefRangeEnd)
        requires
            1 <= x,
        ensures
            e.col == (CellRefCoord { coord: x, is_absolute: false }),
            e.row == CellRefCoord::unbounded(),
            e.wf(),
    {
        CellRefRangeEnd { col: CellRefCoord::new_rel(x), row: CellRefCoord::unbounded() }
    }

    /// The column coordinate as a number.
    pub fn col(&self) -> (x: i64)
        ensures
            x == self.col.coord,
    {
        self.col.coord
    }

    /// The row coordinate as a number.
    pub fn row(&self) -> (y: i64)
        ensures
            y == self.row.coord,
    {
        self.row.coord
    }

    /// Whether both coordinates are well formed.
    pub fn is_valid(&self) -> (r: bool)
        ensures
            r == self.wf(),
    {
        self.col.is_valid() && self.row.is_valid()
    }

    /// Moves the corner by `dx` columns and `dy` rows; `None` where a bounded
    /// coordinate would leave the sheet.
    pub fn translate(&self, dx: i64, dy: i64) -> (r: Option<CellRefRangeEnd>)
        ensures
            r == self.shifted(dx as int, dy as int),
    {
        match self.col.translate(dx) {
            Some(col) => match self.row.translate(dy) {
                Some(row) => Some(CellRefRangeEnd { col, row }),
                None => None,
            },
            None => None,
        }
    }
}

/// The `$` that marks an absolute coordinate, or nothing.
pub open spec fn dollar(absolute: bool) -> Seq<char> {
    if absolute {
        seq!['$']
    } else {
        Seq::empty()
    }
}

/// The text of a column coordinate: its letters, behind a `$` where absolute.
/// Nothing where there is no coordinate to show.
pub open spec fn column_text(c: Option<CellRefCoord>) -> Seq<char> {
    match c {
        Some(c) => dollar(c.is_absolute) + column_letters(c.coord as int),
        None => Seq::empty(),
    }
}

/// The text of a row coordinate: its number, behind a `$` where absolute.
/// Nothing where there is no coordinate to show.
pub open spec fn row_text(c: Option<CellRefCoord>) -> Seq<char> {
    match c {
        Some(c) => dollar(c.is_absolute) + signed_decimal(c.coord as int),
        None => Seq::empty(),
    }
}

/// The text of a corner of which the given parts are shown.
pub open spec fn corner_text(col: Option<CellRefCoord>, row: Option<CellRefCoord>) -> Seq<char> {
    column_text(col) + row_text(row)
}

/// `c` is a character of corner texts: a `$`, an ASCII letter or a digit.
pub open spec fn corner_char(c: char) -> bool {
    c == '$' || in_run(c, false) || in_run(c, true)
}

/// A coordinate that names a position of the sheet.
pub open spec fn names_position(c: CellRefCoord) -> bool {
    1 <= c.coord < UNBOUNDED
}

/// The parts that a corner text shows, or `None` where the text is no corner.
///
/// A corner text is an optional column part followed by an optional row
/// part. A column part is a run of ASCII letters of either case; a row part
/// is a run of decimal digits. Either may have a `$` before it, which makes
/// the coordinate absolute; a `$` with nothing behind it is an error, and so
/// is a number that is not a position from 1 up to the last one below
/// [`UNBOUNDED`].
pub open spec fn parse_corner_text(s: Seq<char>) -> Option<
    (Option<CellRefCoord>, Option<CellRefCoord>),
> {
    let d0 = s.len() > 0 && s[0] == '$';
    let i1: int = if d0 {
        1
    } else {
        0
    };
    let i2 = run_end(s, i1, false);
    let has_col = i2 > i1;
    let d1 = has_col && i2 < s.len() && s[i2] == '$';
    let i3 = if d1 {
        i2 + 1
    } else {
        i2
    };
    let i4 = run_end(s, i3, true);
    let row_abs = if has_col {
        d1
    } else {
        d0
    };
    let col_n = column_value(s.subrange(i1, i2));
    let row_n = decimal_value(s.subrange(i3, i4));
    if i4 != s.len() {
        None
    } else if has_col && !(1 <= col_n < UNBOUNDED) {
        None
    } else if i4 == i3 && row_abs {
        None
    } else if i4 > i3 && !(1 <= row_n < UNBOUNDED) {
        None
    } else {
        Some(
            (
                if has_col {
                    Some(CellRefCoord { coord: col_n as i64, is_absolute: d0 })
                } else {
                    None
                },
                if i4 > i3 {
                    Some(CellRefCoord { coord: row_n as i64, is_absolute: row_abs })
                } else {
                    None
                },
            ),
        )
    }
}

/// What a corner text parses to names positions of the sheet.
pub proof fn lemma_parse_corner_text_valid(s: Seq<char>)
    ensures
        match parse_corner_text(s) {
            Some((col, row)) => {
                &&& col is Some ==> names_position(col->0)
                &&& row is Some ==> names_position(row->0)
                &&& s.len() == 0 <==> col is None && row is None
            },
            None => true,
        },
{
    if s.len() > 0 && s[0] == '$' {
        lemma_run_end_bounds(s, 1, false);
        let i2 = run_end(s, 1, false);
        if i2 > 1 {
            if i2 < s.len() && s[i2] == '$' {
                lemma_run_end_bounds(s, i2 + 1, true);
            } else {
                lemma_run_end_bounds(s, i2, true);
            }
        } else {
            lemma_run_end_bounds(s, 1, true);
        }
    } else {
        lemma_run_end_bounds(s, 0, false);
        let i2 = run_end(s, 0, false);
        if i2 > 0 {
            if i2 < s.len() && s[i2] == '$' {
                lemma_run_end_bounds(s, i2 + 1, true);
            } else {
                lemma_run_end_bounds(s, i2, true);
            }
        } else {
            lemma_run_end_bounds(s, 0, true);
        }
    }
}

/// Reading the text of a corner gives back the parts that it shows.
pub proof fn lemma_corner_text_round_trip(col: Option<CellRefCoord>, row: Option<CellRefCoord>)
    requires
        col is Some ==> names_position(col->0),
        row is Some ==> names_position(row->0),
    ensures
        parse_corner_text(corner_text(col, row)) == Some((col, row)),
        corner_text(col, row).len() == 0 <==> col is None && row is None,
        forall|k: int|
            0 <= k < corner_text(col, row).len() ==> corner_char(#[trigger] corner_text(col, row)[k]),
{
    let cd = match col {
        Some(c) => dollar(c.is_absolute),
        None => Seq::empty(),
    };
    let cn = match col {
        Some(c) => column_letters(c.coord as int),
        None => Seq::empty(),
    };
    let rd = match row {
        Some(c) => dollar(c.is_absolute),
        None => Seq::empty(),
    };
    let rn = match row {
        Some(c) => signed_decimal(c.coord as int),
        None => Seq::empty(),
    };
    let t = corner_text(col, row);
    assert(t =~= cd + cn + rd + rn);
    let a = cd.len() as int;
    let b = cn.len() as int;
    let c = rd.len() as int;
    let d = rn.len() as int;
    if col is Some {
        lemma_column_name(col->0.coord as int);
    }
    if row is Some {
        lemma_decimal(row->0.coord as int);
    }
    assert forall|k: int| a <= k < a + b implies in_run(#[trigger] t[k], false) by {
        assert(t[k] == cn[k - a]);
    }
    assert forall|k: int| a + b + c <= k < t.len() implies in_run(#[trigger] t[k], true) by {
        assert(t[k] == rn[k - a - b - c]);
    }
    assert forall|k: int| 0 <= k < t.len() implies corner_char(#[trigger] t[k]) by {
        if k < a {
            assert(t[k] == '$');
        } else if k < a + b {
            assert(in_run(t[k], false));
        } else if k < a + b + c {
            assert(t[k] == rd[k - a - b]);
        } else {
            assert(in_run(t[k], true));
        }
    }
    if col is Some {
        let i1 = a;
        let i2 = a + b;
        assert(b >= 1);
        assert(in_run(t[a], false));
        assert((t.len() > 0 && t[0] == '$') == col->0.is_absolute);
        if i2 < t.len() {
            if c > 0 {
                assert(t[i2] == rd[0]);
            } else {
                assert(in_run(t[i2], true));
            }
        }
        lemma_run_end_is(t, i1, i2, false);
        assert(t.subrange(i1, i2) =~= cn);
        let d1 = i2 < t.len() && t[i2] == '$';
        if row is Some {
            if c == 0 {
                assert(in_run(t[i2], true));
            }
            assert(d1 == row->0.is_absolute);
        } else {
            assert(!d1);
        }
        let i3 = i2 + c;
        lemma_run_end_is(t, i3, t.len() as int, true);
        assert(t.subrange(i3, t.len() as int) =~= rn);
    } else {
        let i1 = c;
        if row is Some {
            assert(d >= 1);
            assert(in_run(t[c], true));
            if c > 0 {
                assert(t[0] == rd[0]);
            }
            assert((t.len() > 0 && t[0] == '$') == row->0.is_absolute);
        }
        lemma_run_end_is(t, i1, i1, false);
        lemma_run_end_is(t, i1, t.len() as int, true);
        assert(t.subrange(i1, t.len() as int) =~= rn);
        assert(t.subrange(i1, i1) =~= Seq::<char>::empty());
    }
}

/// Appends the text of a column coordinate to `out`.
pub(crate) fn push_column_text(out: &mut String, c: &CellRefCoord)
    ensures
        final(out)@ == old(out)@ + column_text(Some(*c)),
{
    if c.is_absolute {
        out.push('$');
    }
    push_column_name(out, c.coord);
    assert(out@ =~= old(out)@ + column_text(Some(*c)));
}

/// Appends the text of a row coordinate to `out`.
pub(crate) fn push_row_text(out: &mut String, c: &CellRefCoord)
    ensures
        final(out)@ == old(out)@ + row_text(Some(*c)),
{
    if c.is_absolute {
        out.push('$');
    }
    push_signed_decimal(out, c.coord);
    assert(out@ =~= old(out)@ + row_text(Some(*c)));
}

/// Reads a corner text.
pub(crate) fn parse_corner(v: &Vec<char>) -> (r: Option<(Option<CellRefCoord>, Option<CellRefCoord>)>)
    ensures
        r == parse_corner_text(v@),
{
    let n = v.len();
    let d0 = n > 0 && v[0] == '$';
    let i1: usize = if d0 {
        1
    } else {
        0
    };
    let i2 = scan_run(v, i1, false);
    let mut col: Option<CellRefCoord> = None;
    let mut i3: usize = i2;
    let mut row_abs = d0;
    if i2 > i1 {
        match read_column(v, i1, i2, UNBOUNDED) {
            Some(x) => {
                if x < 1 {
                    return None;
                }
                col = Some(CellRefCoord { coord: x, is_absolute: d0 });
            },
            None => {
                return None;
            },
        }
        row_abs = i2 < n && v[i2] == '$';
        if row_abs {
            i3 = i2 + 1;
        }
    }
    let i4 = scan_run(v, i3, true);
    if i4 != n {
        return None;
    }
    if i4 == i3 {
        if row_abs {
            None
        } else {
            Some((col, None))
        }
    } else {
        proof {
            lemma_run_end_bounds(v@, i3 as int, true);
            assert forall|k: int| 0 <= k < i4 - i3 implies in_run(
                #[trigger] v@.subrange(i3 as int, i4 as int)[k],
                true,
            ) by {
                assert(in_run(v@[i3 + k], true));
            }
        }
        match read_decimal(v, i3, i4, UNBOUNDED) {
            Some(y) => {
                if y < 1 {
                    None
                } else {
                    Some((col, Some(CellRefCoord { coord: y, is_absolute: row_abs })))
                }
            },
            None => None,
        }
    }
}

} // verus!
