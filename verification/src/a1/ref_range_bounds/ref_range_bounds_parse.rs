//! Reading a range from its text.

use vstd::prelude::*;
use crate::a1::a1_error::{A1Error, A1ErrorView};
use crate::a1::a1_text::{first_index_of, lemma_first_index_is, lemma_first_index_of};
use crate::util::chars_of;
use crate::a1::cell_ref_coord::CellRefCoord;
use crate::a1::cell_ref_range_end::{
    corner_char, corner_text, lemma_corner_text_round_trip, names_position, parse_corner, parse_corner_text,
    CellRefRangeEnd,
};
use crate::a1::ref_range_bounds::ref_range_bounds_create::lemma_new_in_order;
use crate::a1::ref_range_bounds::RefRangeBounds;

verus! {

/// The coordinate that a corner text shows, or `default` where it shows none.
pub open spec fn shown_or(c: Option<CellRefCoord>, default: CellRefCoord) -> CellRefCoord {
    match c {
        Some(c) => c,
        None => default,
    }
}

/// The range that the text `s` stands for, or `None` where it stands for
/// none.
///
/// `*` is the whole sheet. Any other text is one corner text, or two with a
/// colon between them; the first must not be empty, the second may be. What
/// the first does not show is the first position of its axis. What the second
/// does not show is unbounded; where there is no colon, the second corner is
/// the first one again, with what that does not show unbounded. Corners
/// given the wrong way round are put in order.
pub open spec fn parse_range_text(s: Seq<char>) -> Option<RefRangeBounds> {
    if s == seq!['*'] {
        Some(RefRangeBounds::all())
    } else {
        let k = first_index_of(s, ':');
        let left = s.subrange(0, k);
        match parse_corner_text(left) {
            None => None,
            Some((lc, lr)) => {
                let start = CellRefRangeEnd {
                    col: shown_or(lc, CellRefCoord::start()),
                    row: shown_or(lr, CellRefCoord::start()),
                };
                if left.len() == 0 {
                    None
                } else if k == s.len() {
                    Some(
                        RefRangeBounds::new(
                            start,
                            CellRefRangeEnd {
                                col: shown_or(lc, CellRefCoord::unbounded()),
                                row: shown_or(lr, CellRefCoord::unbounded()),
                            },
                        ),
                    )
                } else {
                    match parse_corner_text(s.subrange(k + 1, s.len() as int)) {
                        None => None,
                        Some((rc, rr)) => Some(
                            RefRangeBounds::new(
                                start,
                                CellRefRangeEnd {
                                    col: shown_or(rc, CellRefCoord::unbounded()),
                                    row: shown_or(rr, CellRefCoord::unbounded()),
                                },
                            ),
                        ),
                    }
                }
            },
        }
    }
}

/// The index of the first `c` in `v`, or the length of `v`.
fn find_first(v: &Vec<char>, c: char) -> (k: usize)
    ensures
        k == first_index_of(v@, c),
        k <= v.len(),
{
    let mut k: usize = 0;
    while k < v.len() && v[k] != c
        invariant
            k <= v.len(),
            forall|j: int| 0 <= j < k ==> v@[j] != c,
        decreases v.len() - k,
    {
        k += 1;
    }
    proof {
        lemma_first_index_is(v@, c, k as int);
    }
    k
}

/// The characters of `v` from `from` up to `to`.
fn copy_of(v: &Vec<char>, from: usize, to: usize) -> (w: Vec<char>)
    requires
        from <= to <= v.len(),
    ensures
        w@ == v@.subrange(from as int, to as int),
{
    let mut w: Vec<char> = Vec::new();
    let mut i: usize = from;
    while i < to
        invariant
            from <= i <= to <= v.len(),
            w@ == v@.subrange(from as int, i as int),
        decreases to - i,
    {
        w.push(v[i]);
        i += 1;
        assert(w@ =~= v@.subrange(from as int, i as int));
    }
    w
}

/// The coordinate that a corner text shows, or `default`.
fn take_or(c: Option<CellRefCoord>, default: CellRefCoord) -> (r: CellRefCoord)
    ensures
        r == shown_or(c, default),
{
    match c {
        Some(c) => c,
        None => default,
    }
}

/// The range that the characters `v` stand for.
fn parse_range(v: &Vec<char>) -> (r: Option<RefRangeBounds>)
    ensures
        r == parse_range_text(v@),
{
    if v.len() == 1 && v[0] == '*' {
        assert(v@ =~= seq!['*']);
        return Some(RefRangeBounds::all());
    }
    assert(v@ != seq!['*']) by {
        if v@ == seq!['*'] {
            assert(v@.len() == 1);
            assert(v@[0] == seq!['*'][0]);
        }
    }
    let k = find_first(v, ':');
    let left = copy_of(v, 0, k);
    if left.len() == 0 {
        return None;
    }
    let (lc, lr) = match parse_corner(&left) {
        Some(parts) => parts,
        None => {
            return None;
        },
    };
    let start = CellRefRangeEnd {
        col: take_or(lc, CellRefCoord::start()),
        row: take_or(lr, CellRefCoord::start()),
    };
    if k == v.len() {
        return Some(
            RefRangeBounds::new(
                start,
                CellRefRangeEnd {
                    col: take_or(lc, CellRefCoord::unbounded()),
                    row: take_or(lr, CellRefCoord::unbounded()),
                },
            ),
        );
    }
    let right = copy_of(v, k + 1, v.len());
    match parse_corner(&right) {
        Some((rc, rr)) => Some(
            RefRangeBounds::new(
                start,
                CellRefRangeEnd {
                    col: take_or(rc, CellRefCoord::unbounded()),
                    row: take_or(rr, CellRefCoord::unbounded()),
                },
            ),
        ),
        None => None,
    }
}

impl RefRangeBounds {
    /// Reads a range from its text in A1 notation. Text that stands for no
    /// range is handed back in the error.
    pub fn from_str(s: &str) -> (r: Result<RefRangeBounds, A1Error>)
        ensures
            match parse_range_text(s@) {
                Some(range) => r == Ok::<RefRangeBounds, A1Error>(range),
                None => r is Err && r->Err_0@ == A1ErrorView::InvalidRange(s@),
            },
            r is Ok ==> r->Ok_0.wf(),
    {
        let v = chars_of(s);
        proof {
            lemma_parse_range_text_wf(s@);
        }
        match parse_range(&v) {
            Some(range) => Ok(range),
            None => Err(A1Error::InvalidRange(s.to_owned())),
        }
    }
}

/// What a text parses to is well formed, with a start that names a position
/// on both axes.
pub proof fn lemma_parse_range_text_wf(s: Seq<char>)
    ensures
        parse_range_text(s) is Some ==> {
            &&& parse_range_text(s)->0.wf()
            &&& parse_range_text(s)->0.anchored() == parse_range_text(s)->0
        },
{
    if s != seq!['*'] {
        let k = first_index_of(s, ':');
        lemma_first_index_of(s, ':');
        let left = s.subrange(0, k);
        crate::a1::cell_ref_range_end::lemma_parse_corner_text_valid(left);
        if k < s.len() {
            crate::a1::cell_ref_range_end::lemma_parse_corner_text_valid(
                s.subrange(k + 1, s.len() as int),
            );
        }
    }
}

/// The start corner that a first corner text stands for.
pub open spec fn start_from(lc: Option<CellRefCoord>, lr: Option<CellRefCoord>) -> CellRefRangeEnd {
    CellRefRangeEnd {
        col: shown_or(lc, CellRefCoord::start()),
        row: shown_or(lr, CellRefCoord::start()),
    }
}

/// The end corner that a second corner text stands for.
pub open spec fn end_from(rc: Option<CellRefCoord>, rr: Option<CellRefCoord>) -> CellRefRangeEnd {
    CellRefRangeEnd {
        col: shown_or(rc, CellRefCoord::unbounded()),
        row: shown_or(rr, CellRefCoord::unbounded()),
    }
}

/// A corner text alone parses to the range from that corner to itself.
proof fn lemma_parse_one_corner(left: Seq<char>, lc: Option<CellRefCoord>, lr: Option<CellRefCoord>)
    requires
        left.len() > 0,
        left[0] != '*',
        forall|k: int| 0 <= k < left.len() ==> #[trigger] left[k] != ':',
        parse_corner_text(left) == Some((lc, lr)),
    ensures
        parse_range_text(left) == Some(RefRangeBounds::new(start_from(lc, lr), end_from(lc, lr))),
{
    assert(left != seq!['*']) by {
        if left == seq!['*'] {
            assert(left[0] == seq!['*'][0]);
        }
    }
    lemma_first_index_is(left, ':', left.len() as int);
    assert(left.subrange(0, left.len() as int) =~= left);
}

/// Two corner texts with a colon between them parse to the range between
/// the two corners.
proof fn lemma_parse_two_corners(
    left: Seq<char>,
    right: Seq<char>,
    lc: Option<CellRefCoord>,
    lr: Option<CellRefCoord>,
    rc: Option<CellRefCoord>,
    rr: Option<CellRefCoord>,
)
    requires
        left.len() > 0,
        left[0] != '*',
        forall|k: int| 0 <= k < left.len() ==> #[trigger] left[k] != ':',
        parse_corner_text(left) == Some((lc, lr)),
        parse_corner_text(right) == Some((rc, rr)),
    ensures
        parse_range_text(left + seq![':'] + right) == Some(
            RefRangeBounds::new(start_from(lc, lr), end_from(rc, rr)),
        ),
{
    let t = left + seq![':'] + right;
    let k = left.len() as int;
    assert(t[0] == left[0]);
    assert(t != seq!['*']) by {
        if t == seq!['*'] {
            assert(t[0] == seq!['*'][0]);
        }
    }
    assert forall|j: int| 0 <= j < k implies t[j] != ':' by {
        assert(t[j] == left[j]);
    }
    assert(t[k] == ':');
    lemma_first_index_is(t, ':', k);
    assert(t.subrange(0, k) =~= left);
    assert(t.subrange(k + 1, t.len() as int) =~= right);
}

/// `c` is a character of range texts: a character of corner texts, a colon
/// or a `*`.
pub open spec fn range_char(c: char) -> bool {
    corner_char(c) || c == ':' || c == '*'
}

/// The text of a well-formed range is made of the characters of range texts.
pub proof fn lemma_text_chars(r: RefRangeBounds, k: int)
    requires
        r.wf(),
        0 <= k < r.text().len(),
    ensures
        range_char(r.text()[k]),
{
    let a = r.anchored();
    assert(a.wf());
    assert(names_position(a.start.col) && names_position(a.start.row));
    if a != RefRangeBounds::all() {
        let lc = if a.is_multi_row_range() {
            None
        } else {
            Some(a.start.col)
        };
        let lr = if a.is_col_range() {
            None
        } else {
            Some(a.start.row)
        };
        let rc = if a.end.col.is_unbounded() {
            None
        } else {
            Some(a.end.col)
        };
        let rr = if a.end.row.is_unbounded() {
            None
        } else {
            Some(a.end.row)
        };
        let left = corner_text(lc, lr);
        let right = corner_text(rc, rr);
        lemma_corner_text_round_trip(lc, lr);
        lemma_corner_text_round_trip(rc, rr);
        if k < left.len() {
            assert(corner_char(left[k]));
        } else if k > left.len() {
            assert(corner_char(right[k - left.len() - 1]));
        }
    }
}

/// Reading the text of a well-formed range gives the range back, with its
/// start anchored. A range whose start names a position on both axes is its
/// own anchored form, so it comes back exactly as it was.
pub proof fn lemma_text_round_trip(r: RefRangeBounds)
    requires
        r.wf(),
    ensures
        parse_range_text(r.text()) == Some(r.anchored()),
        !r.start.col.is_unbounded() && !r.start.row.is_unbounded() ==> parse_range_text(r.text())
            == Some(r),
{
    let a = r.anchored();
    assert(a.wf());
    assert(names_position(a.start.col) && names_position(a.start.row));
    if a != RefRangeBounds::all() {
        let lc = if a.is_multi_row_range() {
            None
        } else {
            Some(a.start.col)
        };
        let lr = if a.is_col_range() {
            None
        } else {
            Some(a.start.row)
        };
        let rc = if a.end.col.is_unbounded() {
            None
        } else {
            Some(a.end.col)
        };
        let rr = if a.end.row.is_unbounded() {
            None
        } else {
            Some(a.end.row)
        };
        let left = corner_text(lc, lr);
        let right = corner_text(rc, rr);
        assert(left == a.start_text());
        assert(right == a.end_text());
        lemma_corner_text_round_trip(lc, lr);
        lemma_corner_text_round_trip(rc, rr);
        lemma_new_in_order(a.start, a.end);
        assert(start_from(lc, lr) == a.start);
        assert(corner_char(left[0]));
        assert forall|k: int| 0 <= k < left.len() implies #[trigger] left[k] != ':' by {
            assert(corner_char(left[k]));
        }
        if a.is_single() {
            assert(end_from(lc, lr) == a.end);
            lemma_parse_one_corner(left, lc, lr);
        } else {
            assert(end_from(rc, rr) == a.end);
            lemma_parse_two_corners(left, right, lc, lr, rc, rr);
        }
    }
}

} // verus!
