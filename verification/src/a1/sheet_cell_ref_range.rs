//! A range together with the sheet that it lies on.

use vstd::prelude::*;
use vstd::string::StringExecFns;
use crate::a1::a1_error::{A1Error, A1ErrorView};
use crate::a1::a1_sheet_name::{
    lemma_quoted_name_round_trip, parse_optional_sheet_name_to_id, quote_sheet_name,
    quoted, resolve_sheet_name_text, SheetNameIdMap,
};
use crate::a1::ref_range_bounds::ref_range_bounds_parse::{
    lemma_text_chars, lemma_text_round_trip, parse_range_text,
};
use crate::a1::ref_range_bounds::RefRangeBounds;
use crate::grid::SheetId;
use crate::util::lowercase;

verus! {

/// A range of cells on one sheet.
#[derive(Clone, Copy, Debug, PartialEq, Eq, Hash)]
pub struct SheetCellRefRange {
    pub sheet_id: SheetId,
    pub cells: RefRangeBounds,
}

/// What a reference text stands for: the sheet that it names, or
/// `default_sheet` where it names none, and the range that the rest of it
/// stands for.
pub open spec fn parse_reference_text(
    s: Seq<char>,
    default_sheet: SheetId,
    sheets: Map<Seq<char>, (Seq<char>, SheetId)>,
) -> Result<SheetCellRefRange, A1ErrorView> {
    match resolve_sheet_name_text(s, default_sheet, sheets) {
        Ok((sheet_id, rest)) => match parse_range_text(rest) {
            Some(cells) => Ok(SheetCellRefRange { sheet_id, cells }),
            None => Err(A1ErrorView::InvalidRange(rest)),
        },
        Err(e) => Err(e),
    }
}

/// The text of a reference to the range `cells` on the sheet that goes by
/// `name`.
pub open spec fn reference_text(name: Seq<char>, cells: RefRangeBounds) -> Seq<char> {
    quoted(name) + seq!['!'] + cells.text()
}

/// The outcome of reading a reference, as plain values.
pub open spec fn reference_outcome(r: Result<SheetCellRefRange, A1Error>) -> Result<
    SheetCellRefRange,
    A1ErrorView,
> {
    match r {
        Ok(range) => Ok(range),
        Err(e) => Err(e@),
    }
}

impl SheetCellRefRange {
    /// Reads a reference such as `A1:B2`, `Sheet1!C` or `'My Sheet'!3:5`.
    /// A reference without a sheet name lies on `default_sheet_id`.
    pub fn parse(a1: &str, default_sheet_id: &SheetId, sheet_map: &SheetNameIdMap) -> (r: Result<
        SheetCellRefRange,
        A1Error,
    >)
        ensures
            reference_outcome(r) == parse_reference_text(a1@, *default_sheet_id, sheet_map@),
    {
        match parse_optional_sheet_name_to_id(a1, default_sheet_id, sheet_map) {
            Ok((sheet_id, rest)) => match RefRangeBounds::from_str(rest) {
                Ok(cells) => Ok(SheetCellRefRange { sheet_id, cells }),
                Err(e) => Err(e),
            },
            Err(e) => Err(e),
        }
    }

    /// The text of the reference, with `sheet_name` as the name of its sheet.
    pub fn to_a1_string(&self, sheet_name: &str) -> (s: String)
        ensures
            s@ == reference_text(sheet_name@, self.cells),
    {
        let mut out = quote_sheet_name(sheet_name);
        out.push('!');
        let cells = self.cells.to_string();
        out.append(cells.as_str());
        proof {
            assert(out@ =~= reference_text(sheet_name@, self.cells));
        }
        out
    }
}

/// Reading the text of a reference to a well-formed range gives the sheet
/// that goes by the name in it, and the range with its start anchored.
pub proof fn lemma_reference_round_trip(
    name: Seq<char>,
    cells: RefRangeBounds,
    default_sheet: SheetId,
    sheets: Map<Seq<char>, (Seq<char>, SheetId)>,
)
    requires
        cells.wf(),
        sheets.contains_key(lowercase(name)),
    ensures
        parse_reference_text(reference_text(name, cells), default_sheet, sheets) == Ok::<
            SheetCellRefRange,
            A1ErrorView,
        >(SheetCellRefRange { sheet_id: sheets[lowercase(name)].1, cells: cells.anchored() }),
{
    let rest = cells.text();
    assert(!rest.contains('!')) by {
        if rest.contains('!') {
            let k = choose|k: int| 0 <= k < rest.len() && rest[k] == '!';
            lemma_text_chars(cells, k);
        }
    }
    lemma_quoted_name_round_trip(name, rest);
    lemma_text_round_trip(cells);
}

} // verus!
