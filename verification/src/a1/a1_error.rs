//! The ways in which reading or moving a reference fails.

use vstd::prelude::*;

verus! {

/// A failure, with the text that caused it.
#[derive(Clone, Debug, PartialEq, Eq)]
pub enum A1Error {
    /// No sheet of the map goes by this name.
    InvalidSheetName(String),
    /// A sheet name with a space or `!` in it stands without quotes.
    InvalidSheetNameMissingQuotes(String),
    /// A quote stands in a sheet name without its partner.
    MismatchedQuotes(String),
    /// The text is no range: its column letters or row number are malformed,
    /// name no position of the sheet, or a part of it is missing.
    InvalidRange(String),
    /// Moving the range, given by its text, would take a coordinate off the
    /// sheet.
    OutOfBounds(String),
}

/// A failure as a plain value.
pub enum A1ErrorView {
    InvalidSheetName(Seq<char>),
    InvalidSheetNameMissingQuotes(Seq<char>),
    MismatchedQuotes(Seq<char>),
    InvalidRange(Seq<char>),
    OutOfBounds(Seq<char>),
}

impl View for A1Error {
    type V = A1ErrorView;

    open spec fn view(&self) -> A1ErrorView {
        match self {
            A1Error::InvalidSheetName(s) => A1ErrorView::InvalidSheetName(s@),
            A1Error::InvalidSheetNameMissingQuotes(s) => A1ErrorView::InvalidSheetNameMissingQuotes(
                s@,
            ),
            A1Error::MismatchedQuotes(s) => A1ErrorView::MismatchedQuotes(s@),
            A1Error::InvalidRange(s) => A1ErrorView::InvalidRange(s@),
            A1Error::OutOfBounds(s) => A1ErrorView::OutOfBounds(s@),
        }
    }
}

} // verus!
