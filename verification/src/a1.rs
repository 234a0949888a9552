//! A1 notation.

pub mod a1_error;
pub mod a1_sheet_name;
pub mod a1_text;
pub mod cell_ref_coord;
pub mod cell_ref_range_end;
pub mod ref_range_bounds;
pub mod sheet_cell_ref_range;

pub use a1_error::A1Error;
pub use a1_text::{column_from_name, column_name};
pub use a1_sheet_name::{
    parse_optional_sheet_name, parse_optional_sheet_name_to_id, quote_sheet_name,
    sheet_name_must_be_quoted, SheetNameIdMap,
};
pub use cell_ref_coord::{CellRefCoord, UNBOUNDED};
pub use cell_ref_range_end::CellRefRangeEnd;
pub use ref_range_bounds::RefRangeBounds;
pub use sheet_cell_ref_range::SheetCellRefRange;
