//! Dates and times of day as text and as numbers.
//!
//! A date or a time of day is shown with a strftime format. A format that
//! was written for a date with a time holds items that a bare date, or a bare
//! time, cannot fill in: [`format_items`] decides which items of such a
//! format to leave out. [`parse`] reads dates and times in the forms that
//! users type them in.

pub mod format_items;
pub mod parse;
pub mod time_of_day;
pub mod timestamp;

pub use format_items::{
    date_format_plan, find_items_date_start, find_items_time_start, is_date_item, is_space_item,
    is_time_item, time_format_plan, FixedItem, FormatItem, FormatPlan, NumericItem,
};
pub use parse::{am_pm_time_text, parse_date, parse_time};
pub use time_of_day::{i32_to_naive_time, naive_time_to_i32, Date, Time};

pub use timestamp::{i64_to_naive_date, naive_date_time_to_i64, naive_date_to_i64};

use vstd::prelude::*;

verus! {

/// The format of a date where none is given.
pub const DEFAULT_DATE_FORMAT: &'static str = "%m/%d/%Y";

/// The format of a time of day where none is given.
pub const DEFAULT_TIME_FORMAT: &'static str = "%-I:%M %p";

/// The format of a date with a time where none is given.
pub const DEFAULT_DATE_TIME_FORMAT: &'static str = "%m/%d/%Y %-I:%M %p";

} // verus!
