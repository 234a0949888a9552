//! Cell and range references in A1 notation: sheet-name prefixes, range
//! bounds with sides that may be unbounded, and the algebra over them.

pub mod a1;
pub mod date_time;
pub mod grid;
pub mod util;

pub use grid::{Pos, Rect, SheetId};
pub use util::case_fold;
