//! Another path to the summary table: the same functions as `report`.
pub use crate::report::{format_report, render_report};
