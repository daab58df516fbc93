//! Literal substring search over text files: locating occurrences of a query
//! on each line, and rendering matched lines within a bounded display width.

pub mod display;
pub mod file;
pub mod format;
pub mod laws;
pub mod locate;
pub mod paint;
pub mod parallel;
pub mod report;
pub mod search;
pub mod text;
pub mod usage;
