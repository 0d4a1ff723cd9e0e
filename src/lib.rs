//! Repository activity statistics: classification of issue and pull-request
//! records, day-window tallies, and a Markdown report of the result.
pub mod age;
pub mod dates;
pub mod double;
pub mod records;
pub mod render;
pub mod report;
pub mod stats;
pub mod text;
