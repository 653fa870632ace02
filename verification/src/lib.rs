//! Line-oriented substring search.
//!
//! The library splits a text into lines, keeps the lines that contain a
//! query string (case-sensitively or case-insensitively), and renders the
//! status message that reports how many lines matched.  Every executable
//! function carries a contract that pins its result down exactly.

mod config;
mod lines;
mod report;
mod search;
mod text;

pub use config::Config;
pub use lines::split_into_lines;
pub use report::status_message;
pub use report::usize_to_decimal;
pub use search::run_results;
pub use search::search;
pub use search::search_case_insensetive;
pub use text::contains_str;
pub use text::trim_str;
