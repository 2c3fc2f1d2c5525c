//! A small line-search library.
//!
//! Given a pattern and the full text of a file, the library returns the
//! lines that contain the pattern, either by exact comparison or after
//! lowercasing both sides.  A `Config` gathers the pattern, the file path
//! and the case-sensitivity flag from plain values handed in by the caller.

pub mod config;
pub mod laws;
pub mod lines;
pub mod matching;
pub mod search;

pub use config::Config;
pub use config::ConfigError;
pub use search::search;
pub use search::search_case_insensitive;
pub use search::search_with_config;
