//! Git support: the data the panels show, the parsing of git's output, and
//! the plans of git commands behind each operation.
pub mod operations;
pub mod parse;
pub mod types;
pub mod utils;
pub mod laws;
