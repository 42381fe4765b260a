//! From source text to lines of symbols.
pub mod preprocessor;
pub mod simple_line_error;
pub mod symbols;
