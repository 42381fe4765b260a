//! The kinds of line: each recognises its lines and compiles them.
pub mod break_continue;
pub mod call;
pub mod class_line;
pub mod dump;
pub mod function_line;
pub mod if_line;
pub mod line_handler;
pub mod variable_assignment;
pub mod variable_initialisation;
pub mod view_memory;
pub mod while_line;

pub use line_handler::LineHandler;
