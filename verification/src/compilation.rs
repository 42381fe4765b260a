//! From lines of symbols to a program of instructions.
pub mod arithmetic;
pub mod blocks;
pub mod instructions;
pub mod lines;
pub mod processor;
pub mod reference_manager;
pub mod types;
