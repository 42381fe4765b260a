//! A compiler backend for a small indentation-structured imperative language.
//!
//! Lines of symbols are compiled into a flat program of byte-coded
//! instructions over a typed address space. Every function of this crate
//! carries a contract that states the bytes it emits and the bookkeeping it
//! performs.
pub mod util;
pub mod memory;
pub mod lexical_parsing;
pub mod compilation;
