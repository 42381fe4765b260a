//! Punctuation.
use vstd::prelude::*;
use crate::lexical_parsing::symbols::{Symbol, SymbolHandler};
use crate::util::{chars_of, spells};

verus! {

/// The character that separates the items of a list.
pub const LIST_SEPARATOR_CHARACTER: char = ',';

/// A punctuation mark.
#[derive(PartialEq, Eq, Structural, Copy, Clone, Debug)]
pub enum Punctuation {
    ListSeparator,
}

impl Punctuation {
    /// The name of this value in messages.
    pub open spec fn name(self) -> Seq<char> {
        match self {
            Punctuation::ListSeparator => "ListSeparator"@,
        }
    }

    /// The name of this value in messages.
    pub fn get_name(&self) -> (name: &'static str)
        ensures
            name@ == self.name(),
    {
        match self {
            Punctuation::ListSeparator => "ListSeparator",
        }
    }
}

/// The value that a word of source text stands for, if any.
pub open spec fn punctuation_of(word: Seq<char>) -> Option<Punctuation> {
    if word == ","@ {
        Some(Punctuation::ListSeparator)
    } else {
        None
    }
}

/// Recognises punctuation.
pub struct PunctuationSymbolHandler {}

impl SymbolHandler for PunctuationSymbolHandler {
    open spec fn recognised(string: Seq<char>, symbol: Result<Option<Symbol>, String>) -> bool {
        match punctuation_of(string) {
            Some(found) => symbol == Ok::<Option<Symbol>, String>(Some(Symbol::Punctuation(found))),
            None => symbol == Ok::<Option<Symbol>, String>(None),
        }
    }

    fn get_symbol(string: &str) -> (symbol: Result<Option<Symbol>, String>) {
        let word = chars_of(string);
        if spells(&word, ",") {
            Ok(Some(Symbol::Punctuation(Punctuation::ListSeparator)))
        } else {
            Ok(None)
        }
    }
}

} // verus!
