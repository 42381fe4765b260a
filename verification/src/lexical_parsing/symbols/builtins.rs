//! The built-in operations of the language.
use vstd::prelude::*;
use crate::lexical_parsing::symbols::{Symbol, SymbolHandler};
use crate::util::{chars_of, spells};

verus! {

/// A built-in operation.
#[derive(PartialEq, Eq, Structural, Copy, Clone, Debug)]
pub enum Builtin {
    Print,
    PrintChars,
    Input,
}

impl Builtin {
    /// The name of this value in messages.
    pub open spec fn name(self) -> Seq<char> {
        match self {
            Builtin::Print => "Print"@,
            Builtin::PrintChars => "PrintChars"@,
            Builtin::Input => "Input"@,
        }
    }

    /// The name of this value in messages.
    pub fn get_name(&self) -> (name: &'static str)
        ensures
            name@ == self.name(),
    {
        match self {
            Builtin::Print => "Print",
            Builtin::PrintChars => "PrintChars",
            Builtin::Input => "Input",
        }
    }
}

/// The value that a word of source text stands for, if any.
pub open spec fn builtin_of(word: Seq<char>) -> Option<Builtin> {
    if word == "print"@ {
        Some(Builtin::Print)
    } else if word == "printc"@ {
        Some(Builtin::PrintChars)
    } else if word == "input"@ {
        Some(Builtin::Input)
    } else {
        None
    }
}

/// Recognises the names of the built-in operations.
pub struct BuiltinSymbolHandler {}

impl SymbolHandler for BuiltinSymbolHandler {
    open spec fn recognised(string: Seq<char>, symbol: Result<Option<Symbol>, String>) -> bool {
        match builtin_of(string) {
            Some(found) => symbol == Ok::<Option<Symbol>, String>(Some(Symbol::Builtin(found))),
            None => symbol == Ok::<Option<Symbol>, String>(None),
        }
    }

    fn get_symbol(string: &str) -> (symbol: Result<Option<Symbol>, String>) {
        let word = chars_of(string);
        if spells(&word, "print") {
            Ok(Some(Symbol::Builtin(Builtin::Print)))
        } else if spells(&word, "printc") {
            Ok(Some(Symbol::Builtin(Builtin::PrintChars)))
        } else if spells(&word, "input") {
            Ok(Some(Symbol::Builtin(Builtin::Input)))
        } else {
            Ok(None)
        }
    }
}

} // verus!
