//! The names of the types of the language.
use vstd::prelude::*;
use crate::lexical_parsing::symbols::{Symbol, SymbolHandler};
use crate::util::spells;
use crate::util::chars_of;

verus! {

/// A type of the language.
#[derive(PartialEq, Eq, Structural, Copy, Clone, Debug)]
pub enum TypeSymbol {
    Integer,
    Boolean,
    Character,
    Pointer,
}

impl TypeSymbol {
    /// The word that names the type in source text.
    pub open spec fn code_representation(self) -> Seq<char> {
        match self {
            TypeSymbol::Integer => "int"@,
            TypeSymbol::Boolean => "bool"@,
            TypeSymbol::Character => "char"@,
            TypeSymbol::Pointer => "ptr"@,
        }
    }

    /// The name of the type in messages.
    pub open spec fn name(self) -> Seq<char> {
        match self {
            TypeSymbol::Integer => "Integer"@,
            TypeSymbol::Boolean => "Boolean"@,
            TypeSymbol::Character => "Character"@,
            TypeSymbol::Pointer => "Pointer"@,
        }
    }

    /// The word that names the type in source text.
    pub fn get_code_representation(&self) -> (word: &'static str)
        ensures
            word@ == self.code_representation(),
    {
        match self {
            TypeSymbol::Integer => "int",
            TypeSymbol::Boolean => "bool",
            TypeSymbol::Character => "char",
            TypeSymbol::Pointer => "ptr",
        }
    }

    /// The name of the type in messages.
    pub fn get_name(&self) -> (name: &'static str)
        ensures
            name@ == self.name(),
    {
        match self {
            TypeSymbol::Integer => "Integer",
            TypeSymbol::Boolean => "Boolean",
            TypeSymbol::Character => "Character",
            TypeSymbol::Pointer => "Pointer",
        }
    }
}

/// The type that a word of source text names, if any.
pub open spec fn type_symbol_of(word: Seq<char>) -> Option<TypeSymbol> {
    if word == "int"@ {
        Some(TypeSymbol::Integer)
    } else if word == "bool"@ {
        Some(TypeSymbol::Boolean)
    } else if word == "char"@ {
        Some(TypeSymbol::Character)
    } else if word == "ptr"@ {
        Some(TypeSymbol::Pointer)
    } else {
        None
    }
}

/// Recognises the names of types.
pub struct TypeSymbolHandler {}

impl TypeSymbolHandler {
    /// The type that `string` names, if any.
    pub fn get_raw_symbol(string: &str) -> (symbol: Option<TypeSymbol>)
        ensures
            symbol == type_symbol_of(string@),
    {
        let word = chars_of(string);
        if spells(&word, "int") {
            Some(TypeSymbol::Integer)
        } else if spells(&word, "bool") {
            Some(TypeSymbol::Boolean)
        } else if spells(&word, "char") {
            Some(TypeSymbol::Character)
        } else if spells(&word, "ptr") {
            Some(TypeSymbol::Pointer)
        } else {
            None
        }
    }
}

impl SymbolHandler for TypeSymbolHandler {
    open spec fn recognised(string: Seq<char>, symbol: Result<Option<Symbol>, String>) -> bool {
        match type_symbol_of(string) {
            Some(found) => symbol == Ok::<Option<Symbol>, String>(Some(Symbol::Type(found))),
            None => symbol == Ok::<Option<Symbol>, String>(None),
        }
    }

    fn get_symbol(string: &str) -> (symbol: Result<Option<Symbol>, String>) {
        match TypeSymbolHandler::get_raw_symbol(string) {
            Some(symbol) => Ok(Some(Symbol::Type(symbol))),
            None => Ok(None),
        }
    }
}

} // verus!
