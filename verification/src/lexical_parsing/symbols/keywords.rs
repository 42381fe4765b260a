//! The keywords of the language.
use vstd::prelude::*;
use crate::lexical_parsing::symbols::{Symbol, SymbolHandler};
use crate::util::{chars_of, spells};

verus! {

/// A keyword.
#[derive(PartialEq, Eq, Structural, Copy, Clone, Debug)]
pub enum Keyword {
    Break,
    Continue,
    Dump,
    ViewMemory,
    ViewMemoryDecimal,
    As,
    Import,
}

impl Keyword {
    /// The word of source text that stands for this value.
    pub open spec fn code_representation(self) -> Seq<char> {
        match self {
            Keyword::Break => "break"@,
            Keyword::Continue => "continue"@,
            Keyword::Dump => "dump"@,
            Keyword::ViewMemory => "viewmem"@,
            Keyword::ViewMemoryDecimal => "viewmemdec"@,
            Keyword::As => "as"@,
            Keyword::Import => "import"@,
        }
    }

    /// The name of this value in messages.
    pub open spec fn name(self) -> Seq<char> {
        match self {
            Keyword::Break => "Break"@,
            Keyword::Continue => "Continue"@,
            Keyword::Dump => "Dump"@,
            Keyword::ViewMemory => "ViewMemory"@,
            Keyword::ViewMemoryDecimal => "ViewMemoryDecimal"@,
            Keyword::As => "As"@,
            Keyword::Import => "Import"@,
        }
    }

    /// The word of source text that stands for this value.
    pub fn get_code_representation(&self) -> (word: &'static str)
        ensures
            word@ == self.code_representation(),
    {
        match self {
            Keyword::Break => "break",
            Keyword::Continue => "continue",
            Keyword::Dump => "dump",
            Keyword::ViewMemory => "viewmem",
            Keyword::ViewMemoryDecimal => "viewmemdec",
            Keyword::As => "as",
            Keyword::Import => "import",
        }
    }

    /// The name of this value in messages.
    pub fn get_name(&self) -> (name: &'static str)
        ensures
            name@ == self.name(),
    {
        match self {
            Keyword::Break => "Break",
            Keyword::Continue => "Continue",
            Keyword::Dump => "Dump",
            Keyword::ViewMemory => "ViewMemory",
            Keyword::ViewMemoryDecimal => "ViewMemoryDecimal",
            Keyword::As => "As",
            Keyword::Import => "Import",
        }
    }
}

/// The value that a word of source text stands for, if any.
pub open spec fn keyword_of(word: Seq<char>) -> Option<Keyword> {
    if word == "break"@ {
        Some(Keyword::Break)
    } else if word == "continue"@ {
        Some(Keyword::Continue)
    } else if word == "dump"@ {
        Some(Keyword::Dump)
    } else if word == "viewmem"@ {
        Some(Keyword::ViewMemory)
    } else if word == "viewmemdec"@ {
        Some(Keyword::ViewMemoryDecimal)
    } else if word == "as"@ {
        Some(Keyword::As)
    } else if word == "import"@ {
        Some(Keyword::Import)
    } else {
        None
    }
}

/// Recognises the keywords.
pub struct KeywordSymbolHandler {}

impl SymbolHandler for KeywordSymbolHandler {
    open spec fn recognised(string: Seq<char>, symbol: Result<Option<Symbol>, String>) -> bool {
        match keyword_of(string) {
            Some(found) => symbol == Ok::<Option<Symbol>, String>(Some(Symbol::Keyword(found))),
            None => symbol == Ok::<Option<Symbol>, String>(None),
        }
    }

    fn get_symbol(string: &str) -> (symbol: Result<Option<Symbol>, String>) {
        let word = chars_of(string);
        if spells(&word, "break") {
            Ok(Some(Symbol::Keyword(Keyword::Break)))
        } else if spells(&word, "continue") {
            Ok(Some(Symbol::Keyword(Keyword::Continue)))
        } else if spells(&word, "dump") {
            Ok(Some(Symbol::Keyword(Keyword::Dump)))
        } else if spells(&word, "viewmem") {
            Ok(Some(Symbol::Keyword(Keyword::ViewMemory)))
        } else if spells(&word, "viewmemdec") {
            Ok(Some(Symbol::Keyword(Keyword::ViewMemoryDecimal)))
        } else if spells(&word, "as") {
            Ok(Some(Symbol::Keyword(Keyword::As)))
        } else if spells(&word, "import") {
            Ok(Some(Symbol::Keyword(Keyword::Import)))
        } else {
            Ok(None)
        }
    }
}

} // verus!
