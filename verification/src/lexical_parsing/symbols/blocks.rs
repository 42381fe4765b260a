//! The words that open a block.
use vstd::prelude::*;
use crate::lexical_parsing::symbols::{Symbol, SymbolHandler};
use crate::util::{chars_of, spells};

verus! {

/// A word that opens a block.
#[derive(PartialEq, Eq, Structural, Copy, Clone, Debug)]
pub enum Block {
    While,
    Loop,
    If,
    Elif,
    Else,
    Function,
    Class,
    BaseBlock,
}

impl Block {
    /// The word of source text that stands for this value.
    pub open spec fn code_representation(self) -> Seq<char> {
        match self {
            Block::While => "while"@,
            Block::Loop => "loop"@,
            Block::If => "if"@,
            Block::Elif => "elif"@,
            Block::Else => "else"@,
            Block::Function => "fn"@,
            Block::Class => "class"@,
            Block::BaseBlock => "block"@,
        }
    }

    /// The name of this value in messages.
    pub open spec fn name(self) -> Seq<char> {
        match self {
            Block::While => "While"@,
            Block::Loop => "Loop"@,
            Block::If => "If"@,
            Block::Elif => "Elif"@,
            Block::Else => "Else"@,
            Block::Function => "Function"@,
            Block::Class => "Class"@,
            Block::BaseBlock => "BaseBlock"@,
        }
    }

    /// The word of source text that stands for this value.
    pub fn get_code_representation(&self) -> (word: &'static str)
        ensures
            word@ == self.code_representation(),
    {
        match self {
            Block::While => "while",
            Block::Loop => "loop",
            Block::If => "if",
            Block::Elif => "elif",
            Block::Else => "else",
            Block::Function => "fn",
            Block::Class => "class",
            Block::BaseBlock => "block",
        }
    }

    /// The name of this value in messages.
    pub fn get_name(&self) -> (name: &'static str)
        ensures
            name@ == self.name(),
    {
        match self {
            Block::While => "While",
            Block::Loop => "Loop",
            Block::If => "If",
            Block::Elif => "Elif",
            Block::Else => "Else",
            Block::Function => "Function",
            Block::Class => "Class",
            Block::BaseBlock => "BaseBlock",
        }
    }
}

/// The value that a word of source text stands for, if any.
pub open spec fn block_of(word: Seq<char>) -> Option<Block> {
    if word == "while"@ {
        Some(Block::While)
    } else if word == "loop"@ {
        Some(Block::Loop)
    } else if word == "if"@ {
        Some(Block::If)
    } else if word == "elif"@ {
        Some(Block::Elif)
    } else if word == "else"@ {
        Some(Block::Else)
    } else if word == "fn"@ {
        Some(Block::Function)
    } else if word == "class"@ {
        Some(Block::Class)
    } else if word == "block"@ {
        Some(Block::BaseBlock)
    } else {
        None
    }
}

/// Recognises the words that open a block.
pub struct BlockSymbolHandler {}

impl SymbolHandler for BlockSymbolHandler {
    open spec fn recognised(string: Seq<char>, symbol: Result<Option<Symbol>, String>) -> bool {
        match block_of(string) {
            Some(found) => symbol == Ok::<Option<Symbol>, String>(Some(Symbol::Block(found))),
            None => symbol == Ok::<Option<Symbol>, String>(None),
        }
    }

    fn get_symbol(string: &str) -> (symbol: Result<Option<Symbol>, String>) {
        let word = chars_of(string);
        if spells(&word, "while") {
            Ok(Some(Symbol::Block(Block::While)))
        } else if spells(&word, "loop") {
            Ok(Some(Symbol::Block(Block::Loop)))
        } else if spells(&word, "if") {
            Ok(Some(Symbol::Block(Block::If)))
        } else if spells(&word, "elif") {
            Ok(Some(Symbol::Block(Block::Elif)))
        } else if spells(&word, "else") {
            Ok(Some(Symbol::Block(Block::Else)))
        } else if spells(&word, "fn") {
            Ok(Some(Symbol::Block(Block::Function)))
        } else if spells(&word, "class") {
            Ok(Some(Symbol::Block(Block::Class)))
        } else if spells(&word, "block") {
            Ok(Some(Symbol::Block(Block::BaseBlock)))
        } else {
            Ok(None)
        }
    }
}

} // verus!
