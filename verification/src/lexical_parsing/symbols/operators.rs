//! The operators of expressions.
use vstd::prelude::*;
use crate::lexical_parsing::symbols::{Symbol, SymbolHandler};
use crate::lexical_parsing::symbols::types::TypeSymbol;
use crate::util::{chars_of, spells};

verus! {

/// An operator of an expression.
#[derive(PartialEq, Eq, Structural, Copy, Clone, Debug)]
pub enum Operator {
    Cast(TypeSymbol),
    Add,
    Subtract,
    Product,
    Divide,
    Greater,
    Less,
    GreaterEqual,
    LessEqual,
    Equal,
    NotEqual,
    Or,
    And,
    Not,
}

impl Operator {
    /// The name of the operator in messages.
    pub open spec fn name(self) -> Seq<char> {
        match self {
            Operator::Cast(_) => "Cast"@,
            Operator::Add => "Add"@,
            Operator::Subtract => "Subtract"@,
            Operator::Product => "Product"@,
            Operator::Divide => "Divide"@,
            Operator::Greater => "Greater"@,
            Operator::Less => "Less"@,
            Operator::GreaterEqual => "GreaterEqual"@,
            Operator::LessEqual => "LessEqual"@,
            Operator::Equal => "Equal"@,
            Operator::NotEqual => "NotEqual"@,
            Operator::Or => "Or"@,
            Operator::And => "And"@,
            Operator::Not => "Not"@,
        }
    }

    /// The name of the operator in messages.
    pub fn get_name(&self) -> (name: &'static str)
        ensures
            name@ == self.name(),
    {
        match self {
            Operator::Cast(_) => "Cast",
            Operator::Add => "Add",
            Operator::Subtract => "Subtract",
            Operator::Product => "Product",
            Operator::Divide => "Divide",
            Operator::Greater => "Greater",
            Operator::Less => "Less",
            Operator::GreaterEqual => "GreaterEqual",
            Operator::LessEqual => "LessEqual",
            Operator::Equal => "Equal",
            Operator::NotEqual => "NotEqual",
            Operator::Or => "Or",
            Operator::And => "And",
            Operator::Not => "Not",
        }
    }
}

/// The operator that a word of source text stands for, if any.
pub open spec fn operator_of(word: Seq<char>) -> Option<Operator> {
    if word == "+"@ {
        Some(Operator::Add)
    } else if word == "-"@ {
        Some(Operator::Subtract)
    } else if word == "*"@ {
        Some(Operator::Product)
    } else if word == "/"@ {
        Some(Operator::Divide)
    } else if word == ">"@ {
        Some(Operator::Greater)
    } else if word == "<"@ {
        Some(Operator::Less)
    } else if word == ">="@ {
        Some(Operator::GreaterEqual)
    } else if word == "<="@ {
        Some(Operator::LessEqual)
    } else if word == "=="@ {
        Some(Operator::Equal)
    } else if word == "!="@ {
        Some(Operator::NotEqual)
    } else if word == "|"@ {
        Some(Operator::Or)
    } else if word == "&"@ {
        Some(Operator::And)
    } else if word == "!"@ {
        Some(Operator::Not)
    } else {
        None
    }
}

/// Recognises the operators.
pub struct OperatorSymbolHandler {}

impl SymbolHandler for OperatorSymbolHandler {
    open spec fn recognised(string: Seq<char>, symbol: Result<Option<Symbol>, String>) -> bool {
        match operator_of(string) {
            Some(found) => symbol == Ok::<Option<Symbol>, String>(Some(Symbol::Operator(found))),
            None => symbol == Ok::<Option<Symbol>, String>(None),
        }
    }

    fn get_symbol(string: &str) -> (symbol: Result<Option<Symbol>, String>) {
        let word = chars_of(string);
        if spells(&word, "+") {
            Ok(Some(Symbol::Operator(Operator::Add)))
        } else if spells(&word, "-") {
            Ok(Some(Symbol::Operator(Operator::Subtract)))
        } else if spells(&word, "*") {
            Ok(Some(Symbol::Operator(Operator::Product)))
        } else if spells(&word, "/") {
            Ok(Some(Symbol::Operator(Operator::Divide)))
        } else if spells(&word, ">") {
            Ok(Some(Symbol::Operator(Operator::Greater)))
        } else if spells(&word, "<") {
            Ok(Some(Symbol::Operator(Operator::Less)))
        } else if spells(&word, ">=") {
            Ok(Some(Symbol::Operator(Operator::GreaterEqual)))
        } else if spells(&word, "<=") {
            Ok(Some(Symbol::Operator(Operator::LessEqual)))
        } else if spells(&word, "==") {
            Ok(Some(Symbol::Operator(Operator::Equal)))
        } else if spells(&word, "!=") {
            Ok(Some(Symbol::Operator(Operator::NotEqual)))
        } else if spells(&word, "|") {
            Ok(Some(Symbol::Operator(Operator::Or)))
        } else if spells(&word, "&") {
            Ok(Some(Symbol::Operator(Operator::And)))
        } else if spells(&word, "!") {
            Ok(Some(Symbol::Operator(Operator::Not)))
        } else {
            Ok(None)
        }
    }
}

} // verus!
