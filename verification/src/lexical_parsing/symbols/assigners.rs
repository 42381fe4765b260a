//! The assignment operators.
use vstd::prelude::*;
use crate::lexical_parsing::symbols::{Symbol, SymbolHandler};
use crate::lexical_parsing::symbols::operators::Operator;
use crate::util::{chars_of, spells};

verus! {

/// An assignment operator: plain, or combined with an arithmetic operator.
#[derive(PartialEq, Eq, Structural, Copy, Clone, Debug)]
pub enum Assigner {
    Setter,
    AdditionSetter,
    SubtractionSetter,
    ProductSetter,
    DivisionSetter,
}

impl Assigner {
    /// The name of this value in messages.
    pub open spec fn name(self) -> Seq<char> {
        match self {
            Assigner::Setter => "Setter"@,
            Assigner::AdditionSetter => "AdditionSetter"@,
            Assigner::SubtractionSetter => "SubtractionSetter"@,
            Assigner::ProductSetter => "ProductSetter"@,
            Assigner::DivisionSetter => "DivisionSetter"@,
        }
    }

    /// The operator that a combined assignment applies; none for the plain one.
    pub open spec fn operator(self) -> Option<Operator> {
        match self {
            Assigner::Setter => None,
            Assigner::AdditionSetter => Some(Operator::Add),
            Assigner::SubtractionSetter => Some(Operator::Subtract),
            Assigner::ProductSetter => Some(Operator::Product),
            Assigner::DivisionSetter => Some(Operator::Divide),
        }
    }

    /// The expression that the assignment stores: the right-hand side itself
    /// for the plain assignment, otherwise the left-hand side, the operator,
    /// and the right-hand side in brackets.
    pub open spec fn expanded(self, lhs: Symbol, rhs: Vec<Symbol>) -> Seq<Symbol> {
        match self.operator() {
            None => rhs@,
            Some(operator) => seq![
                lhs,
                Symbol::Operator(operator),
                Symbol::BracketedSection(rhs),
            ],
        }
    }

    /// The name of this value in messages.
    pub fn get_name(&self) -> (name: &'static str)
        ensures
            name@ == self.name(),
    {
        match self {
            Assigner::Setter => "Setter",
            Assigner::AdditionSetter => "AdditionSetter",
            Assigner::SubtractionSetter => "SubtractionSetter",
            Assigner::ProductSetter => "ProductSetter",
            Assigner::DivisionSetter => "DivisionSetter",
        }
    }

    /// The operator that a combined assignment applies; none for the plain one.
    pub fn get_operator(&self) -> (operator: Option<Operator>)
        ensures
            operator == self.operator(),
    {
        match self {
            Assigner::Setter => None,
            Assigner::AdditionSetter => Some(Operator::Add),
            Assigner::SubtractionSetter => Some(Operator::Subtract),
            Assigner::ProductSetter => Some(Operator::Product),
            Assigner::DivisionSetter => Some(Operator::Divide),
        }
    }

    /// The expression that assigning `rhs` to `lhs` with this operator stores.
    pub fn get_expanded_equivalent(&self, lhs: Symbol, rhs: Vec<Symbol>) -> (expression: Vec<
        Symbol,
    >)
        ensures
            expression@ == self.expanded(lhs, rhs),
    {
        match self.get_operator() {
            None => rhs,
            Some(operator) => {
                let mut expression: Vec<Symbol> = Vec::new();
                expression.push(lhs);
                expression.push(Symbol::Operator(operator));
                expression.push(Symbol::BracketedSection(rhs));
                assert(expression@ =~= self.expanded(lhs, rhs));
                expression
            },
        }
    }
}

/// The assignment operator that a word of source text stands for, if any.
pub open spec fn assigner_of(word: Seq<char>) -> Option<Assigner> {
    if word == "="@ {
        Some(Assigner::Setter)
    } else if word == "+="@ {
        Some(Assigner::AdditionSetter)
    } else if word == "-="@ {
        Some(Assigner::SubtractionSetter)
    } else if word == "*="@ {
        Some(Assigner::ProductSetter)
    } else if word == "/="@ {
        Some(Assigner::DivisionSetter)
    } else {
        None
    }
}

/// Recognises the assignment operators.
pub struct AssignerSymbolHandler {}

impl SymbolHandler for AssignerSymbolHandler {
    open spec fn recognised(string: Seq<char>, symbol: Result<Option<Symbol>, String>) -> bool {
        match assigner_of(string) {
            Some(found) => symbol == Ok::<Option<Symbol>, String>(Some(Symbol::Assigner(found))),
            None => symbol == Ok::<Option<Symbol>, String>(None),
        }
    }

    fn get_symbol(string: &str) -> (symbol: Result<Option<Symbol>, String>) {
        let word = chars_of(string);
        if spells(&word, "=") {
            Ok(Some(Symbol::Assigner(Assigner::Setter)))
        } else if spells(&word, "+=") {
            Ok(Some(Symbol::Assigner(Assigner::AdditionSetter)))
        } else if spells(&word, "-=") {
            Ok(Some(Symbol::Assigner(Assigner::SubtractionSetter)))
        } else if spells(&word, "*=") {
            Ok(Some(Symbol::Assigner(Assigner::ProductSetter)))
        } else if spells(&word, "/=") {
            Ok(Some(Symbol::Assigner(Assigner::DivisionSetter)))
        } else {
            Ok(None)
        }
    }
}

} // verus!
