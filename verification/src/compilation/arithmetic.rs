//! Expressions: a single value, a prefix operator and a value, two values
//! around an operator, or a value cast to a type. Values are names,
//! literals and bracketed expressions; there is no operator precedence.
use vstd::prelude::*;
use crate::compilation::blocks::{Output, StackSizes};
use crate::compilation::reference_manager::{
    lemma_lookup_ok, lemma_well_formed_grows, not_a_variable_message, not_found_message, Reference, ReferenceStack,
};
use crate::compilation::types::{
    allocated_sizes, fresh_variable, incorrect_type_error, incorrect_type_message, lemma_copy_appends,
    lemma_literal_copy_appends, lemma_operated_appends, lemma_operated_prefix_appends,
    literal_variable, Type, TypeFactory,
};
use crate::lexical_parsing::symbols::{Assigner, Keyword, Operator, Symbol, TypeSymbol};
use crate::memory::memory_manager::MemoryManager;
use crate::util::ref_or_box::RefOrBox;

verus! {

/// Where the result of an expression goes.
pub enum ReturnOptions<'a> {
    /// The result is stored in the given value; none is returned.
    IntoType(&'a Type),
    /// The result has one of the given types; any type where none is given.
    OneOfTypes(&'a [TypeSymbol]),
    /// The result has any type, the given one where possible.
    PreferType(TypeSymbol),
    /// The result has any type.
    AnyType,
}

/// Where the result of an expression goes, as plain values.
pub enum ReturnModel {
    IntoType(Type),
    OneOfTypes(Seq<TypeSymbol>),
    PreferType(TypeSymbol),
    AnyType,
}

impl ReturnModel {
    /// The type that the result should have where there is a choice.
    pub open spec fn prefered_type(self) -> Option<TypeSymbol> {
        match self {
            ReturnModel::IntoType(into) => Some(into.type_symbol()),
            ReturnModel::OneOfTypes(options) => if options.len() > 0 {
                Some(options[0])
            } else {
                None
            },
            ReturnModel::PreferType(prefered) => Some(prefered),
            ReturnModel::AnyType => None,
        }
    }

    /// True where a destination, if there is one, has a cell.
    pub open spec fn is_ready(self) -> bool {
        self matches ReturnModel::IntoType(into) ==> into.is_allocated()
    }
}

impl<'a> ReturnOptions<'a> {
    /// The options as plain values.
    pub open spec fn model(self) -> ReturnModel {
        match self {
            ReturnOptions::IntoType(into) => ReturnModel::IntoType(*into),
            ReturnOptions::OneOfTypes(options) => ReturnModel::OneOfTypes(options@),
            ReturnOptions::PreferType(prefered) => ReturnModel::PreferType(prefered),
            ReturnOptions::AnyType => ReturnModel::AnyType,
        }
    }

    /// The type that the result should have where there is a choice: that
    /// of a destination, the first of the types asked for, or the type
    /// preferred.
    pub fn get_prefered_type(&self) -> (prefered: Option<TypeSymbol>)
        ensures
            prefered == self.model().prefered_type(),
    {
        match self {
            ReturnOptions::IntoType(into) => Some(into.get_type_symbol()),
            ReturnOptions::OneOfTypes(options) => if options.len() > 0 {
                Some(options[0])
            } else {
                None
            },
            ReturnOptions::PreferType(prefered) => Some(*prefered),
            ReturnOptions::AnyType => None,
        }
    }
}

/// What an expression came to: the value that holds the result, unless the
/// result was stored in a given value, and what was produced.
pub struct Evaluated {
    pub value: Option<Type>,
    pub output: Output,
}

/// True where `types` holds `symbol` at or after `from`.
pub open spec fn holds_type(types: Seq<TypeSymbol>, symbol: TypeSymbol, from: int) -> bool
    decreases types.len() - from,
{
    if from < 0 || from >= types.len() {
        false
    } else if types[from] == symbol {
        true
    } else {
        holds_type(types, symbol, from + 1)
    }
}

/// The first of `results`, at or after `from`, that `wanted` holds.
pub open spec fn first_wanted(results: Seq<TypeSymbol>, wanted: Seq<TypeSymbol>, from: int)
    -> Option<TypeSymbol>
    decreases results.len() - from,
{
    if from < 0 || from >= results.len() {
        None
    } else if holds_type(wanted, results[from], 0) {
        Some(results[from])
    } else {
        first_wanted(results, wanted, from + 1)
    }
}

/// True where a value of type `symbol` is acceptable among `types`: it is
/// one of them, or none is given.
pub open spec fn accepts_type(types: Seq<TypeSymbol>, symbol: TypeSymbol) -> bool {
    types.len() == 0 || holds_type(types, symbol, 0)
}

pub open spec fn empty_section_message() -> Seq<char> {
    "Cannot evaluate a section with no symbols"@
}

pub open spec fn prefix_format_message() -> Seq<char> {
    "Operator must be followed by a Literal or Name"@
}

pub open spec fn section_format_message() -> Seq<char> {
    "Arithmetic sections must be formated [Operator] [Value], [Value] [Operator] [Value] or [Value] as [Type]"@
}

pub open spec fn expression_expected_message() -> Seq<char> {
    "Expected an expression"@
}

/// The message for an operator that the operands do not offer.
pub open spec fn operator_not_implemented_message(
    lhs: TypeSymbol,
    operator: Operator,
    rhs: Option<TypeSymbol>,
) -> Seq<char> {
    match rhs {
        Some(rhs) => operator.name() + " not supported between "@ + lhs.name() + " and "@
            + rhs.name(),
        None => operator.name() + " not supported on "@ + lhs.name(),
    }
}

/// The result type to produce for the given options from the result types
/// that an operator offers: the first one where any type will do, the first
/// wanted one where some are wanted.
pub open spec fn chosen_type(
    results: Seq<TypeSymbol>,
    options: ReturnModel,
    lhs: TypeSymbol,
    operator: Operator,
    rhs: Option<TypeSymbol>,
) -> Result<TypeSymbol, Seq<char>> {
    if results.len() == 0 {
        Err(operator_not_implemented_message(lhs, operator, rhs))
    } else {
        match options {
            ReturnModel::OneOfTypes(types) => match first_wanted(results, types, 0) {
                Some(symbol) => Ok(symbol),
                None => Err(incorrect_type_message(types, results)),
            },
            _ => Ok(results[0]),
        }
    }
}

/// The frame counters after an operator could not be applied: as they
/// were, unless the failure came once the result had been given a cell.
pub open spec fn sizes_after_failure(
    chosen: Result<TypeSymbol, Seq<char>>,
    options: ReturnModel,
    stack_sizes: Seq<usize>,
) -> Seq<usize> {
    match chosen {
        Ok(symbol) => if options is IntoType {
            stack_sizes
        } else {
            allocated_sizes(symbol, stack_sizes)
        },
        Err(_) => stack_sizes,
    }
}

/// What a prefix operator applied to `operand` comes to.
pub open spec fn evaluated_prefix(
    operator: Operator,
    operand: Type,
    options: ReturnModel,
    before: Output,
) -> Result<Evaluated, Seq<char>> {
    match options {
        ReturnModel::IntoType(into) => match operand.operated_prefix(operator, into, before) {
            Ok(output) => Ok(Evaluated { value: None, output }),
            Err(message) => Err(message),
        },
        _ => match chosen_type(
            Type::prefix_operation_result_types(operand.type_symbol(), operator),
            options,
            operand.type_symbol(),
            operator,
            None,
        ) {
            Err(message) => Err(message),
            Ok(symbol) => match fresh_variable(symbol, before.stack_sizes) {
                Err(message) => Err(message),
                Ok((variable, stack_sizes)) => match operand.operated_prefix(
                    operator,
                    variable,
                    Output { memory: before.memory, stack_sizes },
                ) {
                    Ok(output) => Ok(Evaluated { value: Some(variable), output }),
                    Err(message) => Err(message),
                },
            },
        },
    }
}

/// What a binary operator applied to `lhs` and `rhs` comes to.
pub open spec fn evaluated_operation(
    operator: Operator,
    lhs: Type,
    rhs: Type,
    options: ReturnModel,
    before: Output,
) -> Result<Evaluated, Seq<char>> {
    match options {
        ReturnModel::IntoType(into) => match lhs.operated(operator, rhs, into, before) {
            Ok(output) => Ok(Evaluated { value: None, output }),
            Err(message) => Err(message),
        },
        _ => match chosen_type(
            Type::operation_result_types(lhs.type_symbol(), operator, rhs.type_symbol()),
            options,
            lhs.type_symbol(),
            operator,
            Some(rhs.type_symbol()),
        ) {
            Err(message) => Err(message),
            Ok(symbol) => match fresh_variable(symbol, before.stack_sizes) {
                Err(message) => Err(message),
                Ok((variable, stack_sizes)) => match lhs.operated(
                    operator,
                    rhs,
                    variable,
                    Output { memory: before.memory, stack_sizes },
                ) {
                    Ok(output) => Ok(Evaluated { value: Some(variable), output }),
                    Err(message) => Err(message),
                },
            },
        },
    }
}

/// What handing on a value that was cast to the type `type_symbol` comes
/// to: it is copied to a destination, or returned; where it has none of the
/// types wanted, it is copied to a fresh value of the first one.
pub open spec fn delivered(cast: Type, options: ReturnModel, before: Output) -> Result<
    Evaluated,
    Seq<char>,
> {
    match options {
        ReturnModel::IntoType(into) => match into.copied_from(cast, before.memory) {
            Ok(memory) => Ok(
                Evaluated { value: None, output: Output { memory, stack_sizes: before.stack_sizes } },
            ),
            Err(message) => Err(message),
        },
        ReturnModel::OneOfTypes(types) => if accepts_type(types, cast.type_symbol()) {
            Ok(Evaluated { value: Some(cast), output: before })
        } else {
            match fresh_variable(types[0], before.stack_sizes) {
                Err(message) => Err(message),
                Ok((variable, stack_sizes)) => match variable.copied_from(cast, before.memory) {
                    Ok(memory) => Ok(
                        Evaluated { value: Some(variable), output: Output { memory, stack_sizes } },
                    ),
                    Err(message) => Err(message),
                },
            }
        },
        _ => Ok(Evaluated { value: Some(cast), output: before }),
    }
}

/// True where the options ask for the result in a value of the type
/// `type_symbol`.
pub open spec fn goes_into(options: ReturnModel, type_symbol: TypeSymbol) -> bool {
    options matches ReturnModel::IntoType(into) && into.type_symbol() == type_symbol
}

/// What a name comes to.
pub open spec fn evaluated_name(
    name: Seq<String>,
    options: ReturnModel,
    reference_stack: ReferenceStack,
    before: Output,
) -> Result<Evaluated, Seq<char>> {
    match reference_stack.lookup(name) {
        None => Err(not_found_message(name)),
        Some(Reference::Variable(variable)) => match options {
            ReturnModel::IntoType(into) => match into.copied_from(variable, before.memory) {
                Ok(memory) => Ok(
                    Evaluated {
                        value: None,
                        output: Output { memory, stack_sizes: before.stack_sizes },
                    },
                ),
                Err(message) => Err(message),
            },
            ReturnModel::OneOfTypes(types) => if accepts_type(types, variable.type_symbol()) {
                Ok(Evaluated { value: Some(variable), output: before })
            } else {
                Err(incorrect_type_message(types, seq![variable.type_symbol()]))
            },
            _ => Ok(Evaluated { value: Some(variable), output: before }),
        },
        Some(_) => Err(not_a_variable_message()),
    }
}

/// What a literal comes to.
pub open spec fn evaluated_literal(
    literal: crate::lexical_parsing::symbols::Literal,
    options: ReturnModel,
    before: Output,
) -> Result<Evaluated, Seq<char>> {
    match options {
        ReturnModel::IntoType(into) => match into.copied_from_literal(literal, before.memory) {
            Ok(memory) => Ok(
                Evaluated { value: None, output: Output { memory, stack_sizes: before.stack_sizes } },
            ),
            Err(message) => Err(message),
        },
        ReturnModel::OneOfTypes(types) => match literal_variable(literal, None, before) {
            Err(message) => Err(message),
            Ok((variable, output)) => if accepts_type(types, variable.type_symbol()) {
                Ok(Evaluated { value: Some(variable), output })
            } else {
                Err(incorrect_type_message(types, seq![variable.type_symbol()]))
            },
        },
        ReturnModel::PreferType(prefered) => match literal_variable(
            literal,
            Some(prefered),
            before,
        ) {
            Err(message) => Err(message),
            Ok((variable, output)) => Ok(Evaluated { value: Some(variable), output }),
        },
        ReturnModel::AnyType => match literal_variable(literal, None, before) {
            Err(message) => Err(message),
            Ok((variable, output)) => Ok(Evaluated { value: Some(variable), output }),
        },
    }
}

/// What a single value comes to: a name, a literal, or an expression in
/// brackets.
#[verifier::opaque]
pub open spec fn evaluated_symbol(
    symbol: Symbol,
    options: ReturnModel,
    reference_stack: ReferenceStack,
    before: Output,
) -> Result<Evaluated, Seq<char>>
    decreases symbol, 0nat,
{
    match symbol {
        Symbol::Name(name) => evaluated_name(name@, options, reference_stack, before),
        Symbol::Literal(literal) => evaluated_literal(literal, options, before),
        Symbol::BracketedSection(section) => evaluated_section(
            section@,
            options,
            reference_stack,
            before,
        ),
        _ => Err(expression_expected_message()),
    }
}

/// What an operand of an operator comes to, given the options of the whole
/// expression: the operand may have any type, that which the expression
/// prefers where possible.
#[verifier::opaque]
pub open spec fn evaluated_operand(
    symbol: Symbol,
    options: ReturnModel,
    reference_stack: ReferenceStack,
    before: Output,
) -> Result<Evaluated, Seq<char>>
    decreases symbol, 1nat,
{
    match options.prefered_type() {
        Some(prefered) => evaluated_symbol(
            symbol,
            ReturnModel::PreferType(prefered),
            reference_stack,
            before,
        ),
        None => evaluated_symbol(symbol, ReturnModel::AnyType, reference_stack, before),
    }
}

/// What a value cast to the type `type_symbol` comes to. A value that goes
/// into a destination of that type is stored there directly. Any other is
/// stored in a fresh value of that type, which is then handed on.
#[verifier::opaque]
pub open spec fn evaluated_cast(
    symbol: Symbol,
    type_symbol: TypeSymbol,
    options: ReturnModel,
    reference_stack: ReferenceStack,
    before: Output,
) -> Result<Evaluated, Seq<char>>
    decreases symbol, 1nat,
{
    match symbol {
        Symbol::Literal(literal) => if goes_into(options, type_symbol) {
            evaluated_literal(literal, options, before)
        } else {
            match fresh_variable(type_symbol, before.stack_sizes) {
                Err(message) => Err(message),
                Ok((variable, stack_sizes)) => match variable.copied_from_literal(
                    literal,
                    before.memory,
                ) {
                    Err(message) => Err(message),
                    Ok(memory) => delivered(variable, options, Output { memory, stack_sizes }),
                },
            }
        },
        _ => match evaluated_symbol(symbol, ReturnModel::AnyType, reference_stack, before) {
            Err(message) => Err(message),
            Ok(value) => if goes_into(options, type_symbol) {
                match options->IntoType_0.copied_from(value.value->0, value.output.memory) {
                    Ok(memory) => Ok(
                        Evaluated {
                            value: None,
                            output: Output { memory, stack_sizes: value.output.stack_sizes },
                        },
                    ),
                    Err(message) => Err(message),
                }
            } else {
                match fresh_variable(type_symbol, value.output.stack_sizes) {
                    Err(message) => Err(message),
                    Ok((variable, stack_sizes)) => match variable.copied_from(
                        value.value->0,
                        value.output.memory,
                    ) {
                        Err(message) => Err(message),
                        Ok(memory) => delivered(variable, options, Output { memory, stack_sizes }),
                    },
                }
            },
        },
    }
}

/// What an expression comes to.
#[verifier::opaque]
pub open spec fn evaluated_section(
    section: Seq<Symbol>,
    options: ReturnModel,
    reference_stack: ReferenceStack,
    before: Output,
) -> Result<Evaluated, Seq<char>>
    decreases section, 2nat,
{
    if section.len() == 0 {
        Err(empty_section_message())
    } else if section.len() == 1 {
        evaluated_symbol(section[0], options, reference_stack, before)
    } else {
        match section[0] {
            Symbol::Operator(operator) => if section.len() != 2 {
                Err(prefix_format_message())
            } else {
                match evaluated_operand(section[1], options, reference_stack, before) {
                    Err(message) => Err(message),
                    Ok(operand) => evaluated_prefix(
                        operator,
                        operand.value->0,
                        options,
                        operand.output,
                    ),
                }
            },
            _ => if section.len() != 3 {
                Err(section_format_message())
            } else {
                match section[1] {
                    Symbol::Keyword(Keyword::As) => match section[2] {
                        Symbol::Type(type_symbol) => evaluated_cast(
                            section[0],
                            type_symbol,
                            options,
                            reference_stack,
                            before,
                        ),
                        _ => Err(section_format_message()),
                    },
                    Symbol::Operator(operator) => match evaluated_operand(
                        section[0],
                        options,
                        reference_stack,
                        before,
                    ) {
                        Err(message) => Err(message),
                        Ok(lhs) => match evaluated_operand(
                            section[2],
                            options,
                            reference_stack,
                            lhs.output,
                        ) {
                            Err(message) => Err(message),
                            Ok(rhs) => evaluated_operation(
                                operator,
                                lhs.value->0,
                                rhs.value->0,
                                options,
                                rhs.output,
                            ),
                        },
                    },
                    _ => Err(section_format_message()),
                }
            },
        }
    }
}

/// True where what an evaluation returned and left behind is `expected`.
pub open spec fn evaluates_to(
    result: Result<Option<RefOrBox<Type>>, String>,
    memory: Seq<u8>,
    stack_sizes: Seq<usize>,
    expected: Result<Evaluated, Seq<char>>,
) -> bool {
    match expected {
        Ok(evaluated) => {
            &&& result is Ok
            &&& memory == evaluated.output.memory
            &&& stack_sizes == evaluated.output.stack_sizes
            &&& match evaluated.value {
                Some(value) => result->Ok_0 is Some && result->Ok_0->0.value() == value
                    && value.is_allocated(),
                None => result->Ok_0 is None,
            }
        },
        Err(message) => result is Err && result->Err_0@ == message,
    }
}

fn has_type(types: &[TypeSymbol], symbol: TypeSymbol) -> (found: bool)
    ensures
        found == holds_type(types@, symbol, 0),
{
    let mut i: usize = 0;
    while i < types.len()
        invariant
            i <= types@.len(),
            holds_type(types@, symbol, 0) == holds_type(types@, symbol, i as int),
        decreases types@.len() - i,
    {
        if types[i] == symbol {
            return true;
        }
        i = i + 1;
    }
    false
}

fn first_matching(results: &Vec<TypeSymbol>, wanted: &[TypeSymbol]) -> (found: Option<TypeSymbol>)
    ensures
        found == first_wanted(results@, wanted@, 0),
{
    let mut i: usize = 0;
    while i < results.len()
        invariant
            i <= results@.len(),
            first_wanted(results@, wanted@, 0) == first_wanted(results@, wanted@, i as int),
        decreases results@.len() - i,
    {
        if has_type(wanted, results[i]) {
            return Some(results[i]);
        }
        i = i + 1;
    }
    None
}

fn one_type(symbol: TypeSymbol) -> (types: Vec<TypeSymbol>)
    ensures
        types@ == seq![symbol],
{
    let mut types: Vec<TypeSymbol> = Vec::new();
    types.push(symbol);
    assert(types@ =~= seq![symbol]);
    types
}

/// The message for an operator that the operands do not offer.
pub fn operator_not_implemented_error(
    lhs: &TypeSymbol,
    operator: &Operator,
    rhs: Option<&TypeSymbol>,
) -> (message: String)
    ensures
        message@ == operator_not_implemented_message(
            *lhs,
            *operator,
            match rhs {
                Some(rhs) => Some(*rhs),
                None => None,
            },
        ),
{
    let mut message = String::from_str(operator.get_name());
    match rhs {
        Some(rhs) => {
            message.append(" not supported between ");
            message.append(lhs.get_name());
            message.append(" and ");
            message.append(rhs.get_name());
        },
        None => {
            message.append(" not supported on ");
            message.append(lhs.get_name());
        },
    }
    message
}

fn choose_type(
    results: &Vec<TypeSymbol>,
    options: &ReturnOptions,
    lhs: TypeSymbol,
    operator: &Operator,
    rhs: Option<TypeSymbol>,
) -> (chosen: Result<TypeSymbol, String>)
    ensures
        crate::util::outcome(chosen) == chosen_type(results@, options.model(), lhs, *operator, rhs),
{
    if results.len() == 0 {
        return Err(
            match rhs {
                Some(rhs) => operator_not_implemented_error(&lhs, operator, Some(&rhs)),
                None => operator_not_implemented_error(&lhs, operator, None),
            },
        );
    }
    match options {
        ReturnOptions::OneOfTypes(types) => match first_matching(results, types) {
            Some(symbol) => Ok(symbol),
            None => Err(incorrect_type_error(types, results.as_slice())),
        },
        _ => Ok(results[0]),
    }
}

/// Applies a prefix operator to an operand and hands the result on as the
/// options ask. A failure leaves the program as it was: where the operand
/// does not offer the operator, the frame counters too.
pub fn handle_prefix_operation<'a>(
    operator: &Operator,
    operand: RefOrBox<'a, Type>,
    return_options: &ReturnOptions,
    program_memory: &mut MemoryManager,
    stack_sizes: &mut StackSizes,
) -> (result: Result<Option<RefOrBox<'a, Type>>, String>)
    requires
        operand.value().is_allocated(),
        return_options.model().is_ready(),
    ensures
        old(program_memory)@.len() <= final(program_memory)@.len(),
        final(stack_sizes)@.len() == old(stack_sizes)@.len(),
        evaluates_to(
            result,
            final(program_memory)@,
            final(stack_sizes)@,
            evaluated_prefix(
                *operator,
                operand.value(),
                return_options.model(),
                Output { memory: old(program_memory)@, stack_sizes: old(stack_sizes)@ },
            ),
        ),
        result is Err ==> final(program_memory)@ == old(program_memory)@,
        result is Err ==> final(stack_sizes)@ == sizes_after_failure(
            chosen_type(
                Type::prefix_operation_result_types(operand.value().type_symbol(), *operator),
                return_options.model(),
                operand.value().type_symbol(),
                *operator,
                None,
            ),
            return_options.model(),
            old(stack_sizes)@,
        ),
        Type::prefix_operation_result_types(operand.value().type_symbol(), *operator).len() == 0
            ==> result is Err && final(program_memory)@ == old(program_memory)@ && final(stack_sizes)@ == old(stack_sizes)@,
{
    proof {
        crate::compilation::types::lemma_prefix_dispatch_by_first_entry(
            operand.value(),
            *operator,
            match return_options.model() {
                ReturnModel::IntoType(into) => into,
                _ => operand.value(),
            },
            Output { memory: old(program_memory)@, stack_sizes: old(stack_sizes)@ },
        );
    }
    let operand = operand.as_ref();
    match return_options {
        ReturnOptions::IntoType(output) => {
            match operand.operate_prefix(operator, output, program_memory, stack_sizes) {
                Ok(_) => Ok(None),
                Err(message) => Err(message),
            }
        },
        _ => {
            let return_types = operand.get_prefix_operation_result_type(operator);
            let symbol = match choose_type(
                &return_types,
                return_options,
                operand.get_type_symbol(),
                operator,
                None,
            ) {
                Ok(symbol) => symbol,
                Err(message) => {
                    return Err(message);
                },
            };
            let new_type = match TypeFactory::get_allocated_type(
                &symbol,
                stack_sizes,
                program_memory,
            ) {
                Ok(new_type) => new_type,
                Err(message) => {
                    return Err(message);
                },
            };
            match operand.operate_prefix(operator, &new_type, program_memory, stack_sizes) {
                Ok(_) => Ok(Some(RefOrBox::from_owned(new_type))),
                Err(message) => Err(message),
            }
        },
    }
}

/// Applies a binary operator to two operands and hands the result on as
/// the options ask. A failure leaves the program as it was: where no entry
/// of the table of the left operand takes the operator and the right
/// operand, the frame counters too.
pub fn handle_operation<'a>(
    operator: &Operator,
    lhs: RefOrBox<'a, Type>,
    rhs: RefOrBox<'a, Type>,
    return_options: &ReturnOptions,
    program_memory: &mut MemoryManager,
    stack_sizes: &mut StackSizes,
) -> (result: Result<Option<RefOrBox<'a, Type>>, String>)
    requires
        lhs.value().is_allocated(),
        rhs.value().is_allocated(),
        return_options.model().is_ready(),
    ensures
        old(program_memory)@.len() <= final(program_memory)@.len(),
        final(stack_sizes)@.len() == old(stack_sizes)@.len(),
        evaluates_to(
            result,
            final(program_memory)@,
            final(stack_sizes)@,
            evaluated_operation(
                *operator,
                lhs.value(),
                rhs.value(),
                return_options.model(),
                Output { memory: old(program_memory)@, stack_sizes: old(stack_sizes)@ },
            ),
        ),
        result is Err ==> final(program_memory)@ == old(program_memory)@,
        result is Err ==> final(stack_sizes)@ == sizes_after_failure(
            chosen_type(
                Type::operation_result_types(
                    lhs.value().type_symbol(),
                    *operator,
                    rhs.value().type_symbol(),
                ),
                return_options.model(),
                lhs.value().type_symbol(),
                *operator,
                Some(rhs.value().type_symbol()),
            ),
            return_options.model(),
            old(stack_sizes)@,
        ),
        Type::operation_result_types(
            lhs.value().type_symbol(),
            *operator,
            rhs.value().type_symbol(),
        ).len() == 0 ==> result is Err && final(program_memory)@ == old(program_memory)@ && final(stack_sizes)@ == old(stack_sizes)@,
{
    proof {
        crate::compilation::types::lemma_dispatch_by_first_entry(
            lhs.value(),
            *operator,
            rhs.value(),
            match return_options.model() {
                ReturnModel::IntoType(into) => into,
                _ => lhs.value(),
            },
            Output { memory: old(program_memory)@, stack_sizes: old(stack_sizes)@ },
        );
    }
    let lhs = lhs.as_ref();
    let rhs = rhs.as_ref();
    match return_options {
        ReturnOptions::IntoType(output) => {
            match lhs.operate(operator, rhs, output, program_memory, stack_sizes) {
                Ok(_) => Ok(None),
                Err(message) => Err(message),
            }
        },
        _ => {
            let rhs_type = rhs.get_type_symbol();
            let return_types = lhs.get_operation_result_type(operator, &rhs_type);
            let symbol = match choose_type(
                &return_types,
                return_options,
                lhs.get_type_symbol(),
                operator,
                Some(rhs_type),
            ) {
                Ok(symbol) => symbol,
                Err(message) => {
                    return Err(message);
                },
            };
            let new_type = match TypeFactory::get_allocated_type(
                &symbol,
                stack_sizes,
                program_memory,
            ) {
                Ok(new_type) => new_type,
                Err(message) => {
                    return Err(message);
                },
            };
            match lhs.operate(operator, rhs, &new_type, program_memory, stack_sizes) {
                Ok(_) => Ok(Some(RefOrBox::from_owned(new_type))),
                Err(message) => Err(message),
            }
        },
    }
}

/// Hands on a value that was cast, as the options ask. A failure leaves
/// the program as it was.
pub fn deliver<'a>(
    cast: Type,
    return_options: &ReturnOptions,
    program_memory: &mut MemoryManager,
    stack_sizes: &mut StackSizes,
) -> (result: Result<Option<RefOrBox<'a, Type>>, String>)
    requires
        cast.is_allocated(),
        return_options.model().is_ready(),
    ensures
        old(program_memory)@.len() <= final(program_memory)@.len(),
        final(stack_sizes)@.len() == old(stack_sizes)@.len(),
        evaluates_to(
            result,
            final(program_memory)@,
            final(stack_sizes)@,
            delivered(
                cast,
                return_options.model(),
                Output { memory: old(program_memory)@, stack_sizes: old(stack_sizes)@ },
            ),
        ),
        result is Err ==> final(program_memory)@ == old(program_memory)@,
        result is Err ==> final(stack_sizes)@ == (match return_options.model() {
            ReturnModel::OneOfTypes(types) => allocated_sizes(types[0], old(stack_sizes)@),
            _ => old(stack_sizes)@,
        }),
{
    match return_options {
        ReturnOptions::IntoType(output) => {
            match output.runtime_copy_from(&cast, program_memory) {
                Ok(_) => Ok(None),
                Err(message) => Err(message),
            }
        },
        ReturnOptions::OneOfTypes(return_types) => {
            if return_types.len() == 0 || has_type(return_types, cast.get_type_symbol()) {
                Ok(Some(RefOrBox::from_owned(cast)))
            } else {
                let return_type = match TypeFactory::get_allocated_type(
                    &return_types[0],
                    stack_sizes,
                    program_memory,
                ) {
                    Ok(return_type) => return_type,
                    Err(message) => {
                        return Err(message);
                    },
                };
                match return_type.runtime_copy_from(&cast, program_memory) {
                    Ok(_) => Ok(Some(RefOrBox::from_owned(return_type))),
                    Err(message) => Err(message),
                }
            }
        },
        _ => Ok(Some(RefOrBox::from_owned(cast))),
    }
}

/// Evaluates a single value: a name, a literal, or an expression in
/// brackets. Whatever comes of it, the program is only added to; a name
/// that cannot be evaluated leaves it as it was, and the frame counters
/// too.
pub fn handle_single_symbol<'a>(
    symbol: &Symbol,
    return_options: &ReturnOptions,
    program_memory: &mut MemoryManager,
    reference_stack: &'a ReferenceStack,
    stack_sizes: &mut StackSizes,
) -> (result: Result<Option<RefOrBox<'a, Type>>, String>)
    requires
        reference_stack.well_formed(old(program_memory)@.len()),
        return_options.model().is_ready(),
    ensures
        old(program_memory)@.is_prefix_of(final(program_memory)@),
        old(program_memory)@.len() <= final(program_memory)@.len(),
        final(stack_sizes)@.len() == old(stack_sizes)@.len(),
        evaluates_to(
            result,
            final(program_memory)@,
            final(stack_sizes)@,
            evaluated_symbol(
                *symbol,
                return_options.model(),
                *reference_stack,
                Output { memory: old(program_memory)@, stack_sizes: old(stack_sizes)@ },
            ),
        ),
        result is Err && *symbol is Name ==> final(program_memory)@ == old(program_memory)@ && final(stack_sizes)@ == old(stack_sizes)@,
    decreases symbol, 0nat,
{
    reveal_with_fuel(evaluated_symbol, 1);
    reveal_with_fuel(evaluated_operand, 1);
    reveal_with_fuel(evaluated_cast, 1);
    reveal_with_fuel(evaluated_section, 1);
    match symbol {
        Symbol::Name(name) => {
            let reference = match reference_stack.get_reference(name.as_slice()) {
                Ok(reference) => reference,
                Err(message) => {
                    return Err(message);
                },
            };
            proof {
                lemma_lookup_ok(*reference_stack, name@, old(program_memory)@.len());
            }
            let variable = match reference.get_variable_ref() {
                Ok(variable) => variable,
                Err(message) => {
                    return Err(message);
                },
            };
            match return_options {
                ReturnOptions::IntoType(output) => {
                    match output.runtime_copy_from(variable, program_memory) {
                        Ok(_) => Ok(None),
                        Err(message) => Err(message),
                    }
                },
                ReturnOptions::OneOfTypes(types) => {
                    let variable_type = variable.get_type_symbol();
                    if types.len() != 0 && !has_type(types, variable_type) {
                        Err(incorrect_type_error(types, one_type(variable_type).as_slice()))
                    } else {
                        Ok(Some(RefOrBox::from_ref(variable)))
                    }
                },
                _ => Ok(Some(RefOrBox::from_ref(variable))),
            }
        },
        Symbol::Literal(literal) => {
            match return_options {
                ReturnOptions::IntoType(output) => {
                    match output.runtime_copy_from_literal(literal, program_memory) {
                        Ok(_) => Ok(None),
                        Err(message) => Err(message),
                    }
                },
                ReturnOptions::AnyType => {
                    match TypeFactory::get_default_instantiated_type_for_literal(
                        literal,
                        stack_sizes,
                        program_memory,
                        None,
                    ) {
                        Ok(value) => Ok(Some(RefOrBox::from_owned(value))),
                        Err(message) => Err(message),
                    }
                },
                ReturnOptions::PreferType(prefered) => {
                    match TypeFactory::get_default_instantiated_type_for_literal(
                        literal,
                        stack_sizes,
                        program_memory,
                        Some(prefered),
                    ) {
                        Ok(value) => Ok(Some(RefOrBox::from_owned(value))),
                        Err(message) => Err(message),
                    }
                },
                ReturnOptions::OneOfTypes(types) => {
                    let default_type = match TypeFactory::get_default_instantiated_type_for_literal(
                        literal,
                        stack_sizes,
                        program_memory,
                        None,
                    ) {
                        Ok(value) => value,
                        Err(message) => {
                            return Err(message);
                        },
                    };
                    let default_type_type = default_type.get_type_symbol();
                    if types.len() != 0 && !has_type(types, default_type_type) {
                        Err(incorrect_type_error(types, one_type(default_type_type).as_slice()))
                    } else {
                        Ok(Some(RefOrBox::from_owned(default_type)))
                    }
                },
            }
        },
        Symbol::BracketedSection(section) => evaluate_arithmetic_section(
            section.as_slice(),
            return_options,
            program_memory,
            reference_stack,
            stack_sizes,
        ),
        _ => Err(String::from_str("Expected an expression")),
    }
}

/// Evaluates an operand of an operator: it may have any type, that which
/// the whole expression prefers where possible.
pub fn handle_operand<'a>(
    symbol: &Symbol,
    return_options: &ReturnOptions,
    program_memory: &mut MemoryManager,
    reference_stack: &'a ReferenceStack,
    stack_sizes: &mut StackSizes,
) -> (result: Result<RefOrBox<'a, Type>, String>)
    requires
        reference_stack.well_formed(old(program_memory)@.len()),
    ensures
        old(program_memory)@.is_prefix_of(final(program_memory)@),
        old(program_memory)@.len() <= final(program_memory)@.len(),
        final(stack_sizes)@.len() == old(stack_sizes)@.len(),
        match evaluated_operand(
            *symbol,
            return_options.model(),
            *reference_stack,
            Output { memory: old(program_memory)@, stack_sizes: old(stack_sizes)@ },
        ) {
            Ok(evaluated) => result is Ok && evaluated.value == Some(result->Ok_0.value())
                && result->Ok_0.value().is_allocated() && final(program_memory)@
                == evaluated.output.memory && final(stack_sizes)@ == evaluated.output.stack_sizes,
            Err(message) => result is Err && result->Err_0@ == message,
        },
    decreases symbol, 1nat,
{
    reveal_with_fuel(evaluated_symbol, 1);
    reveal_with_fuel(evaluated_operand, 1);
    reveal_with_fuel(evaluated_cast, 1);
    reveal_with_fuel(evaluated_section, 1);
    let return_option = match return_options.get_prefered_type() {
        Some(preference) => ReturnOptions::PreferType(preference),
        None => ReturnOptions::AnyType,
    };
    match handle_single_symbol(
        symbol,
        &return_option,
        program_memory,
        reference_stack,
        stack_sizes,
    ) {
        Ok(Some(value)) => Ok(value),
        Ok(None) => {
            proof {
                lemma_operand_has_value(
                    *symbol,
                    return_option.model(),
                    *reference_stack,
                    Output { memory: old(program_memory)@, stack_sizes: old(stack_sizes)@ },
                );
            }
            Err(String::from_str("Expected an expression"))
        },
        Err(message) => Err(message),
    }
}

/// Evaluates a value cast to the type `type_symbol`.
pub fn handle_casting<'a>(
    symbol: &Symbol,
    type_symbol: &TypeSymbol,
    return_options: &ReturnOptions,
    program_memory: &mut MemoryManager,
    reference_stack: &ReferenceStack,
    stack_sizes: &mut StackSizes,
) -> (result: Result<Option<RefOrBox<'a, Type>>, String>)
    requires
        reference_stack.well_formed(old(program_memory)@.len()),
        return_options.model().is_ready(),
    ensures
        old(program_memory)@.is_prefix_of(final(program_memory)@),
        old(program_memory)@.len() <= final(program_memory)@.len(),
        final(stack_sizes)@.len() == old(stack_sizes)@.len(),
        evaluates_to(
            result,
            final(program_memory)@,
            final(stack_sizes)@,
            evaluated_cast(
                *symbol,
                *type_symbol,
                return_options.model(),
                *reference_stack,
                Output { memory: old(program_memory)@, stack_sizes: old(stack_sizes)@ },
            ),
        ),
    decreases symbol, 1nat,
{
    reveal_with_fuel(evaluated_symbol, 1);
    reveal_with_fuel(evaluated_operand, 1);
    reveal_with_fuel(evaluated_cast, 1);
    reveal_with_fuel(evaluated_section, 1);
    match symbol {
        Symbol::Literal(literal) => {
            if let ReturnOptions::IntoType(output) = return_options {
                if output.get_type_symbol() == *type_symbol {
                    return match output.runtime_copy_from_literal(literal, program_memory) {
                        Ok(_) => Ok(None),
                        Err(message) => Err(message),
                    };
                }
            }
            let new_type = match TypeFactory::get_allocated_type(
                type_symbol,
                stack_sizes,
                program_memory,
            ) {
                Ok(new_type) => new_type,
                Err(message) => {
                    return Err(message);
                },
            };
            match new_type.runtime_copy_from_literal(literal, program_memory) {
                Ok(_) => {},
                Err(message) => {
                    return Err(message);
                },
            }
            deliver(new_type, return_options, program_memory, stack_sizes)
        },
        _ => {
            let any_type = ReturnOptions::AnyType;
            let value = match handle_single_symbol(
                symbol,
                &any_type,
                program_memory,
                reference_stack,
                stack_sizes,
            ) {
                Ok(Some(value)) => value,
                Ok(None) => {
                    proof {
                        lemma_operand_has_value(
                            *symbol,
                            any_type.model(),
                            *reference_stack,
                            Output { memory: old(program_memory)@, stack_sizes: old(stack_sizes)@ },
                        );
                    }
                    return Err(String::from_str("Expected an expression"));
                },
                Err(message) => {
                    return Err(message);
                },
            };
            let value = value.as_ref();
            if let ReturnOptions::IntoType(output) = return_options {
                if output.get_type_symbol() == *type_symbol {
                    return match output.runtime_copy_from(value, program_memory) {
                        Ok(_) => Ok(None),
                        Err(message) => Err(message),
                    };
                }
            }
            let new_type = match TypeFactory::get_allocated_type(
                type_symbol,
                stack_sizes,
                program_memory,
            ) {
                Ok(new_type) => new_type,
                Err(message) => {
                    return Err(message);
                },
            };
            match new_type.runtime_copy_from(value, program_memory) {
                Ok(_) => {},
                Err(message) => {
                    return Err(message);
                },
            }
            deliver(new_type, return_options, program_memory, stack_sizes)
        },
    }
}

/// Evaluates an expression and hands the result on as the options ask.
/// Whatever comes of it, the program is only added to; an expression of no
/// symbols, or of more than three, leaves it as it was, and the frame
/// counters too.
pub fn evaluate_arithmetic_section<'a>(
    section: &[Symbol],
    return_options: &ReturnOptions,
    program_memory: &mut MemoryManager,
    reference_stack: &'a ReferenceStack,
    stack_sizes: &mut StackSizes,
) -> (result: Result<Option<RefOrBox<'a, Type>>, String>)
    requires
        reference_stack.well_formed(old(program_memory)@.len()),
        return_options.model().is_ready(),
    ensures
        old(program_memory)@.is_prefix_of(final(program_memory)@),
        section@.len() == 0 || section@.len() > 3 ==> final(program_memory)@ == old(program_memory)@
            && final(stack_sizes)@ == old(stack_sizes)@,
        old(program_memory)@.len() <= final(program_memory)@.len(),
        final(stack_sizes)@.len() == old(stack_sizes)@.len(),
        evaluates_to(
            result,
            final(program_memory)@,
            final(stack_sizes)@,
            evaluated_section(
                section@,
                return_options.model(),
                *reference_stack,
                Output { memory: old(program_memory)@, stack_sizes: old(stack_sizes)@ },
            ),
        ),
    decreases section@, 2nat,
{
    reveal_with_fuel(evaluated_symbol, 1);
    reveal_with_fuel(evaluated_operand, 1);
    reveal_with_fuel(evaluated_cast, 1);
    reveal_with_fuel(evaluated_section, 1);
    if section.len() == 0 {
        return Err(String::from_str("Cannot evaluate a section with no symbols"));
    }
    if section.len() == 1 {
        return handle_single_symbol(
            &section[0],
            return_options,
            program_memory,
            reference_stack,
            stack_sizes,
        );
    }
    match &section[0] {
        Symbol::Operator(operator) => {
            if section.len() != 2 {
                return Err(String::from_str("Operator must be followed by a Literal or Name"));
            }
            let operand = match handle_operand(
                &section[1],
                return_options,
                program_memory,
                reference_stack,
                stack_sizes,
            ) {
                Ok(operand) => operand,
                Err(message) => {
                    return Err(message);
                },
            };
            handle_prefix_operation(operator, operand, return_options, program_memory, stack_sizes)
        },
        _ => {
            if section.len() != 3 {
                return Err(get_formatting_error());
            }
            match &section[1] {
                Symbol::Keyword(Keyword::As) => {
                    let type_symbol = match &section[2] {
                        Symbol::Type(type_symbol) => type_symbol,
                        _ => {
                            return Err(get_formatting_error());
                        },
                    };
                    handle_casting(
                        &section[0],
                        type_symbol,
                        return_options,
                        program_memory,
                        reference_stack,
                        stack_sizes,
                    )
                },
                Symbol::Operator(operator) => {
                    let lhs = match handle_operand(
                        &section[0],
                        return_options,
                        program_memory,
                        reference_stack,
                        stack_sizes,
                    ) {
                        Ok(lhs) => lhs,
                        Err(message) => {
                            return Err(message);
                        },
                    };
                    proof {
                        lemma_well_formed_grows(
                            *reference_stack,
                            old(program_memory)@.len(),
                            program_memory@.len(),
                        );
                    }
                    let rhs = match handle_operand(
                        &section[2],
                        return_options,
                        program_memory,
                        reference_stack,
                        stack_sizes,
                    ) {
                        Ok(rhs) => rhs,
                        Err(message) => {
                            return Err(message);
                        },
                    };
                    handle_operation(
                        operator,
                        lhs,
                        rhs,
                        return_options,
                        program_memory,
                        stack_sizes,
                    )
                },
                _ => Err(get_formatting_error()),
            }
        },
    }
}

fn get_formatting_error() -> (message: String)
    ensures
        message@ == section_format_message(),
{
    String::from_str(
        "Arithmetic sections must be formated [Operator] [Value], [Value] [Operator] [Value] or [Value] as [Type]",
    )
}

/// An expression that does not go into a destination returns a value.
pub proof fn lemma_operand_has_value(
    symbol: Symbol,
    options: ReturnModel,
    reference_stack: ReferenceStack,
    before: Output,
)
    requires
        !(options is IntoType),
    ensures
        evaluated_symbol(symbol, options, reference_stack, before) matches Ok(evaluated)
            ==> evaluated.value is Some,
    decreases symbol, 0nat,
{
    reveal_with_fuel(evaluated_symbol, 1);
    reveal_with_fuel(evaluated_operand, 1);
    reveal_with_fuel(evaluated_cast, 1);
    reveal_with_fuel(evaluated_section, 1);
    match symbol {
        Symbol::BracketedSection(section) => {
            lemma_section_has_value(section@, options, reference_stack, before);
        },
        _ => {},
    }
}

/// An expression that does not go into a destination returns a value.
pub proof fn lemma_section_has_value(
    section: Seq<Symbol>,
    options: ReturnModel,
    reference_stack: ReferenceStack,
    before: Output,
)
    requires
        !(options is IntoType),
    ensures
        evaluated_section(section, options, reference_stack, before) matches Ok(evaluated)
            ==> evaluated.value is Some,
    decreases section, 2nat,
{
    reveal_with_fuel(evaluated_symbol, 1);
    reveal_with_fuel(evaluated_operand, 1);
    reveal_with_fuel(evaluated_cast, 1);
    reveal_with_fuel(evaluated_section, 1);
    if section.len() == 1 {
        lemma_operand_has_value(section[0], options, reference_stack, before);
    }
}

/// A program that continues a continuation of another continues the other.
pub proof fn lemma_prefix_of_prefix(first: Seq<u8>, second: Seq<u8>, third: Seq<u8>)
    requires
        first.is_prefix_of(second),
        second.is_prefix_of(third),
    ensures
        first.is_prefix_of(third),
{
    assert(first =~= third.subrange(0, first.len() as int)) by {
        assert forall|i: int| 0 <= i < first.len() implies first[i] == third[i] by {
            assert(first[i] == second.subrange(0, first.len() as int)[i]);
            assert(second[i] == third.subrange(0, second.len() as int)[i]);
        }
    }
}

/// Handing on a value that was cast only adds to the program.
pub proof fn lemma_delivered_appends(cast: Type, options: ReturnModel, before: Output)
    ensures
        delivered(cast, options, before) matches Ok(evaluated) ==> before.memory.is_prefix_of(
            evaluated.output.memory,
        ),
{
    match options {
        ReturnModel::IntoType(into) => {
            lemma_copy_appends(into, cast, before.memory);
        },
        ReturnModel::OneOfTypes(types) => {
            if !accepts_type(types, cast.type_symbol()) {
                match fresh_variable(types[0], before.stack_sizes) {
                    Ok((variable, _)) => {
                        lemma_copy_appends(variable, cast, before.memory);
                    },
                    Err(_) => {},
                }
            }
        },
        _ => {},
    }
}

/// Evaluating a single value only adds to the program: what the program
/// held before is the start of what it holds after.
pub proof fn lemma_symbol_appends(
    symbol: Symbol,
    options: ReturnModel,
    reference_stack: ReferenceStack,
    before: Output,
)
    ensures
        evaluated_symbol(symbol, options, reference_stack, before) matches Ok(evaluated)
            ==> before.memory.is_prefix_of(evaluated.output.memory),
    decreases symbol, 0nat,
{
    reveal_with_fuel(evaluated_symbol, 1);
    reveal_with_fuel(evaluated_operand, 1);
    reveal_with_fuel(evaluated_cast, 1);
    reveal_with_fuel(evaluated_section, 1);
    assert(before.memory.is_prefix_of(before.memory));
    match symbol {
        Symbol::BracketedSection(section) => {
            lemma_section_appends(section@, options, reference_stack, before);
        },
        _ => {},
    }
}

/// Evaluating an operand only adds to the program.
pub proof fn lemma_operand_appends(
    symbol: Symbol,
    options: ReturnModel,
    reference_stack: ReferenceStack,
    before: Output,
)
    ensures
        evaluated_operand(symbol, options, reference_stack, before) matches Ok(evaluated)
            ==> before.memory.is_prefix_of(evaluated.output.memory),
    decreases symbol, 1nat,
{
    reveal_with_fuel(evaluated_symbol, 1);
    reveal_with_fuel(evaluated_operand, 1);
    reveal_with_fuel(evaluated_cast, 1);
    reveal_with_fuel(evaluated_section, 1);
    assert(before.memory.is_prefix_of(before.memory));
    match options.prefered_type() {
        Some(prefered) => {
            lemma_symbol_appends(symbol, ReturnModel::PreferType(prefered), reference_stack, before);
        },
        None => {
            lemma_symbol_appends(symbol, ReturnModel::AnyType, reference_stack, before);
        },
    }
}

/// Evaluating a cast only adds to the program.
pub proof fn lemma_cast_appends(
    symbol: Symbol,
    type_symbol: TypeSymbol,
    options: ReturnModel,
    reference_stack: ReferenceStack,
    before: Output,
)
    ensures
        evaluated_cast(symbol, type_symbol, options, reference_stack, before) matches Ok(evaluated)
            ==> before.memory.is_prefix_of(evaluated.output.memory),
    decreases symbol, 1nat,
{
    reveal_with_fuel(evaluated_symbol, 1);
    reveal_with_fuel(evaluated_operand, 1);
    reveal_with_fuel(evaluated_cast, 1);
    reveal_with_fuel(evaluated_section, 1);
    assert(before.memory.is_prefix_of(before.memory));
    match symbol {
        Symbol::Literal(literal) => {
            if !goes_into(options, type_symbol) {
                match fresh_variable(type_symbol, before.stack_sizes) {
                    Ok((variable, stack_sizes)) => {
                        lemma_literal_copy_appends(variable, literal, before.memory);
                        match variable.copied_from_literal(literal, before.memory) {
                            Ok(memory) => {
                                lemma_delivered_appends(
                                    variable,
                                    options,
                                    Output { memory, stack_sizes },
                                );
                                match delivered(variable, options, Output { memory, stack_sizes }) {
                                    Ok(evaluated) => {
                                        lemma_prefix_of_prefix(
                                            before.memory,
                                            memory,
                                            evaluated.output.memory,
                                        );
                                    },
                                    Err(_) => {},
                                }
                            },
                            Err(_) => {},
                        }
                    },
                    Err(_) => {},
                }
            }
        },
        _ => {
            lemma_symbol_appends(symbol, ReturnModel::AnyType, reference_stack, before);
            match evaluated_symbol(symbol, ReturnModel::AnyType, reference_stack, before) {
                Ok(value) => {
                    if goes_into(options, type_symbol) {
                        match options->IntoType_0.copied_from(value.value->0, value.output.memory) {
                            Ok(memory) => {
                                lemma_prefix_of_prefix(before.memory, value.output.memory, memory);
                            },
                            Err(_) => {},
                        }
                    } else {
                        match fresh_variable(type_symbol, value.output.stack_sizes) {
                            Ok((variable, stack_sizes)) => {
                                match variable.copied_from(value.value->0, value.output.memory) {
                                    Ok(memory) => {
                                        lemma_prefix_of_prefix(
                                            before.memory,
                                            value.output.memory,
                                            memory,
                                        );
                                        lemma_delivered_appends(
                                            variable,
                                            options,
                                            Output { memory, stack_sizes },
                                        );
                                        match delivered(
                                            variable,
                                            options,
                                            Output { memory, stack_sizes },
                                        ) {
                                            Ok(evaluated) => {
                                                lemma_prefix_of_prefix(
                                                    before.memory,
                                                    memory,
                                                    evaluated.output.memory,
                                                );
                                            },
                                            Err(_) => {},
                                        }
                                    },
                                    Err(_) => {},
                                }
                            },
                            Err(_) => {},
                        }
                    }
                },
                Err(_) => {},
            }
        },
    }
}

/// Evaluating an expression only adds to the program: what the program
/// held before is the start of what it holds after, so no position in it
/// moves and nothing written to it changes.
pub proof fn lemma_section_appends(
    section: Seq<Symbol>,
    options: ReturnModel,
    reference_stack: ReferenceStack,
    before: Output,
)
    ensures
        evaluated_section(section, options, reference_stack, before) matches Ok(evaluated)
            ==> before.memory.is_prefix_of(evaluated.output.memory),
    decreases section, 2nat,
{
    reveal_with_fuel(evaluated_symbol, 1);
    reveal_with_fuel(evaluated_operand, 1);
    reveal_with_fuel(evaluated_cast, 1);
    reveal_with_fuel(evaluated_section, 1);
    assert(before.memory.is_prefix_of(before.memory));
    if section.len() == 1 {
        lemma_symbol_appends(section[0], options, reference_stack, before);
    } else if section.len() == 2 {
        lemma_operand_appends(section[1], options, reference_stack, before);
        match (section[0], evaluated_operand(section[1], options, reference_stack, before)) {
            (Symbol::Operator(operator), Ok(operand)) => {
                lemma_prefix_appends(operator, operand.value->0, options, operand.output);
                match evaluated_prefix(operator, operand.value->0, options, operand.output) {
                    Ok(evaluated) => {
                        lemma_prefix_of_prefix(
                            before.memory,
                            operand.output.memory,
                            evaluated.output.memory,
                        );
                    },
                    Err(_) => {},
                }
            },
            _ => {},
        }
    } else if section.len() == 3 {
        match section[1] {
            Symbol::Keyword(Keyword::As) => match section[2] {
                Symbol::Type(type_symbol) => {
                    lemma_cast_appends(section[0], type_symbol, options, reference_stack, before);
                },
                _ => {},
            },
            Symbol::Operator(operator) => {
                lemma_operand_appends(section[0], options, reference_stack, before);
                match evaluated_operand(section[0], options, reference_stack, before) {
                    Ok(lhs) => {
                        lemma_operand_appends(section[2], options, reference_stack, lhs.output);
                        match evaluated_operand(section[2], options, reference_stack, lhs.output) {
                            Ok(rhs) => {
                                lemma_prefix_of_prefix(
                                    before.memory,
                                    lhs.output.memory,
                                    rhs.output.memory,
                                );
                                lemma_operation_appends(
                                    operator,
                                    lhs.value->0,
                                    rhs.value->0,
                                    options,
                                    rhs.output,
                                );
                                match evaluated_operation(
                                    operator,
                                    lhs.value->0,
                                    rhs.value->0,
                                    options,
                                    rhs.output,
                                ) {
                                    Ok(evaluated) => {
                                        lemma_prefix_of_prefix(
                                            before.memory,
                                            rhs.output.memory,
                                            evaluated.output.memory,
                                        );
                                    },
                                    Err(_) => {},
                                }
                            },
                            Err(_) => {},
                        }
                    },
                    Err(_) => {},
                }
            },
            _ => {},
        }
    }
}

/// Applying a prefix operator to an operand only adds to the program.
pub proof fn lemma_prefix_appends(
    operator: Operator,
    operand: Type,
    options: ReturnModel,
    before: Output,
)
    ensures
        evaluated_prefix(operator, operand, options, before) matches Ok(evaluated)
            ==> before.memory.is_prefix_of(evaluated.output.memory),
{
    match options {
        ReturnModel::IntoType(into) => {
            lemma_operated_prefix_appends(operand, operator, into, before);
        },
        _ => {
            match chosen_type(
                Type::prefix_operation_result_types(operand.type_symbol(), operator),
                options,
                operand.type_symbol(),
                operator,
                None,
            ) {
                Ok(symbol) => match fresh_variable(symbol, before.stack_sizes) {
                    Ok((variable, stack_sizes)) => {
                        lemma_operated_prefix_appends(
                            operand,
                            operator,
                            variable,
                            Output { memory: before.memory, stack_sizes },
                        );
                    },
                    Err(_) => {},
                },
                Err(_) => {},
            }
        },
    }
}

/// Applying a binary operator to two operands only adds to the program.
pub proof fn lemma_operation_appends(
    operator: Operator,
    lhs: Type,
    rhs: Type,
    options: ReturnModel,
    before: Output,
)
    ensures
        evaluated_operation(operator, lhs, rhs, options, before) matches Ok(evaluated)
            ==> before.memory.is_prefix_of(evaluated.output.memory),
{
    match options {
        ReturnModel::IntoType(into) => {
            lemma_operated_appends(lhs, operator, rhs, into, before);
        },
        _ => {
            match chosen_type(
                Type::operation_result_types(lhs.type_symbol(), operator, rhs.type_symbol()),
                options,
                lhs.type_symbol(),
                operator,
                Some(rhs.type_symbol()),
            ) {
                Ok(symbol) => match fresh_variable(symbol, before.stack_sizes) {
                    Ok((variable, stack_sizes)) => {
                        lemma_operated_appends(
                            lhs,
                            operator,
                            rhs,
                            variable,
                            Output { memory: before.memory, stack_sizes },
                        );
                    },
                    Err(_) => {},
                },
                Err(_) => {},
            }
        },
    }
}

/// Evaluates an expression and stores the result in `destination`.
pub fn evaluate_arithmetic_into_type(
    section: &[Symbol],
    destination: &Type,
    program_memory: &mut MemoryManager,
    reference_stack: &ReferenceStack,
    stack_sizes: &mut StackSizes,
) -> (result: Result<(), String>)
    requires
        reference_stack.well_formed(old(program_memory)@.len()),
        destination.is_allocated(),
    ensures
        old(program_memory)@.is_prefix_of(final(program_memory)@),
        section@.len() == 0 || section@.len() > 3 ==> final(program_memory)@ == old(program_memory)@
            && final(stack_sizes)@ == old(stack_sizes)@,
        old(program_memory)@.len() <= final(program_memory)@.len(),
        final(stack_sizes)@.len() == old(stack_sizes)@.len(),
        match evaluated_section(
            section@,
            ReturnModel::IntoType(*destination),
            *reference_stack,
            Output { memory: old(program_memory)@, stack_sizes: old(stack_sizes)@ },
        ) {
            Ok(evaluated) => result is Ok && final(program_memory)@ == evaluated.output.memory
                && final(stack_sizes)@ == evaluated.output.stack_sizes,
            Err(message) => result is Err && result->Err_0@ == message,
        },
{
    let options = ReturnOptions::IntoType(destination);
    match evaluate_arithmetic_section(
        section,
        &options,
        program_memory,
        reference_stack,
        stack_sizes,
    ) {
        Ok(_) => Ok(()),
        Err(message) => Err(message),
    }
}

/// Evaluates an expression whose result has one of the given types, or any
/// type where none is given. Returns the value that holds the result.
pub fn evaluate_arithmetic_to_types<'a>(
    section: &[Symbol],
    return_type_options: &[TypeSymbol],
    program_memory: &mut MemoryManager,
    reference_stack: &'a ReferenceStack,
    stack_sizes: &mut StackSizes,
) -> (result: Result<RefOrBox<'a, Type>, String>)
    requires
        reference_stack.well_formed(old(program_memory)@.len()),
    ensures
        old(program_memory)@.is_prefix_of(final(program_memory)@),
        section@.len() == 0 || section@.len() > 3 ==> final(program_memory)@ == old(program_memory)@
            && final(stack_sizes)@ == old(stack_sizes)@,
        old(program_memory)@.len() <= final(program_memory)@.len(),
        final(stack_sizes)@.len() == old(stack_sizes)@.len(),
        match evaluated_section(
            section@,
            ReturnModel::OneOfTypes(return_type_options@),
            *reference_stack,
            Output { memory: old(program_memory)@, stack_sizes: old(stack_sizes)@ },
        ) {
            Ok(evaluated) => result is Ok && evaluated.value == Some(result->Ok_0.value())
                && result->Ok_0.value().is_allocated() && final(program_memory)@
                == evaluated.output.memory && final(stack_sizes)@ == evaluated.output.stack_sizes,
            Err(message) => result is Err && result->Err_0@ == message,
        },
{
    let options = ReturnOptions::OneOfTypes(return_type_options);
    match evaluate_arithmetic_section(
        section,
        &options,
        program_memory,
        reference_stack,
        stack_sizes,
    ) {
        Ok(Some(value)) => Ok(value),
        Ok(None) => {
            proof {
                lemma_section_has_value(
                    section@,
                    options.model(),
                    *reference_stack,
                    Output { memory: old(program_memory)@, stack_sizes: old(stack_sizes)@ },
                );
            }
            Err(String::from_str("Expected an expression"))
        },
        Err(message) => Err(message),
    }
}

/// Evaluates an expression whose result may have any type. Returns the
/// value that holds the result.
pub fn evaluate_arithmetic_to_any_type<'a>(
    section: &[Symbol],
    program_memory: &mut MemoryManager,
    reference_stack: &'a ReferenceStack,
    stack_sizes: &mut StackSizes,
) -> (result: Result<RefOrBox<'a, Type>, String>)
    requires
        reference_stack.well_formed(old(program_memory)@.len()),
    ensures
        old(program_memory)@.is_prefix_of(final(program_memory)@),
        section@.len() == 0 || section@.len() > 3 ==> final(program_memory)@ == old(program_memory)@
            && final(stack_sizes)@ == old(stack_sizes)@,
        old(program_memory)@.len() <= final(program_memory)@.len(),
        final(stack_sizes)@.len() == old(stack_sizes)@.len(),
        match evaluated_section(
            section@,
            ReturnModel::AnyType,
            *reference_stack,
            Output { memory: old(program_memory)@, stack_sizes: old(stack_sizes)@ },
        ) {
            Ok(evaluated) => result is Ok && evaluated.value == Some(result->Ok_0.value())
                && result->Ok_0.value().is_allocated() && final(program_memory)@
                == evaluated.output.memory && final(stack_sizes)@ == evaluated.output.stack_sizes,
            Err(message) => result is Err && result->Err_0@ == message,
        },
{
    let options = ReturnOptions::AnyType;
    match evaluate_arithmetic_section(
        section,
        &options,
        program_memory,
        reference_stack,
        stack_sizes,
    ) {
        Ok(Some(value)) => Ok(value),
        Ok(None) => {
            proof {
                lemma_section_has_value(
                    section@,
                    options.model(),
                    *reference_stack,
                    Output { memory: old(program_memory)@, stack_sizes: old(stack_sizes)@ },
                );
            }
            Err(String::from_str("Expected an expression"))
        },
        Err(message) => Err(message),
    }
}

/// What assigning with `assigner` comes to: the plain assignment stores the
/// expression `rhs`; a combined one applies its operator to the value of
/// `lhs` and to the value of `rhs`, which is taken as if it stood in
/// brackets, and stores the result.
pub open spec fn assigned(
    assigner: Assigner,
    lhs: Symbol,
    rhs: Seq<Symbol>,
    options: ReturnModel,
    reference_stack: ReferenceStack,
    before: Output,
) -> Result<Evaluated, Seq<char>> {
    match assigner.operator() {
        None => evaluated_section(rhs, options, reference_stack, before),
        Some(operator) => match evaluated_operand(lhs, options, reference_stack, before) {
            Err(message) => Err(message),
            Ok(left) => match evaluated_section(
                rhs,
                match options.prefered_type() {
                    Some(prefered) => ReturnModel::PreferType(prefered),
                    None => ReturnModel::AnyType,
                },
                reference_stack,
                left.output,
            ) {
                Err(message) => Err(message),
                Ok(right) => evaluated_operation(
                    operator,
                    left.value->0,
                    right.value->0,
                    options,
                    right.output,
                ),
            },
        },
    }
}

/// Assigning is evaluating the expression that the assignment expands to.
pub proof fn lemma_assigned_is_expanded(
    assigner: Assigner,
    lhs: Symbol,
    rhs: Vec<Symbol>,
    options: ReturnModel,
    reference_stack: ReferenceStack,
    before: Output,
)
    requires
        !(lhs is Operator),
    ensures
        assigned(assigner, lhs, rhs@, options, reference_stack, before) == evaluated_section(
            assigner.expanded(lhs, rhs),
            options,
            reference_stack,
            before,
        ),
{
    reveal_with_fuel(evaluated_symbol, 4);
    reveal_with_fuel(evaluated_operand, 4);
    reveal_with_fuel(evaluated_section, 4);
    match assigner.operator() {
        None => {},
        Some(operator) => {
            let expanded = assigner.expanded(lhs, rhs);
            assert(expanded.len() == 3);
            assert(expanded[0] == lhs);
            assert(expanded[1] == Symbol::Operator(operator));
            assert(expanded[2] == Symbol::BracketedSection(rhs));
        },
    }
}

/// Evaluates an assignment with `assigner` of the expression `rhs` to the
/// value named by `lhs`, and stores the result in `destination`.
pub fn evaluate_assignment(
    assigner: &Assigner,
    lhs: &Symbol,
    rhs: &[Symbol],
    destination: &Type,
    program_memory: &mut MemoryManager,
    reference_stack: &ReferenceStack,
    stack_sizes: &mut StackSizes,
) -> (result: Result<(), String>)
    requires
        reference_stack.well_formed(old(program_memory)@.len()),
        destination.is_allocated(),
    ensures
        old(program_memory)@.is_prefix_of(final(program_memory)@),
        old(program_memory)@.len() <= final(program_memory)@.len(),
        final(stack_sizes)@.len() == old(stack_sizes)@.len(),
        match assigned(
            *assigner,
            *lhs,
            rhs@,
            ReturnModel::IntoType(*destination),
            *reference_stack,
            Output { memory: old(program_memory)@, stack_sizes: old(stack_sizes)@ },
        ) {
            Ok(evaluated) => result is Ok && final(program_memory)@ == evaluated.output.memory
                && final(stack_sizes)@ == evaluated.output.stack_sizes,
            Err(message) => result is Err && result->Err_0@ == message,
        },
{
    let operator = match assigner.get_operator() {
        None => {
            return evaluate_arithmetic_into_type(
                rhs,
                destination,
                program_memory,
                reference_stack,
                stack_sizes,
            );
        },
        Some(operator) => operator,
    };
    let options = ReturnOptions::IntoType(destination);
    let left = match handle_operand(lhs, &options, program_memory, reference_stack, stack_sizes) {
        Ok(left) => left,
        Err(message) => {
            return Err(message);
        },
    };
    proof {
        lemma_well_formed_grows(
            *reference_stack,
            old(program_memory)@.len(),
            program_memory@.len(),
        );
    }
    let operand_options = ReturnOptions::PreferType(destination.get_type_symbol());
    let ghost middle = Output { memory: program_memory@, stack_sizes: stack_sizes@ };
    let right = match evaluate_arithmetic_section(
        rhs,
        &operand_options,
        program_memory,
        reference_stack,
        stack_sizes,
    ) {
        Ok(Some(right)) => right,
        Ok(None) => {
            proof {
                lemma_section_has_value(rhs@, operand_options.model(), *reference_stack, middle);
            }
            return Err(String::from_str("Expected an expression"));
        },
        Err(message) => {
            return Err(message);
        },
    };
    match handle_operation(&operator, left, right, &options, program_memory, stack_sizes) {
        Ok(_) => Ok(()),
        Err(message) => Err(message),
    }
}

} // verus!
