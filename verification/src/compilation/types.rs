//! The types that values of the language have: what a value of each type
//! occupies, how literals are written in it, and which operators it offers.
use vstd::prelude::*;
use crate::compilation::blocks::{frame_has_room, grown, produced, Output, StackSizes};
use crate::compilation::instructions::{immediate_written, unary_written, CopyInstruction, COPY_CODE};
use crate::lexical_parsing::symbols::{Literal, Operator, Symbol, TypeSymbol};
use crate::memory::address::Address;
use crate::memory::memory_manager::MemoryManager;
use crate::util::outcome;

pub mod boolean;
pub mod pointer;

use boolean::BoolType;
use pointer::PointerType;

verus! {

/// An entry of the table of binary operators of the type `LHS`.
pub trait Operation<LHS> {
    /// The operator that the entry implements.
    spec fn symbol(&self) -> Operator;

    /// The type of the result for a right operand of type `rhs`; none where
    /// the entry does not take such an operand.
    spec fn result_type(&self, rhs: TypeSymbol) -> Option<TypeSymbol>;

    /// True where the operands and the destination have cells to work on.
    spec fn operands_ready(&self, lhs: &LHS, rhs: &Type, destination: &Type) -> bool;

    /// What applying the entry produces.
    spec fn operated(&self, lhs: &LHS, rhs: &Type, destination: &Type, before: Output) -> Result<
        Output,
        Seq<char>,
    >;

    fn get_symbol(&self) -> (symbol: Operator)
        ensures
            symbol == self.symbol(),
    ;

    fn get_result_type(&self, rhs: &TypeSymbol) -> (result: Option<TypeSymbol>)
        ensures
            result == self.result_type(*rhs),
    ;

    /// Emits the instructions that apply the operator to `lhs` and `rhs` and
    /// leave the result in `destination`.
    fn operate(
        &self,
        lhs: &LHS,
        rhs: &Type,
        destination: &Type,
        program_memory: &mut MemoryManager,
        stack_sizes: &mut StackSizes,
    ) -> (result: Result<(), String>)
        requires
            self.operands_ready(lhs, rhs, destination),
            self.result_type(rhs.type_symbol()) == Some(destination.type_symbol()),
        ensures
            old(program_memory)@.len() <= final(program_memory)@.len(),
            final(stack_sizes)@.len() == old(stack_sizes)@.len(),
            produced(result, final(program_memory)@, final(stack_sizes)@) == self.operated(
                lhs,
                rhs,
                destination,
                Output { memory: old(program_memory)@, stack_sizes: old(stack_sizes)@ },
            ),
            result is Err ==> final(program_memory)@ == old(program_memory)@ && final(stack_sizes)@
                == old(stack_sizes)@,
    ;
}

/// An entry of the table of prefix operators of the type `LHS`.
pub trait PrefixOperation<LHS> {
    /// The operator that the entry implements.
    spec fn symbol(&self) -> Operator;

    /// The type of the result.
    spec fn result_type(&self) -> Option<TypeSymbol>;

    /// True where the operand and the destination have cells to work on.
    spec fn operands_ready(&self, lhs: &LHS, destination: &Type) -> bool;

    /// What applying the entry produces.
    spec fn operated(&self, lhs: &LHS, destination: &Type, before: Output) -> Result<
        Output,
        Seq<char>,
    >;

    fn get_symbol(&self) -> (symbol: Operator)
        ensures
            symbol == self.symbol(),
    ;

    fn get_result_type(&self) -> (result: Option<TypeSymbol>)
        ensures
            result == self.result_type(),
    ;

    /// Emits the instructions that apply the operator to `lhs` and leave the
    /// result in `destination`.
    fn operate_prefix(
        &self,
        lhs: &LHS,
        destination: &Type,
        program_memory: &mut MemoryManager,
        stack_sizes: &mut StackSizes,
    ) -> (result: Result<(), String>)
        requires
            self.operands_ready(lhs, destination),
            self.result_type() == Some(destination.type_symbol()),
        ensures
            old(program_memory)@.len() <= final(program_memory)@.len(),
            final(stack_sizes)@.len() == old(stack_sizes)@.len(),
            produced(result, final(program_memory)@, final(stack_sizes)@) == self.operated(
                lhs,
                destination,
                Output { memory: old(program_memory)@, stack_sizes: old(stack_sizes)@ },
            ),
            result is Err ==> final(program_memory)@ == old(program_memory)@ && final(stack_sizes)@
                == old(stack_sizes)@,
    ;
}

/// The result type that a table entry contributes for an operator and the
/// type of a right operand: its own where it matches, none otherwise.
pub open spec fn entry_result<LHS, E: Operation<LHS>>(
    entry: E,
    operator: Operator,
    rhs: TypeSymbol,
) -> Seq<TypeSymbol> {
    if entry.symbol() == operator && entry.result_type(rhs) is Some {
        seq![entry.result_type(rhs)->0]
    } else {
        Seq::empty()
    }
}

/// The result type that a table entry contributes for a prefix operator.
pub open spec fn prefix_entry_result<LHS, E: PrefixOperation<LHS>>(
    entry: E,
    operator: Operator,
) -> Seq<TypeSymbol> {
    if entry.symbol() == operator && entry.result_type() is Some {
        seq![entry.result_type()->0]
    } else {
        Seq::empty()
    }
}

/// A list of type names in brackets, separated by commas; `[any]` for none.
pub open spec fn type_list_text(types: Seq<TypeSymbol>) -> Seq<char> {
    if types.len() == 0 {
        "[any]"@
    } else {
        "["@ + type_list_items(types, types.len())
    }
}

/// The first `count` names of a list, each followed by a comma and a space
/// but the last of them.
pub open spec fn type_list_items(types: Seq<TypeSymbol>, count: nat) -> Seq<char>
    decreases count,
{
    if count == 0 {
        Seq::empty()
    } else if count == 1 {
        types[0].name()
    } else {
        type_list_items(types, (count - 1) as nat) + ", "@ + types[count - 1].name()
    }
}

/// The message for a result of another type than asked for.
pub open spec fn incorrect_type_message(expected: Seq<TypeSymbol>, received: Seq<TypeSymbol>)
    -> Seq<char> {
    "Expected type "@ + type_list_text(expected) + ", received "@ + type_list_text(received)
}

/// The message for an operator that the table of a type does not hold.
pub open spec fn operator_not_supported_message(
    operator: Operator,
    lhs: TypeSymbol,
    rhs: Option<TypeSymbol>,
) -> Seq<char> {
    match rhs {
        Some(rhs) => "Operator "@ + operator.name() + " not supported between "@ + lhs.name()
            + " and "@ + rhs.name(),
        None => "Operator "@ + operator.name() + " not supported on "@ + lhs.name(),
    }
}

/// The message for a literal that a type cannot hold.
pub open spec fn literal_not_implemented_message(literal: Literal, symbol: TypeSymbol) -> Seq<
    char,
> {
    literal.name() + " literals cannot be used as "@ + symbol.name()
}

/// The message for a copy between values of different types.
pub open spec fn copy_not_implemented_message(from: TypeSymbol, to: TypeSymbol) -> Seq<char> {
    "Copy not implemented from type '"@ + from.name() + "' to '"@ + to.name() + "'"@
}

/// The message for a type that has no values.
pub open spec fn cannot_instantiate_message(symbol: TypeSymbol) -> Seq<char> {
    "Type "@ + symbol.name() + " cannot be instantiated"@
}

/// The message for a value that is given a cell twice.
pub open spec fn already_allocated_message(symbol: TypeSymbol) -> Seq<char> {
    symbol.name() + " already has a memory address"@
}

/// The message for a frame that cannot grow.
pub open spec fn frame_full_message() -> Seq<char> {
    "The stack frame cannot hold another variable"@
}

/// The message for a literal without a default type.
pub open spec fn no_default_type_message(literal: Literal) -> Seq<char> {
    literal.name() + " does not have a default type (use as syntax)"@
}

/// The message for a method that a type does not have.
pub open spec fn method_not_implemented_message(method_name: Seq<char>, symbol: TypeSymbol)
    -> Seq<char> {
    "'"@ + method_name + "' not implemented for "@ + symbol.name()
}

/// The text of a list of type names.
pub fn type_list(types: &[TypeSymbol]) -> (text: String)
    ensures
        text@ == type_list_text(types@),
{
    if types.len() == 0 {
        return String::from_str("[any]");
    }
    let mut items = String::from_str(types[0].get_name());
    let mut i: usize = 1;
    while i < types.len()
        invariant
            1 <= i <= types@.len(),
            items@ == type_list_items(types@, i as nat),
        decreases types@.len() - i,
    {
        items.append(", ");
        items.append(types[i].get_name());
        i = i + 1;
    }
    let mut text = String::from_str("[");
    text.append(items.as_str());
    text
}

/// The message for a result of another type than asked for.
pub fn incorrect_type_error(expected: &[TypeSymbol], received: &[TypeSymbol]) -> (message: String)
    ensures
        message@ == incorrect_type_message(expected@, received@),
{
    let mut message = String::from_str("Expected type ");
    message.append(type_list(expected).as_str());
    message.append(", received ");
    message.append(type_list(received).as_str());
    message
}

/// The message for an operator that the table of a type does not hold.
pub fn operator_not_supported_error(operator: &Operator, lhs: TypeSymbol, rhs: Option<TypeSymbol>)
    -> (message: String)
    ensures
        message@ == operator_not_supported_message(*operator, lhs, rhs),
{
    let mut message = String::from_str("Operator ");
    message.append(operator.get_name());
    match rhs {
        Some(rhs) => {
            message.append(" not supported between ");
            message.append(lhs.get_name());
            message.append(" and ");
            message.append(rhs.get_name());
        },
        None => {
            message.append(" not supported on ");
            message.append(lhs.get_name());
        },
    }
    message
}

/// The message for a literal that a type cannot hold.
pub fn create_literal_not_impl_error(literal: &Literal, symbol: TypeSymbol) -> (message: String)
    ensures
        message@ == literal_not_implemented_message(*literal, symbol),
{
    let mut message = String::from_str(literal.get_name());
    message.append(" literals cannot be used as ");
    message.append(symbol.get_name());
    message
}

/// The message for a copy between values of different types.
pub fn copy_not_implemented_error(from: TypeSymbol, to: TypeSymbol) -> (message: String)
    ensures
        message@ == copy_not_implemented_message(from, to),
{
    let mut message = String::from_str("Copy not implemented from type '");
    message.append(from.get_name());
    message.append("' to '");
    message.append(to.get_name());
    message.append("'");
    message
}

/// A value of the language at compile time: its type, and the cell that it
/// occupies once it has been allocated.
#[derive(Debug)]
pub enum Type {
    Boolean(BoolType),
    Pointer(PointerType),
}

/// The number of bytes that a value of a type occupies.
pub open spec fn width_of(symbol: TypeSymbol) -> usize {
    match symbol {
        TypeSymbol::Boolean => boolean::BOOLEAN_SIZE,
        _ => crate::util::USIZE_BYTES,
    }
}

/// True of the types that have values.
pub open spec fn can_instantiate(symbol: TypeSymbol) -> bool {
    symbol == TypeSymbol::Boolean || symbol == TypeSymbol::Pointer
}

/// The value of type `symbol` in the cell at `address`; `symbol` is a type
/// that has values.
pub open spec fn type_at(symbol: TypeSymbol, address: Option<Address>) -> Type {
    if symbol == TypeSymbol::Boolean {
        Type::Boolean(BoolType { address })
    } else {
        Type::Pointer(PointerType { address })
    }
}

/// What giving a value of type `symbol` a fresh cell comes to: the value in
/// its cell at the end of the innermost frame, and the frame grown by the
/// width of the type.
pub open spec fn fresh_variable(symbol: TypeSymbol, stack_sizes: Seq<usize>) -> Result<
    (Type, Seq<usize>),
    Seq<char>,
> {
    if !can_instantiate(symbol) {
        Err(cannot_instantiate_message(symbol))
    } else if !frame_has_room(stack_sizes, width_of(symbol)) {
        Err(frame_full_message())
    } else {
        Ok(
            (
                type_at(symbol, Some(Address::StackDirect(stack_sizes.last()))),
                grown(stack_sizes, width_of(symbol)),
            ),
        )
    }
}

/// The frame counters once a value of type `symbol` has been given a fresh
/// cell, or as they are where it cannot be given one.
pub open spec fn allocated_sizes(symbol: TypeSymbol, stack_sizes: Seq<usize>) -> Seq<usize> {
    match fresh_variable(symbol, stack_sizes) {
        Ok((_, grown)) => grown,
        Err(_) => stack_sizes,
    }
}

impl Type {
    /// The type of the value.
    pub open spec fn type_symbol(self) -> TypeSymbol {
        match self {
            Type::Boolean(_) => TypeSymbol::Boolean,
            Type::Pointer(_) => TypeSymbol::Pointer,
        }
    }

    /// The cell of the value, once it has one.
    pub open spec fn address(self) -> Option<Address> {
        match self {
            Type::Boolean(value) => value.address,
            Type::Pointer(value) => value.address,
        }
    }

    /// The number of bytes of the value.
    pub open spec fn length(self) -> usize {
        width_of(self.type_symbol())
    }

    /// True where the value has a cell that can be written to.
    pub open spec fn is_allocated(self) -> bool {
        self.address() is Some && !(self.address()->0 is Immediate)
    }

    /// The constant that a literal stands for in the type `symbol`.
    pub open spec fn constant_of(symbol: TypeSymbol, literal: Literal) -> Result<
        Seq<u8>,
        Seq<char>,
    > {
        match symbol {
            TypeSymbol::Boolean => BoolType::constant_of(literal),
            _ => PointerType::constant_of(literal),
        }
    }

    /// What copying the value of `other` into this value emits.
    pub open spec fn copied_from(self, other: Type, memory: Seq<u8>) -> Result<
        Seq<u8>,
        Seq<char>,
    > {
        if other.type_symbol() == self.type_symbol() {
            Ok(
                memory + CopyInstruction::bytes(
                    other.address()->0,
                    self.address()->0,
                    self.length(),
                ),
            )
        } else {
            Err(copy_not_implemented_message(other.type_symbol(), self.type_symbol()))
        }
    }

    /// What storing a literal in this value emits.
    pub open spec fn copied_from_literal(self, literal: Literal, memory: Seq<u8>) -> Result<
        Seq<u8>,
        Seq<char>,
    > {
        match Type::constant_of(self.type_symbol(), literal) {
            Ok(constant) => Ok(
                memory + unary_written(
                    COPY_CODE,
                    immediate_written(constant),
                    self.address()->0.bytes(),
                    self.length(),
                ),
            ),
            Err(message) => Err(message),
        }
    }

    /// What giving this value a cell comes to: the value in its cell at the
    /// end of the innermost frame, and the frame grown by its width.
    pub open spec fn allocated(self, stack_sizes: Seq<usize>) -> Result<
        (Type, Seq<usize>),
        Seq<char>,
    > {
        if self.address() is Some {
            Err(already_allocated_message(self.type_symbol()))
        } else {
            fresh_variable(self.type_symbol(), stack_sizes)
        }
    }

    /// The result types that the table of binary operators of a type holds
    /// for an operator and the type of a right operand, in table order.
    pub open spec fn operation_result_types(lhs: TypeSymbol, operator: Operator, rhs: TypeSymbol)
        -> Seq<TypeSymbol> {
        match lhs {
            TypeSymbol::Boolean => BoolType::operation_result_types(operator, rhs),
            TypeSymbol::Pointer => PointerType::operation_result_types(operator, rhs),
            _ => Seq::empty(),
        }
    }

    /// The result types that the table of prefix operators of a type holds
    /// for an operator, in table order.
    pub open spec fn prefix_operation_result_types(lhs: TypeSymbol, operator: Operator) -> Seq<
        TypeSymbol,
    > {
        match lhs {
            TypeSymbol::Boolean => BoolType::prefix_operation_result_types(operator),
            TypeSymbol::Pointer => PointerType::prefix_operation_result_types(operator),
            _ => Seq::empty(),
        }
    }

    /// What applying a binary operator to this value and `rhs` produces.
    pub open spec fn operated(self, operator: Operator, rhs: Type, destination: Type, before: Output)
        -> Result<Output, Seq<char>> {
        match self {
            Type::Boolean(lhs) => lhs.operated(operator, rhs, destination, before),
            Type::Pointer(lhs) => lhs.operated(operator, rhs, destination, before),
        }
    }

    /// What applying a prefix operator to this value produces.
    pub open spec fn operated_prefix(self, operator: Operator, destination: Type, before: Output)
        -> Result<Output, Seq<char>> {
        match self {
            Type::Boolean(lhs) => lhs.operated_prefix(operator, destination, before),
            Type::Pointer(lhs) => lhs.operated_prefix(operator, destination, before),
        }
    }

    /// The type of the value.
    pub fn get_type_symbol(&self) -> (symbol: TypeSymbol)
        ensures
            symbol == self.type_symbol(),
    {
        match self {
            Type::Boolean(_) => TypeSymbol::Boolean,
            Type::Pointer(_) => TypeSymbol::Pointer,
        }
    }

    /// The cell of the value.
    pub fn get_address(&self) -> (address: &Address)
        requires
            self.address() is Some,
        ensures
            *address == self.address()->0,
    {
        match self {
            Type::Boolean(value) => value.get_address(),
            Type::Pointer(value) => value.get_address(),
        }
    }

    /// The number of bytes of the value.
    pub fn get_length(&self) -> (length: usize)
        ensures
            length == self.length(),
    {
        match self {
            Type::Boolean(value) => value.get_length(),
            Type::Pointer(value) => value.get_length(),
        }
    }

    /// Gives the value a cell at the end of the innermost frame. Fails where
    /// the value already has a cell, or the frame cannot grow.
    pub fn allocate_variable(
        &mut self,
        stack: &mut StackSizes,
        _program_memory: &mut MemoryManager,
    ) -> (result: Result<(), String>)
        ensures
            final(_program_memory)@ == old(_program_memory)@,
            final(stack)@.len() == old(stack)@.len(),
            match old(self).allocated(old(stack)@) {
                Ok((value, stack_sizes)) => result is Ok && *final(self) == value && final(stack)@
                    == stack_sizes,
                Err(message) => result is Err && result->Err_0@ == message
                    && *final(self) == *old(self) && final(stack)@ == old(stack)@,
            },
    {
        let symbol = self.get_type_symbol();
        let taken = match self {
            Type::Boolean(value) => value.address.is_some(),
            Type::Pointer(value) => value.address.is_some(),
        };
        if taken {
            let mut message = String::from_str(symbol.get_name());
            message.append(" already has a memory address");
            return Err(message);
        }
        let width = self.get_length();
        if !stack.has_room(width) {
            return Err(String::from_str("The stack frame cannot hold another variable"));
        }
        let offset = stack.increment_stack_size(width);
        *self = match symbol {
            TypeSymbol::Boolean => Type::Boolean(
                BoolType { address: Some(Address::StackDirect(offset)) },
            ),
            _ => Type::Pointer(PointerType { address: Some(Address::StackDirect(offset)) }),
        };
        Ok(())
    }

    /// The immediate address of the constant that a literal stands for in
    /// this type. Fails where the type cannot hold the literal.
    pub fn get_constant(&self, literal: &Literal) -> (constant: Result<Address, String>)
        ensures
            match Type::constant_of(self.type_symbol(), *literal) {
                Ok(value) => constant is Ok && constant->Ok_0 is Immediate
                    && constant->Ok_0.payload() == value,
                Err(message) => constant is Err && constant->Err_0@ == message,
            },
    {
        match self {
            Type::Boolean(value) => value.get_constant(literal),
            Type::Pointer(value) => value.get_constant(literal),
        }
    }

    /// Emits the copy of the value of `other` into this value. Fails where
    /// the types differ.
    pub fn runtime_copy_from(&self, other: &Type, program_memory: &mut MemoryManager) -> (result:
        Result<CopyInstruction, String>)
        requires
            self.is_allocated(),
            other.address() is Some,
        ensures
            match self.copied_from(*other, old(program_memory)@) {
                Ok(memory) => result is Ok && final(program_memory)@ == memory
                    && result->Ok_0.address == old(program_memory)@.len(),
                Err(message) => result is Err && result->Err_0@ == message && final(program_memory)@ == old(program_memory)@,
            },
    {
        if other.get_type_symbol() == self.get_type_symbol() {
            Ok(
                CopyInstruction::new_alloc(
                    program_memory,
                    other.get_address(),
                    self.get_address(),
                    self.get_length(),
                ),
            )
        } else {
            Err(copy_not_implemented_error(other.get_type_symbol(), self.get_type_symbol()))
        }
    }

    /// Emits the copy of the constant that a literal stands for into this
    /// value. Fails where the type cannot hold the literal.
    pub fn runtime_copy_from_literal(&self, literal: &Literal, program_memory: &mut MemoryManager)
        -> (result: Result<CopyInstruction, String>)
        requires
            self.is_allocated(),
        ensures
            match self.copied_from_literal(*literal, old(program_memory)@) {
                Ok(memory) => result is Ok && final(program_memory)@ == memory
                    && result->Ok_0.address == old(program_memory)@.len(),
                Err(message) => result is Err && result->Err_0@ == message && final(program_memory)@ == old(program_memory)@,
            },
    {
        match self.get_constant(literal) {
            Ok(constant) => {
                assert(constant.bytes() =~= immediate_written(constant.payload()));
                Ok(
                    CopyInstruction::new_alloc(
                        program_memory,
                        &constant,
                        self.get_address(),
                        self.get_length(),
                    ),
                )
            },
            Err(message) => Err(message),
        }
    }

    /// The result types that the table of prefix operators holds for an
    /// operator.
    pub fn get_prefix_operation_result_type(&self, operator: &Operator) -> (results: Vec<
        TypeSymbol,
    >)
        ensures
            results@ == Type::prefix_operation_result_types(self.type_symbol(), *operator),
    {
        match self {
            Type::Boolean(value) => value.get_prefix_operation_result_type(operator),
            Type::Pointer(value) => value.get_prefix_operation_result_type(operator),
        }
    }

    /// The result types that the table of binary operators holds for an
    /// operator and the type of a right operand.
    pub fn get_operation_result_type(&self, operator: &Operator, rhs: &TypeSymbol) -> (results:
        Vec<TypeSymbol>)
        ensures
            results@ == Type::operation_result_types(self.type_symbol(), *operator, *rhs),
    {
        match self {
            Type::Boolean(value) => value.get_operation_result_type(operator, rhs),
            Type::Pointer(value) => value.get_operation_result_type(operator, rhs),
        }
    }

    /// Emits the instructions of a prefix operator applied to this value,
    /// with the result in `destination`: those of the first entry of the
    /// table that implements the operator. Fails where there is no such
    /// entry, or where its result is not of the type of `destination`.
    pub fn operate_prefix(
        &self,
        operator: &Operator,
        destination: &Type,
        program_memory: &mut MemoryManager,
        stack_sizes: &mut StackSizes,
    ) -> (result: Result<(), String>)
        requires
            self.is_allocated(),
            destination.is_allocated(),
        ensures
            old(program_memory)@.len() <= final(program_memory)@.len(),
            final(stack_sizes)@.len() == old(stack_sizes)@.len(),
            produced(result, final(program_memory)@, final(stack_sizes)@) == self.operated_prefix(
                *operator,
                *destination,
                Output { memory: old(program_memory)@, stack_sizes: old(stack_sizes)@ },
            ),
            result is Err ==> final(program_memory)@ == old(program_memory)@ && final(stack_sizes)@
                == old(stack_sizes)@,
    {
        match self {
            Type::Boolean(value) => value.operate_prefix(
                operator,
                destination,
                program_memory,
                stack_sizes,
            ),
            Type::Pointer(value) => value.operate_prefix(
                operator,
                destination,
                program_memory,
                stack_sizes,
            ),
        }
    }

    /// Emits the instructions of a binary operator applied to this value
    /// and `rhs`, with the result in `destination`: those of the first entry
    /// of the table that implements the operator for the type of `rhs`.
    /// Fails where there is no such entry, or where its result is not of
    /// the type of `destination`.
    pub fn operate(
        &self,
        operator: &Operator,
        rhs: &Type,
        destination: &Type,
        program_memory: &mut MemoryManager,
        stack_sizes: &mut StackSizes,
    ) -> (result: Result<(), String>)
        requires
            self.is_allocated(),
            rhs.is_allocated(),
            destination.is_allocated(),
        ensures
            old(program_memory)@.len() <= final(program_memory)@.len(),
            final(stack_sizes)@.len() == old(stack_sizes)@.len(),
            produced(result, final(program_memory)@, final(stack_sizes)@) == self.operated(
                *operator,
                *rhs,
                *destination,
                Output { memory: old(program_memory)@, stack_sizes: old(stack_sizes)@ },
            ),
            result is Err ==> final(program_memory)@ == old(program_memory)@ && final(stack_sizes)@
                == old(stack_sizes)@,
    {
        match self {
            Type::Boolean(value) => value.operate(
                operator,
                rhs,
                destination,
                program_memory,
                stack_sizes,
            ),
            Type::Pointer(value) => value.operate(
                operator,
                rhs,
                destination,
                program_memory,
                stack_sizes,
            ),
        }
    }

    /// Runs a method of the value. No type has methods yet.
    pub fn run_method(
        &self,
        method_name: &String,
        _arguments: &[Vec<Symbol>],
        _stack: &mut StackSizes,
        _program_memory: &mut MemoryManager,
    ) -> (result: Result<(), String>)
        ensures
            result is Err,
            result->Err_0@ == method_not_implemented_message(method_name@, self.type_symbol()),
            final(_stack)@ == old(_stack)@,
            final(_program_memory)@ == old(_program_memory)@,
    {
        let mut message = String::from_str("'");
        message.append(method_name.as_str());
        message.append("' not implemented for ");
        message.append(self.get_type_symbol().get_name());
        Err(message)
    }

    /// A copy of the value: the same type in the same cell.
    pub fn duplicate(&self) -> (copy: Type)
        ensures
            copy.type_symbol() == self.type_symbol(),
            copy.address() is Some == self.address() is Some,
            self.address() is Some ==> copy.address()->0.bytes() == self.address()->0.bytes(),
            !(self.address() is Some && self.address()->0 is Immediate) ==> copy == *self,
    {
        match self {
            Type::Boolean(value) => Type::Boolean(value.duplicate_known()),
            Type::Pointer(value) => Type::Pointer(value.duplicate_known()),
        }
    }
}

/// Applies an entry of a table of binary operators that takes the right
/// operand: fails where the result is not of the type of the destination.
pub open spec fn entry_operated<LHS, E: Operation<LHS>>(
    entry: E,
    lhs: &LHS,
    rhs: &Type,
    destination: &Type,
    before: Output,
) -> Result<Output, Seq<char>> {
    if entry.result_type(rhs.type_symbol()) != Some(destination.type_symbol()) {
        Err(
            incorrect_type_message(
                seq![destination.type_symbol()],
                seq![entry.result_type(rhs.type_symbol())->0],
            ),
        )
    } else {
        entry.operated(lhs, rhs, destination, before)
    }
}

/// Applies an entry of a table of prefix operators: fails where the result
/// is not of the type of the destination.
pub open spec fn prefix_entry_operated<LHS, E: PrefixOperation<LHS>>(
    entry: E,
    lhs: &LHS,
    destination: &Type,
    before: Output,
) -> Result<Output, Seq<char>> {
    if entry.result_type() != Some(destination.type_symbol()) {
        Err(
            incorrect_type_message(
                seq![destination.type_symbol()],
                seq![entry.result_type()->0],
            ),
        )
    } else {
        entry.operated(lhs, destination, before)
    }
}

/// Applies an entry of a table of binary operators that takes the right
/// operand.
pub fn apply_operation<LHS, E: Operation<LHS>>(
    entry: &E,
    lhs: &LHS,
    rhs: &Type,
    destination: &Type,
    program_memory: &mut MemoryManager,
    stack_sizes: &mut StackSizes,
) -> (result: Result<(), String>)
    requires
        entry.result_type(rhs.type_symbol()) is Some,
        entry.operands_ready(lhs, rhs, destination),
    ensures
        old(program_memory)@.len() <= final(program_memory)@.len(),
        final(stack_sizes)@.len() == old(stack_sizes)@.len(),
        produced(result, final(program_memory)@, final(stack_sizes)@) == entry_operated(
            *entry,
            lhs,
            rhs,
            destination,
            Output { memory: old(program_memory)@, stack_sizes: old(stack_sizes)@ },
        ),
        result is Err ==> final(program_memory)@ == old(program_memory)@ && final(stack_sizes)@
            == old(stack_sizes)@,
{
    let result_type = entry.get_result_type(&rhs.get_type_symbol()).unwrap();
    let wanted = destination.get_type_symbol();
    if result_type != wanted {
        let expected: [TypeSymbol; 1] = [wanted];
        let received: [TypeSymbol; 1] = [result_type];
        assert(expected@ =~= seq![wanted]);
        assert(received@ =~= seq![result_type]);
        return Err(incorrect_type_error(expected.as_slice(), received.as_slice()));
    }
    entry.operate(lhs, rhs, destination, program_memory, stack_sizes)
}

/// Applies an entry of a table of prefix operators.
pub fn apply_prefix_operation<LHS, E: PrefixOperation<LHS>>(
    entry: &E,
    lhs: &LHS,
    destination: &Type,
    program_memory: &mut MemoryManager,
    stack_sizes: &mut StackSizes,
) -> (result: Result<(), String>)
    requires
        entry.result_type() is Some,
        entry.operands_ready(lhs, destination),
    ensures
        old(program_memory)@.len() <= final(program_memory)@.len(),
        final(stack_sizes)@.len() == old(stack_sizes)@.len(),
        produced(result, final(program_memory)@, final(stack_sizes)@) == prefix_entry_operated(
            *entry,
            lhs,
            destination,
            Output { memory: old(program_memory)@, stack_sizes: old(stack_sizes)@ },
        ),
        result is Err ==> final(program_memory)@ == old(program_memory)@ && final(stack_sizes)@
            == old(stack_sizes)@,
{
    let result_type = entry.get_result_type().unwrap();
    let wanted = destination.get_type_symbol();
    if result_type != wanted {
        let expected: [TypeSymbol; 1] = [wanted];
        let received: [TypeSymbol; 1] = [result_type];
        assert(expected@ =~= seq![wanted]);
        assert(received@ =~= seq![result_type]);
        return Err(incorrect_type_error(expected.as_slice(), received.as_slice()));
    }
    entry.operate_prefix(lhs, destination, program_memory, stack_sizes)
}

/// A type that values can be made of.
pub trait UninstantiatedType {
    /// The type that values are made of.
    spec fn type_symbol(&self) -> TypeSymbol;

    /// A value of the type, without a cell.
    fn instantiate(&self) -> (value: Type)
        ensures
            value == type_at(self.type_symbol(), None),
    ;

    fn get_type_symbol(&self) -> (symbol: TypeSymbol)
        ensures
            symbol == self.type_symbol(),
    ;
}

/// Makes booleans.
pub struct BoolWrapper {}

impl UninstantiatedType for BoolWrapper {
    open spec fn type_symbol(&self) -> TypeSymbol {
        TypeSymbol::Boolean
    }

    fn instantiate(&self) -> (value: Type) {
        Type::Boolean(BoolType::new())
    }

    fn get_type_symbol(&self) -> (symbol: TypeSymbol) {
        TypeSymbol::Boolean
    }
}

/// Makes pointers.
pub struct PointerWrapper {}

impl UninstantiatedType for PointerWrapper {
    open spec fn type_symbol(&self) -> TypeSymbol {
        TypeSymbol::Pointer
    }

    fn instantiate(&self) -> (value: Type) {
        Type::Pointer(PointerType::new())
    }

    fn get_type_symbol(&self) -> (symbol: TypeSymbol) {
        TypeSymbol::Pointer
    }
}

/// The type that a literal has where nothing else decides: boolean for a
/// boolean literal; for an integer literal, pointer where a pointer is
/// preferred and integer otherwise.
pub open spec fn default_type_for_literal(literal: Literal, prefered_type: Option<TypeSymbol>)
    -> Result<TypeSymbol, Seq<char>> {
    match literal {
        Literal::Bool(_) => Ok(TypeSymbol::Boolean),
        Literal::Int(_) => Ok(
            if prefered_type == Some(TypeSymbol::Pointer) {
                TypeSymbol::Pointer
            } else {
                TypeSymbol::Integer
            },
        ),
        other => Err(no_default_type_message(other)),
    }
}

/// What storing a literal in a fresh variable of its default type comes to.
pub open spec fn literal_variable(
    literal: Literal,
    prefered_type: Option<TypeSymbol>,
    before: Output,
) -> Result<(Type, Output), Seq<char>> {
    match default_type_for_literal(literal, prefered_type) {
        Err(message) => Err(message),
        Ok(symbol) => match fresh_variable(symbol, before.stack_sizes) {
            Err(message) => Err(message),
            Ok((variable, stack_sizes)) => match variable.copied_from_literal(
                literal,
                before.memory,
            ) {
                Err(message) => Err(message),
                Ok(memory) => Ok((variable, Output { memory, stack_sizes })),
            },
        },
    }
}

/// The source of values of every type.
pub struct TypeFactory {}

impl TypeFactory {
    /// The factory. It holds nothing: the set of types is closed.
    pub fn get() -> (factory: Self) {
        TypeFactory {  }
    }

    /// A value of the type `new_type`, without a cell. Fails for the types
    /// that have no values.
    pub fn get_unallocated_type(new_type: &TypeSymbol) -> (value: Result<Type, String>)
        ensures
            can_instantiate(*new_type) ==> value == Ok::<Type, String>(type_at(*new_type, None)),
            !can_instantiate(*new_type) ==> value is Err && value->Err_0@
                == cannot_instantiate_message(*new_type),
    {
        let booleans = BoolWrapper {  };
        if booleans.get_type_symbol() == *new_type {
            return Ok(booleans.instantiate());
        }
        let pointers = PointerWrapper {  };
        if pointers.get_type_symbol() == *new_type {
            return Ok(pointers.instantiate());
        }
        let mut message = String::from_str("Type ");
        message.append(new_type.get_name());
        message.append(" cannot be instantiated");
        Err(message)
    }

    /// A value of the type `new_type` in a fresh cell of the innermost
    /// frame.
    pub fn get_allocated_type(
        new_type: &TypeSymbol,
        stack: &mut StackSizes,
        program_memory: &mut MemoryManager,
    ) -> (value: Result<Type, String>)
        ensures
            final(program_memory)@ == old(program_memory)@,
            final(stack)@.len() == old(stack)@.len(),
            match fresh_variable(*new_type, old(stack)@) {
                Ok((variable, stack_sizes)) => value == Ok::<Type, String>(variable) && final(stack)@ == stack_sizes,
                Err(message) => value is Err && value->Err_0@ == message && final(stack)@ == old(stack)@,
            },
    {
        match TypeFactory::get_unallocated_type(new_type) {
            Err(message) => Err(message),
            Ok(mut value) => match value.allocate_variable(stack, program_memory) {
                Err(message) => Err(message),
                Ok(_) => Ok(value),
            },
        }
    }

    /// The type that a literal has where nothing else decides.
    pub fn get_default_type_for_literal(literal: &Literal, prefered_type: Option<&TypeSymbol>)
        -> (symbol: Result<TypeSymbol, String>)
        ensures
            outcome(symbol) == default_type_for_literal(
                *literal,
                match prefered_type {
                    Some(prefered) => Some(*prefered),
                    None => None,
                },
            ),
    {
        match literal {
            Literal::Bool(_) => Ok(TypeSymbol::Boolean),
            Literal::Int(_) => Ok(
                match prefered_type {
                    None => TypeSymbol::Integer,
                    Some(TypeSymbol::Pointer) => TypeSymbol::Pointer,
                    _ => TypeSymbol::Integer,
                },
            ),
            other => {
                let mut message = String::from_str(other.get_name());
                message.append(" does not have a default type (use as syntax)");
                Err(message)
            },
        }
    }

    /// A fresh variable of the default type of a literal that holds the
    /// literal. A failure leaves the program as it was, and the frame
    /// counters too, unless it came once the variable had its cell.
    pub fn get_default_instantiated_type_for_literal(
        literal: &Literal,
        stack: &mut StackSizes,
        program_memory: &mut MemoryManager,
        prefered_type: Option<&TypeSymbol>,
    ) -> (value: Result<Type, String>)
        ensures
            old(program_memory)@.len() <= final(program_memory)@.len(),
            final(stack)@.len() == old(stack)@.len(),
            match literal_variable(
                *literal,
                match prefered_type {
                    Some(prefered) => Some(*prefered),
                    None => None,
                },
                Output { memory: old(program_memory)@, stack_sizes: old(stack)@ },
            ) {
                Ok((variable, output)) => value == Ok::<Type, String>(variable)
                    && final(program_memory)@ == output.memory
                    && final(stack)@ == output.stack_sizes,
                Err(message) => value is Err && value->Err_0@ == message,
            },
            value is Err ==> final(program_memory)@ == old(program_memory)@,
            value is Err ==> final(stack)@ == (match default_type_for_literal(
                *literal,
                match prefered_type {
                    Some(prefered) => Some(*prefered),
                    None => None,
                },
            ) {
                Ok(symbol) => allocated_sizes(symbol, old(stack)@),
                Err(_) => old(stack)@,
            }),
    {
        let type_symbol = match TypeFactory::get_default_type_for_literal(literal, prefered_type) {
            Ok(symbol) => symbol,
            Err(message) => {
                return Err(message);
            },
        };
        let value = match TypeFactory::get_allocated_type(&type_symbol, stack, program_memory) {
            Ok(value) => value,
            Err(message) => {
                return Err(message);
            },
        };
        match value.runtime_copy_from_literal(literal, program_memory) {
            Ok(_) => Ok(value),
            Err(message) => Err(message),
        }
    }
}

/// Copying a value adds to the program, and changes nothing of what the
/// program holds.
pub proof fn lemma_copy_appends(destination: Type, other: Type, memory: Seq<u8>)
    ensures
        destination.copied_from(other, memory) matches Ok(longer) ==> memory.is_prefix_of(longer),
{
}

/// Storing a literal adds to the program, and changes nothing of what the
/// program holds.
pub proof fn lemma_literal_copy_appends(destination: Type, literal: Literal, memory: Seq<u8>)
    ensures
        destination.copied_from_literal(literal, memory) matches Ok(longer) ==> memory.is_prefix_of(
            longer,
        ),
{
}

/// Applying a binary operator adds to the program, and changes nothing of
/// what the program holds.
pub proof fn lemma_operated_appends(
    lhs: Type,
    operator: Operator,
    rhs: Type,
    destination: Type,
    before: Output,
)
    ensures
        lhs.operated(operator, rhs, destination, before) matches Ok(output)
            ==> before.memory.is_prefix_of(output.memory),
{
}

/// Applying a prefix operator adds to the program, and changes nothing of
/// what the program holds.
pub proof fn lemma_operated_prefix_appends(
    lhs: Type,
    operator: Operator,
    destination: Type,
    before: Output,
)
    ensures
        lhs.operated_prefix(operator, destination, before) matches Ok(output)
            ==> before.memory.is_prefix_of(output.memory),
{
}

/// Operator dispatch is stable: the tables hold at most one entry for an
/// operator and the type of a right operand, and applying the operator goes
/// by the first such entry. Where there is none, applying fails; where
/// there is one, its result type is the first of the result types of the
/// table, and applying fails unless the destination has this type.
pub proof fn lemma_dispatch_by_first_entry(
    lhs: Type,
    operator: Operator,
    rhs: Type,
    destination: Type,
    before: Output,
)
    ensures
        Type::operation_result_types(lhs.type_symbol(), operator, rhs.type_symbol()).len() <= 1,
        Type::operation_result_types(lhs.type_symbol(), operator, rhs.type_symbol()).len() == 0
            ==> lhs.operated(operator, rhs, destination, before) == Err::<Output, Seq<char>>(
            operator_not_supported_message(operator, lhs.type_symbol(), Some(rhs.type_symbol())),
        ),
        Type::operation_result_types(lhs.type_symbol(), operator, rhs.type_symbol()).len() == 1
            && destination.type_symbol() != Type::operation_result_types(
            lhs.type_symbol(),
            operator,
            rhs.type_symbol(),
        )[0] ==> lhs.operated(operator, rhs, destination, before) == Err::<Output, Seq<char>>(
            incorrect_type_message(
                seq![destination.type_symbol()],
                seq![
                    Type::operation_result_types(
                        lhs.type_symbol(),
                        operator,
                        rhs.type_symbol(),
                    )[0],
                ],
            ),
        ),
        Type::operation_result_types(lhs.type_symbol(), operator, rhs.type_symbol()).len() == 1
            && destination.type_symbol() == Type::operation_result_types(
            lhs.type_symbol(),
            operator,
            rhs.type_symbol(),
        )[0] ==> lhs.operated(operator, rhs, destination, before) is Ok || lhs.operated(
            operator,
            rhs,
            destination,
            before,
        ) == Err::<Output, Seq<char>>(frame_full_message()),
{
}

/// The same for prefix operators: at most one entry of a table implements
/// an operator, and applying the operator goes by it.
pub proof fn lemma_prefix_dispatch_by_first_entry(
    lhs: Type,
    operator: Operator,
    destination: Type,
    before: Output,
)
    ensures
        Type::prefix_operation_result_types(lhs.type_symbol(), operator).len() <= 1,
        Type::prefix_operation_result_types(lhs.type_symbol(), operator).len() == 0
            ==> lhs.operated_prefix(operator, destination, before) == Err::<Output, Seq<char>>(
            operator_not_supported_message(operator, lhs.type_symbol(), None),
        ),
        Type::prefix_operation_result_types(lhs.type_symbol(), operator).len() == 1
            && destination.type_symbol() != Type::prefix_operation_result_types(
            lhs.type_symbol(),
            operator,
        )[0] ==> lhs.operated_prefix(operator, destination, before) == Err::<Output, Seq<char>>(
            incorrect_type_message(
                seq![destination.type_symbol()],
                seq![Type::prefix_operation_result_types(lhs.type_symbol(), operator)[0]],
            ),
        ),
        Type::prefix_operation_result_types(lhs.type_symbol(), operator).len() == 1
            && destination.type_symbol() == Type::prefix_operation_result_types(
            lhs.type_symbol(),
            operator,
        )[0] ==> lhs.operated_prefix(operator, destination, before) is Ok,
{
}

impl Default for TypeFactory {
    fn default() -> (factory: Self) {
        TypeFactory::get()
    }
}

} // verus!
