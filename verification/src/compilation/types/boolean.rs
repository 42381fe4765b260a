//! The boolean type: one byte, all bits set for true and none for false.
use vstd::prelude::*;
use crate::compilation::blocks::{produced, Output, StackSizes};
use crate::compilation::instructions::{
    BinaryAndInstruction, BinaryNotInstruction, BinaryOrInstruction,
};
use crate::compilation::types::{
    apply_operation, apply_prefix_operation, create_literal_not_impl_error, entry_operated,
    entry_result, literal_not_implemented_message, operator_not_supported_error,
    operator_not_supported_message, prefix_entry_operated, prefix_entry_result, Operation,
    PrefixOperation, Type,
};
use crate::lexical_parsing::symbols::{Literal, Operator, TypeSymbol};
use crate::memory::address::Address;
use crate::memory::memory_manager::MemoryManager;

verus! {

pub const BOOL_TRUE: u8 = 0xFF;

pub const BOOL_FALSE: u8 = 0x00;

/// Number of bytes of a boolean.
pub const BOOLEAN_SIZE: usize = 1;

/// A boolean value and the cell that it occupies once it has one.
#[derive(Debug)]
pub struct BoolType {
    pub address: Option<Address>,
}

impl BoolType {
    /// A boolean without a cell.
    pub fn new() -> (value: Self)
        ensures
            value.address is None,
    {
        BoolType { address: None }
    }

    /// The constant that a literal stands for as a boolean: a boolean
    /// literal itself, and an integer literal as whether it differs from 0.
    pub open spec fn constant_of(literal: Literal) -> Result<Seq<u8>, Seq<char>> {
        match literal {
            Literal::Bool(value) => Ok(
                seq![
                    if value {
                        BOOL_TRUE
                    } else {
                        BOOL_FALSE
                    },
                ],
            ),
            Literal::Int(value) => Ok(
                seq![
                    if value == 0 {
                        BOOL_FALSE
                    } else {
                        BOOL_TRUE
                    },
                ],
            ),
            other => Err(literal_not_implemented_message(other, TypeSymbol::Boolean)),
        }
    }

    /// The result types of the table of binary operators, which holds `&`
    /// and then `|`.
    pub open spec fn operation_result_types(operator: Operator, rhs: TypeSymbol) -> Seq<
        TypeSymbol,
    > {
        entry_result::<BoolType, BoolAnd>(BoolAnd {  }, operator, rhs) + entry_result::<
            BoolType,
            BoolOr,
        >(BoolOr {  }, operator, rhs)
    }

    /// The result types of the table of prefix operators, which holds `!`.
    pub open spec fn prefix_operation_result_types(operator: Operator) -> Seq<TypeSymbol> {
        prefix_entry_result::<BoolType, BoolNot>(BoolNot {  }, operator)
    }

    /// What applying a binary operator produces: what the first entry of the
    /// table that implements it for the right operand produces.
    pub open spec fn operated(self, operator: Operator, rhs: Type, destination: Type, before: Output)
        -> Result<Output, Seq<char>> {
        if entry_result::<BoolType, BoolAnd>(BoolAnd {  }, operator, rhs.type_symbol()).len() > 0 {
            entry_operated(BoolAnd {  }, &self, &rhs, &destination, before)
        } else if entry_result::<BoolType, BoolOr>(BoolOr {  }, operator, rhs.type_symbol()).len()
            > 0 {
            entry_operated(BoolOr {  }, &self, &rhs, &destination, before)
        } else {
            Err(
                operator_not_supported_message(
                    operator,
                    TypeSymbol::Boolean,
                    Some(rhs.type_symbol()),
                ),
            )
        }
    }

    /// What applying a prefix operator produces: what the first entry of the
    /// table that implements it produces.
    pub open spec fn operated_prefix(self, operator: Operator, destination: Type, before: Output)
        -> Result<Output, Seq<char>> {
        if prefix_entry_result::<BoolType, BoolNot>(BoolNot {  }, operator).len() > 0 {
            prefix_entry_operated(BoolNot {  }, &self, &destination, before)
        } else {
            Err(operator_not_supported_message(operator, TypeSymbol::Boolean, None))
        }
    }

    /// The cell of the value.
    pub fn get_address(&self) -> (address: &Address)
        requires
            self.address is Some,
        ensures
            *address == self.address->0,
    {
        self.address.as_ref().unwrap()
    }

    /// The number of bytes of the value.
    pub fn get_length(&self) -> (length: usize)
        ensures
            length == BOOLEAN_SIZE,
    {
        BOOLEAN_SIZE
    }

    /// The immediate address of the constant that a literal stands for.
    pub fn get_constant(&self, literal: &Literal) -> (constant: Result<Address, String>)
        ensures
            match BoolType::constant_of(*literal) {
                Ok(value) => constant is Ok && constant->Ok_0 is Immediate
                    && constant->Ok_0.payload() == value,
                Err(message) => constant is Err && constant->Err_0@ == message,
            },
    {
        match literal {
            Literal::Bool(value) => {
                let mut bytes: Vec<u8> = Vec::new();
                if *value {
                    bytes.push(BOOL_TRUE);
                } else {
                    bytes.push(BOOL_FALSE);
                }
                assert(bytes@ =~= BoolType::constant_of(*literal)->Ok_0);
                Ok(Address::Immediate(bytes))
            },
            Literal::Int(value) => {
                let mut bytes: Vec<u8> = Vec::new();
                if *value == 0 {
                    bytes.push(BOOL_FALSE);
                } else {
                    bytes.push(BOOL_TRUE);
                }
                assert(bytes@ =~= BoolType::constant_of(*literal)->Ok_0);
                Ok(Address::Immediate(bytes))
            },
            other => Err(create_literal_not_impl_error(other, TypeSymbol::Boolean)),
        }
    }

    /// The result types that the table of binary operators holds.
    pub fn get_operation_result_type(&self, operator: &Operator, rhs: &TypeSymbol) -> (results:
        Vec<TypeSymbol>)
        ensures
            results@ == BoolType::operation_result_types(*operator, *rhs),
    {
        let mut results: Vec<TypeSymbol> = Vec::new();
        let and = BoolAnd {  };
        if and.get_symbol() == *operator {
            if let Some(result) = and.get_result_type(rhs) {
                results.push(result);
            }
        }
        let or = BoolOr {  };
        if or.get_symbol() == *operator {
            if let Some(result) = or.get_result_type(rhs) {
                results.push(result);
            }
        }
        assert(results@ =~= BoolType::operation_result_types(*operator, *rhs));
        results
    }

    /// The result types that the table of prefix operators holds.
    pub fn get_prefix_operation_result_type(&self, operator: &Operator) -> (results: Vec<
        TypeSymbol,
    >)
        ensures
            results@ == BoolType::prefix_operation_result_types(*operator),
    {
        let mut results: Vec<TypeSymbol> = Vec::new();
        let not = BoolNot {  };
        if not.get_symbol() == *operator {
            if let Some(result) = not.get_result_type() {
                results.push(result);
            }
        }
        assert(results@ =~= BoolType::prefix_operation_result_types(*operator));
        results
    }

    /// Emits the instructions of a binary operator.
    pub fn operate(
        &self,
        operator: &Operator,
        rhs: &Type,
        destination: &Type,
        program_memory: &mut MemoryManager,
        stack_sizes: &mut StackSizes,
    ) -> (result: Result<(), String>)
        requires
            self.address is Some,
            !(self.address->0 is Immediate),
            rhs.is_allocated(),
            destination.is_allocated(),
        ensures
            old(program_memory)@.len() <= final(program_memory)@.len(),
            final(stack_sizes)@.len() == old(stack_sizes)@.len(),
            produced(result, final(program_memory)@, final(stack_sizes)@) == self.operated(
                *operator,
                *rhs,
                *destination,
                Output { memory: old(program_memory)@, stack_sizes: old(stack_sizes)@ },
            ),
            result is Err ==> final(program_memory)@ == old(program_memory)@ && final(stack_sizes)@
                == old(stack_sizes)@,
    {
        let rhs_type = rhs.get_type_symbol();
        let and = BoolAnd {  };
        if and.get_symbol() == *operator && and.get_result_type(&rhs_type).is_some() {
            return apply_operation(&and, self, rhs, destination, program_memory, stack_sizes);
        }
        let or = BoolOr {  };
        if or.get_symbol() == *operator && or.get_result_type(&rhs_type).is_some() {
            return apply_operation(&or, self, rhs, destination, program_memory, stack_sizes);
        }
        Err(operator_not_supported_error(operator, TypeSymbol::Boolean, Some(rhs_type)))
    }

    /// Emits the instructions of a prefix operator.
    pub fn operate_prefix(
        &self,
        operator: &Operator,
        destination: &Type,
        program_memory: &mut MemoryManager,
        stack_sizes: &mut StackSizes,
    ) -> (result: Result<(), String>)
        requires
            self.address is Some,
            !(self.address->0 is Immediate),
            destination.is_allocated(),
        ensures
            old(program_memory)@.len() <= final(program_memory)@.len(),
            final(stack_sizes)@.len() == old(stack_sizes)@.len(),
            produced(result, final(program_memory)@, final(stack_sizes)@) == self.operated_prefix(
                *operator,
                *destination,
                Output { memory: old(program_memory)@, stack_sizes: old(stack_sizes)@ },
            ),
            result is Err ==> final(program_memory)@ == old(program_memory)@ && final(stack_sizes)@
                == old(stack_sizes)@,
    {
        let not = BoolNot {  };
        if not.get_symbol() == *operator && not.get_result_type().is_some() {
            return apply_prefix_operation(&not, self, destination, program_memory, stack_sizes);
        }
        Err(operator_not_supported_error(operator, TypeSymbol::Boolean, None))
    }

    /// A copy of the value: a boolean in the same cell.
    pub fn duplicate_known(&self) -> (copy: BoolType)
        ensures
            copy.address is Some == self.address is Some,
            self.address is Some ==> copy.address->0.bytes() == self.address->0.bytes(),
            !(self.address is Some && self.address->0 is Immediate) ==> copy == *self,
    {
        match &self.address {
            Some(address) => BoolType { address: Some(address.duplicate()) },
            None => BoolType { address: None },
        }
    }
}

/// True where a boolean and the two values it works with have cells.
pub open spec fn boolean_operands_ready(lhs: &BoolType, rhs: &Type, destination: &Type) -> bool {
    lhs.address is Some && rhs.address() is Some && destination.is_allocated()
}

/// `&` on two booleans.
pub struct BoolAnd {}

impl Operation<BoolType> for BoolAnd {
    open spec fn symbol(&self) -> Operator {
        Operator::And
    }

    open spec fn result_type(&self, rhs: TypeSymbol) -> Option<TypeSymbol> {
        match rhs {
            TypeSymbol::Boolean => Some(TypeSymbol::Boolean),
            _ => None,
        }
    }

    open spec fn operands_ready(&self, lhs: &BoolType, rhs: &Type, destination: &Type) -> bool {
        boolean_operands_ready(lhs, rhs, destination)
    }

    open spec fn operated(&self, lhs: &BoolType, rhs: &Type, destination: &Type, before: Output)
        -> Result<Output, Seq<char>> {
        Ok(
            Output {
                memory: before.memory + BinaryAndInstruction::bytes(
                    lhs.address->0,
                    rhs.address()->0,
                    destination.address()->0,
                    BOOLEAN_SIZE,
                ),
                stack_sizes: before.stack_sizes,
            },
        )
    }

    fn get_symbol(&self) -> (symbol: Operator) {
        Operator::And
    }

    fn get_result_type(&self, rhs: &TypeSymbol) -> (result: Option<TypeSymbol>) {
        match rhs {
            TypeSymbol::Boolean => Some(TypeSymbol::Boolean),
            _ => None,
        }
    }

    fn operate(
        &self,
        lhs: &BoolType,
        rhs: &Type,
        destination: &Type,
        program_memory: &mut MemoryManager,
        _stack_sizes: &mut StackSizes,
    ) -> (result: Result<(), String>) {
        BinaryAndInstruction::new_alloc(
            program_memory,
            lhs.get_address(),
            rhs.get_address(),
            destination.get_address(),
            lhs.get_length(),
        );
        Ok(())
    }
}

/// `|` on two booleans.
pub struct BoolOr {}

impl Operation<BoolType> for BoolOr {
    open spec fn symbol(&self) -> Operator {
        Operator::Or
    }

    open spec fn result_type(&self, rhs: TypeSymbol) -> Option<TypeSymbol> {
        match rhs {
            TypeSymbol::Boolean => Some(TypeSymbol::Boolean),
            _ => None,
        }
    }

    open spec fn operands_ready(&self, lhs: &BoolType, rhs: &Type, destination: &Type) -> bool {
        boolean_operands_ready(lhs, rhs, destination)
    }

    open spec fn operated(&self, lhs: &BoolType, rhs: &Type, destination: &Type, before: Output)
        -> Result<Output, Seq<char>> {
        Ok(
            Output {
                memory: before.memory + BinaryOrInstruction::bytes(
                    lhs.address->0,
                    rhs.address()->0,
                    destination.address()->0,
                    BOOLEAN_SIZE,
                ),
                stack_sizes: before.stack_sizes,
            },
        )
    }

    fn get_symbol(&self) -> (symbol: Operator) {
        Operator::Or
    }

    fn get_result_type(&self, rhs: &TypeSymbol) -> (result: Option<TypeSymbol>) {
        match rhs {
            TypeSymbol::Boolean => Some(TypeSymbol::Boolean),
            _ => None,
        }
    }

    fn operate(
        &self,
        lhs: &BoolType,
        rhs: &Type,
        destination: &Type,
        program_memory: &mut MemoryManager,
        _stack_sizes: &mut StackSizes,
    ) -> (result: Result<(), String>) {
        BinaryOrInstruction::new_alloc(
            program_memory,
            lhs.get_address(),
            rhs.get_address(),
            destination.get_address(),
            lhs.get_length(),
        );
        Ok(())
    }
}

/// `!` on a boolean.
pub struct BoolNot {}

impl PrefixOperation<BoolType> for BoolNot {
    open spec fn symbol(&self) -> Operator {
        Operator::Not
    }

    open spec fn result_type(&self) -> Option<TypeSymbol> {
        Some(TypeSymbol::Boolean)
    }

    open spec fn operands_ready(&self, lhs: &BoolType, destination: &Type) -> bool {
        lhs.address is Some && destination.is_allocated()
    }

    open spec fn operated(&self, lhs: &BoolType, destination: &Type, before: Output) -> Result<
        Output,
        Seq<char>,
    > {
        Ok(
            Output {
                memory: before.memory + BinaryNotInstruction::bytes(
                    lhs.address->0,
                    destination.address()->0,
                    BOOLEAN_SIZE,
                ),
                stack_sizes: before.stack_sizes,
            },
        )
    }

    fn get_symbol(&self) -> (symbol: Operator) {
        Operator::Not
    }

    fn get_result_type(&self) -> (result: Option<TypeSymbol>) {
        Some(TypeSymbol::Boolean)
    }

    fn operate_prefix(
        &self,
        lhs: &BoolType,
        destination: &Type,
        program_memory: &mut MemoryManager,
        _stack_sizes: &mut StackSizes,
    ) -> (result: Result<(), String>) {
        BinaryNotInstruction::new_alloc(
            program_memory,
            lhs.get_address(),
            destination.get_address(),
            lhs.get_length(),
        );
        Ok(())
    }
}

impl Default for BoolType {
    fn default() -> (value: Self)
        ensures
            value.address is None,
    {
        BoolType::new()
    }
}

} // verus!
