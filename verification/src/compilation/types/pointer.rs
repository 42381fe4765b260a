//! The pointer type: one machine word.
use vstd::prelude::*;
use crate::compilation::blocks::{frame_has_room, grown, produced, Output, StackSizes};
use crate::compilation::instructions::{
    binary_written, immediate_written, AddInstruction, BinaryNotInstruction, EqualityInstruction,
    NotEqualInstruction, ADD_CODE,
};
use crate::compilation::types::{
    apply_operation, create_literal_not_impl_error, entry_operated, entry_result,
    frame_full_message, literal_not_implemented_message, operator_not_supported_error,
    operator_not_supported_message, Operation, Type,
};
use crate::lexical_parsing::symbols::{Literal, Operator, TypeSymbol};
use crate::memory::address::Address;
use crate::memory::memory_manager::MemoryManager;
use crate::util::{
    decimal_text, int_to_decimal, usize_bytes, usize_to_bytes, usize_to_decimal, USIZE_BYTES,
};

verus! {

/// A pointer value and the cell that it occupies once it has one.
#[derive(Debug)]
pub struct PointerType {
    pub address: Option<Address>,
}

/// The message for an integer literal that is no pointer.
pub open spec fn pointer_range_message(value: i128) -> Seq<char> {
    "The value ("@ + decimal_text(value as int) + ") can't fit into a "@
        + TypeSymbol::Pointer.name()
        + " (the value must be greater than zero and fit within your platform pointer width ["@
        + decimal_text(USIZE_BYTES as int) + " bytes])"@
}

impl PointerType {
    /// A pointer without a cell.
    pub fn new() -> (value: Self)
        ensures
            value.address is None,
    {
        PointerType { address: None }
    }

    /// The constant that a literal stands for as a pointer: an integer
    /// literal that is not negative and fits a machine word.
    pub open spec fn constant_of(literal: Literal) -> Result<Seq<u8>, Seq<char>> {
        match literal {
            Literal::Int(value) => if 0 <= value <= usize::MAX {
                Ok(usize_bytes(value as usize))
            } else {
                Err(pointer_range_message(value))
            },
            other => Err(literal_not_implemented_message(other, TypeSymbol::Pointer)),
        }
    }

    /// The result types of the table of binary operators, which holds `+`,
    /// `-`, `==` and `!=` in this order.
    pub open spec fn operation_result_types(operator: Operator, rhs: TypeSymbol) -> Seq<
        TypeSymbol,
    > {
        entry_result::<PointerType, Add>(Add {  }, operator, rhs) + entry_result::<
            PointerType,
            Subtract,
        >(Subtract {  }, operator, rhs) + entry_result::<PointerType, Equal>(
            Equal {  },
            operator,
            rhs,
        ) + entry_result::<PointerType, NotEqual>(NotEqual {  }, operator, rhs)
    }

    /// The result types of the table of prefix operators, which is empty.
    pub open spec fn prefix_operation_result_types(operator: Operator) -> Seq<TypeSymbol> {
        Seq::empty()
    }

    /// What applying a binary operator produces: what the first entry of the
    /// table that implements it for the right operand produces.
    pub open spec fn operated(self, operator: Operator, rhs: Type, destination: Type, before: Output)
        -> Result<Output, Seq<char>> {
        if entry_result::<PointerType, Add>(Add {  }, operator, rhs.type_symbol()).len() > 0 {
            entry_operated(Add {  }, &self, &rhs, &destination, before)
        } else if entry_result::<PointerType, Subtract>(
            Subtract {  },
            operator,
            rhs.type_symbol(),
        ).len() > 0 {
            entry_operated(Subtract {  }, &self, &rhs, &destination, before)
        } else if entry_result::<PointerType, Equal>(Equal {  }, operator, rhs.type_symbol()).len()
            > 0 {
            entry_operated(Equal {  }, &self, &rhs, &destination, before)
        } else if entry_result::<PointerType, NotEqual>(
            NotEqual {  },
            operator,
            rhs.type_symbol(),
        ).len() > 0 {
            entry_operated(NotEqual {  }, &self, &rhs, &destination, before)
        } else {
            Err(
                operator_not_supported_message(
                    operator,
                    TypeSymbol::Pointer,
                    Some(rhs.type_symbol()),
                ),
            )
        }
    }

    /// What applying a prefix operator produces: a failure, since pointers
    /// have none.
    pub open spec fn operated_prefix(self, operator: Operator, destination: Type, before: Output)
        -> Result<Output, Seq<char>> {
        Err(operator_not_supported_message(operator, TypeSymbol::Pointer, None))
    }

    /// The cell of the value.
    pub fn get_address(&self) -> (address: &Address)
        requires
            self.address is Some,
        ensures
            *address == self.address->0,
    {
        self.address.as_ref().unwrap()
    }

    /// The number of bytes of the value.
    pub fn get_length(&self) -> (length: usize)
        ensures
            length == USIZE_BYTES,
    {
        USIZE_BYTES
    }

    /// The immediate address of the constant that a literal stands for.
    pub fn get_constant(&self, literal: &Literal) -> (constant: Result<Address, String>)
        ensures
            match PointerType::constant_of(*literal) {
                Ok(value) => constant is Ok && constant->Ok_0 is Immediate
                    && constant->Ok_0.payload() == value,
                Err(message) => constant is Err && constant->Err_0@ == message,
            },
    {
        match literal {
            Literal::Int(value) => {
                if *value >= 0 && *value <= usize::MAX as i128 {
                    Ok(Address::Immediate(usize_to_bytes(*value as usize)))
                } else {
                    let mut message = String::from_str("The value (");
                    message.append(int_to_decimal(*value).as_str());
                    message.append(") can't fit into a ");
                    message.append(TypeSymbol::Pointer.get_name());
                    message.append(
                        " (the value must be greater than zero and fit within your platform pointer width [",
                    );
                    message.append(usize_to_decimal(USIZE_BYTES).as_str());
                    message.append(" bytes])");
                    Err(message)
                }
            },
            other => Err(create_literal_not_impl_error(other, TypeSymbol::Pointer)),
        }
    }

    /// The result types that the table of binary operators holds.
    pub fn get_operation_result_type(&self, operator: &Operator, rhs: &TypeSymbol) -> (results:
        Vec<TypeSymbol>)
        ensures
            results@ == PointerType::operation_result_types(*operator, *rhs),
    {
        let mut results: Vec<TypeSymbol> = Vec::new();
        let add = Add {  };
        if add.get_symbol() == *operator {
            if let Some(result) = add.get_result_type(rhs) {
                results.push(result);
            }
        }
        let subtract = Subtract {  };
        if subtract.get_symbol() == *operator {
            if let Some(result) = subtract.get_result_type(rhs) {
                results.push(result);
            }
        }
        let equal = Equal {  };
        if equal.get_symbol() == *operator {
            if let Some(result) = equal.get_result_type(rhs) {
                results.push(result);
            }
        }
        let not_equal = NotEqual {  };
        if not_equal.get_symbol() == *operator {
            if let Some(result) = not_equal.get_result_type(rhs) {
                results.push(result);
            }
        }
        assert(results@ =~= PointerType::operation_result_types(*operator, *rhs));
        results
    }

    /// The result types that the table of prefix operators holds: none.
    pub fn get_prefix_operation_result_type(&self, operator: &Operator) -> (results: Vec<
        TypeSymbol,
    >)
        ensures
            results@ == PointerType::prefix_operation_result_types(*operator),
    {
        Vec::new()
    }

    /// Emits the instructions of a binary operator.
    pub fn operate(
        &self,
        operator: &Operator,
        rhs: &Type,
        destination: &Type,
        program_memory: &mut MemoryManager,
        stack_sizes: &mut StackSizes,
    ) -> (result: Result<(), String>)
        requires
            self.address is Some,
            !(self.address->0 is Immediate),
            rhs.is_allocated(),
            destination.is_allocated(),
        ensures
            old(program_memory)@.len() <= final(program_memory)@.len(),
            final(stack_sizes)@.len() == old(stack_sizes)@.len(),
            produced(result, final(program_memory)@, final(stack_sizes)@) == self.operated(
                *operator,
                *rhs,
                *destination,
                Output { memory: old(program_memory)@, stack_sizes: old(stack_sizes)@ },
            ),
            result is Err ==> final(program_memory)@ == old(program_memory)@ && final(stack_sizes)@
                == old(stack_sizes)@,
    {
        let rhs_type = rhs.get_type_symbol();
        let add = Add {  };
        if add.get_symbol() == *operator && add.get_result_type(&rhs_type).is_some() {
            return apply_operation(&add, self, rhs, destination, program_memory, stack_sizes);
        }
        let subtract = Subtract {  };
        if subtract.get_symbol() == *operator && subtract.get_result_type(&rhs_type).is_some() {
            return apply_operation(&subtract, self, rhs, destination, program_memory, stack_sizes);
        }
        let equal = Equal {  };
        if equal.get_symbol() == *operator && equal.get_result_type(&rhs_type).is_some() {
            return apply_operation(&equal, self, rhs, destination, program_memory, stack_sizes);
        }
        let not_equal = NotEqual {  };
        if not_equal.get_symbol() == *operator && not_equal.get_result_type(&rhs_type).is_some() {
            return apply_operation(
                &not_equal,
                self,
                rhs,
                destination,
                program_memory,
                stack_sizes,
            );
        }
        Err(operator_not_supported_error(operator, TypeSymbol::Pointer, Some(rhs_type)))
    }

    /// Emits the instructions of a prefix operator: fails, since pointers
    /// have none.
    pub fn operate_prefix(
        &self,
        operator: &Operator,
        destination: &Type,
        program_memory: &mut MemoryManager,
        stack_sizes: &mut StackSizes,
    ) -> (result: Result<(), String>)
        ensures
            old(program_memory)@.len() <= final(program_memory)@.len(),
            final(stack_sizes)@.len() == old(stack_sizes)@.len(),
            produced(result, final(program_memory)@, final(stack_sizes)@) == self.operated_prefix(
                *operator,
                *destination,
                Output { memory: old(program_memory)@, stack_sizes: old(stack_sizes)@ },
            ),
            result is Err ==> final(program_memory)@ == old(program_memory)@ && final(stack_sizes)@
                == old(stack_sizes)@,
    {
        Err(operator_not_supported_error(operator, TypeSymbol::Pointer, None))
    }

    /// A copy of the value: a pointer in the same cell.
    pub fn duplicate_known(&self) -> (copy: PointerType)
        ensures
            copy.address is Some == self.address is Some,
            self.address is Some ==> copy.address->0.bytes() == self.address->0.bytes(),
            !(self.address is Some && self.address->0 is Immediate) ==> copy == *self,
    {
        match &self.address {
            Some(address) => PointerType { address: Some(address.duplicate()) },
            None => PointerType { address: None },
        }
    }
}

/// True where a pointer and the two values it works with have cells.
pub open spec fn pointer_operands_ready(lhs: &PointerType, rhs: &Type, destination: &Type)
    -> bool {
    lhs.address is Some && rhs.address() is Some && destination.is_allocated()
}

/// The result type of an entry that takes a pointer on the right.
pub open spec fn for_pointer(rhs: TypeSymbol, result: TypeSymbol) -> Option<TypeSymbol> {
    match rhs {
        TypeSymbol::Pointer => Some(result),
        _ => None,
    }
}

/// `+` on two pointers: their sum, wrapping at the width of a machine word.
pub struct Add {}

impl Operation<PointerType> for Add {
    open spec fn symbol(&self) -> Operator {
        Operator::Add
    }

    open spec fn result_type(&self, rhs: TypeSymbol) -> Option<TypeSymbol> {
        for_pointer(rhs, TypeSymbol::Pointer)
    }

    open spec fn operands_ready(&self, lhs: &PointerType, rhs: &Type, destination: &Type) -> bool {
        pointer_operands_ready(lhs, rhs, destination)
    }

    open spec fn operated(
        &self,
        lhs: &PointerType,
        rhs: &Type,
        destination: &Type,
        before: Output,
    ) -> Result<Output, Seq<char>> {
        Ok(
            Output {
                memory: before.memory + AddInstruction::bytes(
                    lhs.address->0,
                    rhs.address()->0,
                    destination.address()->0,
                    USIZE_BYTES,
                ),
                stack_sizes: before.stack_sizes,
            },
        )
    }

    fn get_symbol(&self) -> (symbol: Operator) {
        Operator::Add
    }

    fn get_result_type(&self, rhs: &TypeSymbol) -> (result: Option<TypeSymbol>) {
        match rhs {
            TypeSymbol::Pointer => Some(TypeSymbol::Pointer),
            _ => None,
        }
    }

    fn operate(
        &self,
        lhs: &PointerType,
        rhs: &Type,
        destination: &Type,
        program_memory: &mut MemoryManager,
        _stack_sizes: &mut StackSizes,
    ) -> (result: Result<(), String>) {
        AddInstruction::new_alloc(
            program_memory,
            lhs.get_address(),
            rhs.get_address(),
            destination.get_address(),
            lhs.get_length(),
        );
        Ok(())
    }
}

/// `-` on two pointers, as the sum of the left operand and the two's
/// complement of the right one: the complement is built in a temporary cell
/// of the innermost frame, by inverting the right operand and adding one.
pub struct Subtract {}

impl Operation<PointerType> for Subtract {
    open spec fn symbol(&self) -> Operator {
        Operator::Subtract
    }

    open spec fn result_type(&self, rhs: TypeSymbol) -> Option<TypeSymbol> {
        for_pointer(rhs, TypeSymbol::Pointer)
    }

    open spec fn operands_ready(&self, lhs: &PointerType, rhs: &Type, destination: &Type) -> bool {
        pointer_operands_ready(lhs, rhs, destination)
    }

    open spec fn operated(
        &self,
        lhs: &PointerType,
        rhs: &Type,
        destination: &Type,
        before: Output,
    ) -> Result<Output, Seq<char>> {
        if !frame_has_room(before.stack_sizes, USIZE_BYTES) {
            Err(frame_full_message())
        } else {
            let complement = Address::StackDirect(before.stack_sizes.last());
            Ok(
                Output {
                    memory: before.memory + BinaryNotInstruction::bytes(
                        rhs.address()->0,
                        complement,
                        USIZE_BYTES,
                    ) + binary_written(
                        ADD_CODE,
                        complement.bytes(),
                        immediate_written(usize_bytes(1)),
                        complement.bytes(),
                        USIZE_BYTES,
                    ) + AddInstruction::bytes(
                        lhs.address->0,
                        complement,
                        destination.address()->0,
                        USIZE_BYTES,
                    ),
                    stack_sizes: grown(before.stack_sizes, USIZE_BYTES),
                },
            )
        }
    }

    fn get_symbol(&self) -> (symbol: Operator) {
        Operator::Subtract
    }

    fn get_result_type(&self, rhs: &TypeSymbol) -> (result: Option<TypeSymbol>) {
        match rhs {
            TypeSymbol::Pointer => Some(TypeSymbol::Pointer),
            _ => None,
        }
    }

    fn operate(
        &self,
        lhs: &PointerType,
        rhs: &Type,
        destination: &Type,
        program_memory: &mut MemoryManager,
        stack_sizes: &mut StackSizes,
    ) -> (result: Result<(), String>) {
        if !stack_sizes.has_room(USIZE_BYTES) {
            return Err(String::from_str("The stack frame cannot hold another variable"));
        }
        let complement = Address::StackDirect(stack_sizes.increment_stack_size(USIZE_BYTES));
        BinaryNotInstruction::new_alloc(program_memory, rhs.get_address(), &complement, USIZE_BYTES);
        let one = Address::Immediate(usize_to_bytes(1));
        assert(one.bytes() =~= immediate_written(usize_bytes(1)));
        AddInstruction::new_alloc(program_memory, &complement, &one, &complement, USIZE_BYTES);
        AddInstruction::new_alloc(
            program_memory,
            lhs.get_address(),
            &complement,
            destination.get_address(),
            lhs.get_length(),
        );
        Ok(())
    }
}

/// `==` on two pointers: a boolean.
pub struct Equal {}

impl Operation<PointerType> for Equal {
    open spec fn symbol(&self) -> Operator {
        Operator::Equal
    }

    open spec fn result_type(&self, rhs: TypeSymbol) -> Option<TypeSymbol> {
        for_pointer(rhs, TypeSymbol::Boolean)
    }

    open spec fn operands_ready(&self, lhs: &PointerType, rhs: &Type, destination: &Type) -> bool {
        pointer_operands_ready(lhs, rhs, destination)
    }

    open spec fn operated(
        &self,
        lhs: &PointerType,
        rhs: &Type,
        destination: &Type,
        before: Output,
    ) -> Result<Output, Seq<char>> {
        Ok(
            Output {
                memory: before.memory + EqualityInstruction::bytes(
                    lhs.address->0,
                    rhs.address()->0,
                    destination.address()->0,
                    USIZE_BYTES,
                ),
                stack_sizes: before.stack_sizes,
            },
        )
    }

    fn get_symbol(&self) -> (symbol: Operator) {
        Operator::Equal
    }

    fn get_result_type(&self, rhs: &TypeSymbol) -> (result: Option<TypeSymbol>) {
        match rhs {
            TypeSymbol::Pointer => Some(TypeSymbol::Boolean),
            _ => None,
        }
    }

    fn operate(
        &self,
        lhs: &PointerType,
        rhs: &Type,
        destination: &Type,
        program_memory: &mut MemoryManager,
        _stack_sizes: &mut StackSizes,
    ) -> (result: Result<(), String>) {
        EqualityInstruction::new_alloc(
            program_memory,
            lhs.get_address(),
            rhs.get_address(),
            destination.get_address(),
            lhs.get_length(),
        );
        Ok(())
    }
}

/// `!=` on two pointers: a boolean.
pub struct NotEqual {}

impl Operation<PointerType> for NotEqual {
    open spec fn symbol(&self) -> Operator {
        Operator::NotEqual
    }

    open spec fn result_type(&self, rhs: TypeSymbol) -> Option<TypeSymbol> {
        for_pointer(rhs, TypeSymbol::Boolean)
    }

    open spec fn operands_ready(&self, lhs: &PointerType, rhs: &Type, destination: &Type) -> bool {
        pointer_operands_ready(lhs, rhs, destination)
    }

    open spec fn operated(
        &self,
        lhs: &PointerType,
        rhs: &Type,
        destination: &Type,
        before: Output,
    ) -> Result<Output, Seq<char>> {
        Ok(
            Output {
                memory: before.memory + NotEqualInstruction::bytes(
                    lhs.address->0,
                    rhs.address()->0,
                    destination.address()->0,
                    USIZE_BYTES,
                ),
                stack_sizes: before.stack_sizes,
            },
        )
    }

    fn get_symbol(&self) -> (symbol: Operator) {
        Operator::NotEqual
    }

    fn get_result_type(&self, rhs: &TypeSymbol) -> (result: Option<TypeSymbol>) {
        match rhs {
            TypeSymbol::Pointer => Some(TypeSymbol::Boolean),
            _ => None,
        }
    }

    fn operate(
        &self,
        lhs: &PointerType,
        rhs: &Type,
        destination: &Type,
        program_memory: &mut MemoryManager,
        _stack_sizes: &mut StackSizes,
    ) -> (result: Result<(), String>) {
        NotEqualInstruction::new_alloc(
            program_memory,
            lhs.get_address(),
            rhs.get_address(),
            destination.get_address(),
            lhs.get_length(),
        );
        Ok(())
    }
}

impl Default for PointerType {
    fn default() -> (value: Self)
        ensures
            value.address is None,
    {
        PointerType::new()
    }
}

} // verus!
