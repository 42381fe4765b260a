use why_compiler::compilation::blocks::StackSizes;
use why_compiler::compilation::types::boolean::BoolType;
use why_compiler::compilation::types::pointer::PointerType;
use why_compiler::compilation::types::{incorrect_type_error, Type, TypeFactory};
use why_compiler::lexical_parsing::symbols::{Literal, Operator, TypeSymbol};
use why_compiler::memory::address::Address;
use why_compiler::memory::MemoryManager;
use why_compiler::util::USIZE_BYTES;

fn frame() -> StackSizes {
    let mut stack_sizes = StackSizes::new();
    stack_sizes.add_stack();
    stack_sizes
}

fn boolean_at(offset: usize) -> Type {
    Type::Boolean(BoolType { address: Some(Address::StackDirect(offset)) })
}

fn pointer_at(offset: usize) -> Type {
    Type::Pointer(PointerType { address: Some(Address::StackDirect(offset)) })
}

#[test]
fn boolean_constants() {
    let boolean = Type::Boolean(BoolType::new());
    assert_eq!(boolean.get_constant(&Literal::Bool(true)), Ok(Address::Immediate(vec![0xFF])));
    assert_eq!(boolean.get_constant(&Literal::Bool(false)), Ok(Address::Immediate(vec![0x00])));
    assert_eq!(boolean.get_constant(&Literal::Int(0)), Ok(Address::Immediate(vec![0x00])));
    assert_eq!(boolean.get_constant(&Literal::Int(-3)), Ok(Address::Immediate(vec![0xFF])));
    assert_eq!(
        boolean.get_constant(&Literal::NoneValue),
        Err("None literals cannot be used as Boolean".to_string())
    );
}

#[test]
fn pointer_constants() {
    let pointer = Type::Pointer(PointerType::new());
    assert_eq!(
        pointer.get_constant(&Literal::Int(258)),
        Ok(Address::Immediate(258usize.to_le_bytes().to_vec()))
    );
    assert_eq!(
        pointer.get_constant(&Literal::Int(-1)),
        Err(format!(
            "The value (-1) can't fit into a Pointer (the value must be greater than zero and fit within your platform pointer width [{} bytes])",
            USIZE_BYTES
        ))
    );
    assert!(pointer.get_constant(&Literal::Int(usize::MAX as i128 + 1)).is_err());
    assert_eq!(
        pointer.get_constant(&Literal::Bool(true)),
        Err("Bool literals cannot be used as Pointer".to_string())
    );
}

#[test]
fn variables_are_laid_out_one_after_another() {
    let mut memory = MemoryManager::new();
    let mut stack_sizes = frame();
    let mut first = TypeFactory::get_unallocated_type(&TypeSymbol::Boolean).unwrap();
    let mut second = TypeFactory::get_unallocated_type(&TypeSymbol::Pointer).unwrap();
    let mut third = TypeFactory::get_unallocated_type(&TypeSymbol::Boolean).unwrap();
    first.allocate_variable(&mut stack_sizes, &mut memory).unwrap();
    second.allocate_variable(&mut stack_sizes, &mut memory).unwrap();
    third.allocate_variable(&mut stack_sizes, &mut memory).unwrap();
    assert_eq!(first.get_address(), &Address::StackDirect(0));
    assert_eq!(second.get_address(), &Address::StackDirect(1));
    assert_eq!(third.get_address(), &Address::StackDirect(1 + USIZE_BYTES));
    assert_eq!(stack_sizes.get_stack_size(), 2 + USIZE_BYTES);
    assert_eq!(first.get_length(), 1);
    assert_eq!(second.get_length(), USIZE_BYTES);
    assert!(memory.memory.is_empty());
    assert_eq!(
        first.allocate_variable(&mut stack_sizes, &mut memory),
        Err("Boolean already has a memory address".to_string())
    );
}

#[test]
fn a_full_frame_refuses_variables() {
    let mut memory = MemoryManager::new();
    let mut stack_sizes = frame();
    stack_sizes.increment_stack_size(usize::MAX);
    let mut variable = TypeFactory::get_unallocated_type(&TypeSymbol::Boolean).unwrap();
    assert_eq!(
        variable.allocate_variable(&mut stack_sizes, &mut memory),
        Err("The stack frame cannot hold another variable".to_string())
    );
    let mut empty = StackSizes::new();
    assert_eq!(
        variable.allocate_variable(&mut empty, &mut memory),
        Err("The stack frame cannot hold another variable".to_string())
    );
}

#[test]
fn types_without_values_are_refused() {
    assert_eq!(
        TypeFactory::get_unallocated_type(&TypeSymbol::Integer).err(),
        Some("Type Integer cannot be instantiated".to_string())
    );
    assert_eq!(
        TypeFactory::get_unallocated_type(&TypeSymbol::Character).err(),
        Some("Type Character cannot be instantiated".to_string())
    );
}

#[test]
fn default_types_of_literals() {
    assert_eq!(
        TypeFactory::get_default_type_for_literal(&Literal::Bool(true), None),
        Ok(TypeSymbol::Boolean)
    );
    assert_eq!(
        TypeFactory::get_default_type_for_literal(&Literal::Int(1), None),
        Ok(TypeSymbol::Integer)
    );
    assert_eq!(
        TypeFactory::get_default_type_for_literal(&Literal::Int(1), Some(&TypeSymbol::Pointer)),
        Ok(TypeSymbol::Pointer)
    );
    assert_eq!(
        TypeFactory::get_default_type_for_literal(&Literal::Int(1), Some(&TypeSymbol::Boolean)),
        Ok(TypeSymbol::Integer)
    );
    assert_eq!(
        TypeFactory::get_default_type_for_literal(&Literal::Char('a'), None),
        Err("Char does not have a default type (use as syntax)".to_string())
    );
}

#[test]
fn copies_need_the_same_type() {
    let mut memory = MemoryManager::new();
    let instruction = boolean_at(1).runtime_copy_from(&boolean_at(0), &mut memory).unwrap();
    assert_eq!(instruction.address, 0);
    let mut expected = vec![3u8, 2];
    expected.extend(0usize.to_le_bytes());
    expected.push(2);
    expected.extend(1usize.to_le_bytes());
    expected.extend(1usize.to_le_bytes());
    assert_eq!(memory.memory, expected);
    assert_eq!(
        boolean_at(1).runtime_copy_from(&pointer_at(0), &mut memory).err(),
        Some("Copy not implemented from type 'Pointer' to 'Boolean'".to_string())
    );
    assert_eq!(memory.memory, expected);
}

#[test]
fn operator_tables_give_the_first_entry() {
    let symbols = [TypeSymbol::Integer, TypeSymbol::Boolean, TypeSymbol::Character, TypeSymbol::Pointer];
    let operators = [
        Operator::Add,
        Operator::Subtract,
        Operator::Product,
        Operator::Divide,
        Operator::Greater,
        Operator::Less,
        Operator::GreaterEqual,
        Operator::LessEqual,
        Operator::Equal,
        Operator::NotEqual,
        Operator::Or,
        Operator::And,
        Operator::Not,
        Operator::Cast(TypeSymbol::Boolean),
    ];
    for operator in operators {
        for rhs in symbols {
            let boolean = boolean_at(0).get_operation_result_type(&operator, &rhs);
            let expected = match (operator, rhs) {
                (Operator::And, TypeSymbol::Boolean) | (Operator::Or, TypeSymbol::Boolean) => {
                    vec![TypeSymbol::Boolean]
                }
                _ => vec![],
            };
            assert_eq!(boolean, expected);
            let pointer = pointer_at(0).get_operation_result_type(&operator, &rhs);
            let expected = match (operator, rhs) {
                (Operator::Add, TypeSymbol::Pointer) | (Operator::Subtract, TypeSymbol::Pointer) => {
                    vec![TypeSymbol::Pointer]
                }
                (Operator::Equal, TypeSymbol::Pointer) | (Operator::NotEqual, TypeSymbol::Pointer) => {
                    vec![TypeSymbol::Boolean]
                }
                _ => vec![],
            };
            assert_eq!(pointer, expected);
        }
        let prefix = boolean_at(0).get_prefix_operation_result_type(&operator);
        assert_eq!(prefix, if operator == Operator::Not { vec![TypeSymbol::Boolean] } else { vec![] });
        assert!(pointer_at(0).get_prefix_operation_result_type(&operator).is_empty());
    }
}

#[test]
fn operators_emit_one_instruction() {
    let mut memory = MemoryManager::new();
    let mut stack_sizes = frame();
    boolean_at(0)
        .operate(&Operator::Or, &boolean_at(1), &boolean_at(2), &mut memory, &mut stack_sizes)
        .unwrap();
    assert_eq!(memory.memory[0], 12);
    assert_eq!(memory.memory.len(), 1 + 3 * (1 + USIZE_BYTES) + USIZE_BYTES);
    let mut memory = MemoryManager::new();
    boolean_at(0)
        .operate_prefix(&Operator::Not, &boolean_at(2), &mut memory, &mut stack_sizes)
        .unwrap();
    assert_eq!(memory.memory[0], 7);
    assert_eq!(memory.memory.len(), 1 + 2 * (1 + USIZE_BYTES) + USIZE_BYTES);
    let mut memory = MemoryManager::new();
    pointer_at(0)
        .operate(&Operator::Equal, &pointer_at(8), &boolean_at(16), &mut memory, &mut stack_sizes)
        .unwrap();
    assert_eq!(memory.memory[0], 14);
    assert_eq!(stack_sizes.get_stack_size(), 0);
}

#[test]
fn operators_that_a_type_lacks_are_refused() {
    let mut memory = MemoryManager::new();
    let mut stack_sizes = frame();
    assert_eq!(
        boolean_at(0).operate(&Operator::Add, &boolean_at(1), &boolean_at(2), &mut memory, &mut stack_sizes),
        Err("Operator Add not supported between Boolean and Boolean".to_string())
    );
    assert_eq!(
        boolean_at(0).operate(&Operator::And, &pointer_at(1), &boolean_at(2), &mut memory, &mut stack_sizes),
        Err("Operator And not supported between Boolean and Pointer".to_string())
    );
    assert_eq!(
        pointer_at(0).operate_prefix(&Operator::Not, &pointer_at(8), &mut memory, &mut stack_sizes),
        Err("Operator Not not supported on Pointer".to_string())
    );
    assert_eq!(
        pointer_at(0).operate(&Operator::Equal, &pointer_at(8), &pointer_at(16), &mut memory, &mut stack_sizes),
        Err("Expected type [Pointer, received [Boolean".to_string())
    );
    assert!(memory.memory.is_empty());
}

#[test]
fn type_lists_in_messages() {
    assert_eq!(incorrect_type_error(&[], &[]), "Expected type [any], received [any]");
    assert_eq!(
        incorrect_type_error(&[TypeSymbol::Boolean, TypeSymbol::Pointer], &[TypeSymbol::Integer]),
        "Expected type [Boolean, Pointer, received [Integer"
    );
}

#[test]
fn methods_are_not_implemented() {
    let mut memory = MemoryManager::new();
    let mut stack_sizes = frame();
    assert_eq!(
        boolean_at(0).run_method(&"size".to_string(), &[], &mut stack_sizes, &mut memory),
        Err("'size' not implemented for Boolean".to_string())
    );
}
