use why_compiler::compilation::arithmetic::{
    evaluate_arithmetic_into_type, evaluate_arithmetic_to_any_type, evaluate_arithmetic_to_types,
};
use why_compiler::compilation::blocks::StackSizes;
use why_compiler::compilation::reference_manager::{Reference, ReferenceStack};
use why_compiler::compilation::types::boolean::BoolType;
use why_compiler::compilation::types::pointer::PointerType;
use why_compiler::compilation::types::Type;
use why_compiler::lexical_parsing::symbols::{Keyword, Literal, Operator, Symbol, TypeSymbol};
use why_compiler::memory::address::Address;
use why_compiler::memory::MemoryManager;
use why_compiler::util::USIZE_BYTES;

fn name(text: &str) -> Symbol {
    Symbol::Name(vec![text.to_string()])
}

fn scope() -> (ReferenceStack, StackSizes) {
    let mut references = ReferenceStack::new();
    references.add_handler();
    let mut stack_sizes = StackSizes::new();
    stack_sizes.add_stack();
    let flag = Type::Boolean(BoolType { address: Some(Address::StackDirect(stack_sizes.increment_stack_size(1))) });
    references.register_reference(Reference::Variable(flag), vec!["flag".to_string()]).unwrap();
    let place = Type::Pointer(PointerType {
        address: Some(Address::StackDirect(stack_sizes.increment_stack_size(USIZE_BYTES))),
    });
    references.register_reference(Reference::Variable(place), vec!["place".to_string()]).unwrap();
    (references, stack_sizes)
}

#[test]
fn a_name_is_returned_as_it_is() {
    let (references, mut stack_sizes) = scope();
    let mut memory = MemoryManager::new();
    let value = evaluate_arithmetic_to_any_type(&[name("place")], &mut memory, &references, &mut stack_sizes).unwrap();
    assert_eq!(value.as_ref().get_type_symbol(), TypeSymbol::Pointer);
    assert_eq!(value.as_ref().get_address(), &Address::StackDirect(1));
    assert!(memory.memory.is_empty());
    assert_eq!(stack_sizes.get_stack_size(), 1 + USIZE_BYTES);
}

#[test]
fn wanted_types_are_enforced() {
    let (references, mut stack_sizes) = scope();
    let mut memory = MemoryManager::new();
    assert_eq!(
        evaluate_arithmetic_to_types(
            &[name("place")],
            &[TypeSymbol::Boolean],
            &mut memory,
            &references,
            &mut stack_sizes
        )
        .err(),
        Some("Expected type [Boolean, received [Pointer".to_string())
    );
    assert!(evaluate_arithmetic_to_types(&[name("place")], &[], &mut memory, &references, &mut stack_sizes).is_ok());
    assert_eq!(
        evaluate_arithmetic_to_types(
            &[name("place"), Symbol::Operator(Operator::Add), name("place")],
            &[TypeSymbol::Boolean],
            &mut memory,
            &references,
            &mut stack_sizes
        )
        .err(),
        Some("Expected type [Boolean, received [Pointer".to_string())
    );
}

#[test]
fn integer_literals_default_to_a_type_without_values() {
    let (references, mut stack_sizes) = scope();
    let mut memory = MemoryManager::new();
    assert_eq!(
        evaluate_arithmetic_to_any_type(
            &[Symbol::Literal(Literal::Int(1))],
            &mut memory,
            &references,
            &mut stack_sizes
        )
        .err(),
        Some("Type Integer cannot be instantiated".to_string())
    );
}

#[test]
fn integer_literals_become_pointers_next_to_pointers() {
    let (references, mut stack_sizes) = scope();
    let mut memory = MemoryManager::new();
    let destination = Type::Pointer(PointerType { address: Some(Address::StackDirect(64)) });
    evaluate_arithmetic_into_type(
        &[name("place"), Symbol::Operator(Operator::Add), Symbol::Literal(Literal::Int(2))],
        &destination,
        &mut memory,
        &references,
        &mut stack_sizes,
    )
    .unwrap();
    let w = USIZE_BYTES;
    let mut expected = vec![3u8, 0];
    expected.extend(2usize.to_le_bytes());
    expected.push(2);
    expected.extend((1 + w).to_le_bytes());
    expected.extend(w.to_le_bytes());
    expected.push(13);
    expected.push(2);
    expected.extend(1usize.to_le_bytes());
    expected.push(2);
    expected.extend((1 + w).to_le_bytes());
    expected.push(2);
    expected.extend(64usize.to_le_bytes());
    expected.extend(w.to_le_bytes());
    assert_eq!(memory.memory, expected);
    assert_eq!(stack_sizes.get_stack_size(), 1 + 2 * w);
}

#[test]
fn prefix_operators_take_one_value() {
    let (references, mut stack_sizes) = scope();
    let mut memory = MemoryManager::new();
    let value = evaluate_arithmetic_to_any_type(
        &[Symbol::Operator(Operator::Not), name("flag")],
        &mut memory,
        &references,
        &mut stack_sizes,
    )
    .unwrap();
    assert_eq!(value.as_ref().get_type_symbol(), TypeSymbol::Boolean);
    assert_eq!(value.as_ref().get_address(), &Address::StackDirect(1 + USIZE_BYTES));
    assert_eq!(memory.memory[0], 7);
    assert_eq!(
        evaluate_arithmetic_to_any_type(
            &[Symbol::Operator(Operator::Not), name("place")],
            &mut memory,
            &references,
            &mut stack_sizes
        )
        .err(),
        Some("Not not supported on Pointer".to_string())
    );
    assert_eq!(
        evaluate_arithmetic_to_any_type(
            &[name("flag"), Symbol::Operator(Operator::Add), name("place")],
            &mut memory,
            &references,
            &mut stack_sizes
        )
        .err(),
        Some("Add not supported between Boolean and Pointer".to_string())
    );
}

#[test]
fn casts_of_literals_go_straight_into_a_destination_of_the_type() {
    let (references, mut stack_sizes) = scope();
    let mut memory = MemoryManager::new();
    let destination = Type::Boolean(BoolType { address: Some(Address::StackDirect(32)) });
    evaluate_arithmetic_into_type(
        &[
            Symbol::Literal(Literal::Int(5)),
            Symbol::Keyword(Keyword::As),
            Symbol::Type(TypeSymbol::Boolean),
        ],
        &destination,
        &mut memory,
        &references,
        &mut stack_sizes,
    )
    .unwrap();
    let mut expected = vec![3u8, 0, 0xFF, 2];
    expected.extend(32usize.to_le_bytes());
    expected.extend(1usize.to_le_bytes());
    assert_eq!(memory.memory, expected);
    assert_eq!(stack_sizes.get_stack_size(), 1 + USIZE_BYTES);
}

#[test]
fn casts_to_another_type_than_the_destination_fail_on_the_copy() {
    let (references, mut stack_sizes) = scope();
    let mut memory = MemoryManager::new();
    let destination = Type::Boolean(BoolType { address: Some(Address::StackDirect(32)) });
    assert_eq!(
        evaluate_arithmetic_into_type(
            &[
                Symbol::Literal(Literal::Int(5)),
                Symbol::Keyword(Keyword::As),
                Symbol::Type(TypeSymbol::Pointer),
            ],
            &destination,
            &mut memory,
            &references,
            &mut stack_sizes,
        ),
        Err("Copy not implemented from type 'Pointer' to 'Boolean'".to_string())
    );
    assert_eq!(
        evaluate_arithmetic_to_any_type(
            &[name("flag"), Symbol::Keyword(Keyword::As), Symbol::Type(TypeSymbol::Pointer)],
            &mut memory,
            &references,
            &mut stack_sizes
        )
        .err(),
        Some("Copy not implemented from type 'Boolean' to 'Pointer'".to_string())
    );
}

#[test]
fn badly_formed_expressions_are_refused() {
    let (references, mut stack_sizes) = scope();
    let mut memory = MemoryManager::new();
    let format = "Arithmetic sections must be formated [Operator] [Value], [Value] [Operator] [Value] or [Value] as [Type]";
    let mut check = |section: &[Symbol], message: &str| {
        assert_eq!(
            evaluate_arithmetic_to_any_type(section, &mut memory, &references, &mut stack_sizes).err(),
            Some(message.to_string())
        );
    };
    check(&[], "Cannot evaluate a section with no symbols");
    check(&[Symbol::Keyword(Keyword::Dump)], "Expected an expression");
    check(
        &[Symbol::Operator(Operator::Not), name("flag"), name("flag")],
        "Operator must be followed by a Literal or Name",
    );
    check(&[name("flag"), name("flag")], format);
    check(&[name("flag"), name("flag"), name("flag")], format);
    check(&[name("flag"), Symbol::Keyword(Keyword::As), name("flag")], format);
    check(&[name("missing")], "Reference 'missing' not found");
    check(
        &[Symbol::BracketedSection(vec![name("flag"), Symbol::Operator(Operator::And)])],
        format,
    );
}
