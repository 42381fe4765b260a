use why_compiler::compilation::arithmetic::{
    deliver, handle_operation, handle_prefix_operation, ReturnOptions,
};
use why_compiler::compilation::blocks::base_block::BaseBlock;
use why_compiler::compilation::blocks::class_block::ClassBlock;
use why_compiler::compilation::blocks::function_block::FunctionBlock;
use why_compiler::compilation::blocks::if_block::IfBlock;
use why_compiler::compilation::blocks::while_block::WhileBlock;
use why_compiler::compilation::blocks::{BlockCoordinator, StackSizes};
use why_compiler::compilation::lines::variable_initialisation::VariableInitialisationLine;
use why_compiler::compilation::processor::process_line;
use why_compiler::compilation::reference_manager::class::ClassReference;
use why_compiler::compilation::reference_manager::{Reference, ReferenceStack};
use why_compiler::compilation::types::boolean::BoolType;
use why_compiler::compilation::types::pointer::PointerType;
use why_compiler::compilation::types::{Type, TypeFactory};
use why_compiler::lexical_parsing::symbols::{
    Assigner, Block, Keyword, Literal, Operator, Symbol, TypeSymbol,
};
use why_compiler::memory::address::Address;
use why_compiler::memory::MemoryManager;
use why_compiler::util::ref_or_box::RefOrBox;
use why_compiler::util::USIZE_BYTES;

fn name(text: &str) -> Symbol {
    Symbol::Name(text.split('.').map(|part| part.to_string()).collect())
}

fn boolean_at(offset: usize) -> Type {
    Type::Boolean(BoolType { address: Some(Address::StackDirect(offset)) })
}

fn pointer_at(offset: usize) -> Type {
    Type::Pointer(PointerType { address: Some(Address::StackDirect(offset)) })
}

fn scopes(count: usize) -> ReferenceStack {
    let mut references = ReferenceStack::new();
    for _ in 0..count {
        references.add_handler();
    }
    references
}

fn names_of(references: &ReferenceStack, scope: usize) -> Vec<String> {
    references.stack[scope].iter().map(|entry| entry.name.clone()).collect()
}

#[test]
fn the_base_block_leaves_the_scopes_alone() {
    let mut memory = MemoryManager::new();
    let mut references = ReferenceStack::new();
    let mut stack_sizes = StackSizes::new();
    let mut block = BaseBlock::new_block();
    block
        .on_entry(&mut memory, &mut references, &mut stack_sizes, &[Symbol::Block(Block::BaseBlock)])
        .unwrap();
    assert_eq!(references.get_depth(), 0);
    assert_eq!(stack_sizes.depth(), 1);
    assert_eq!(stack_sizes.get_stack_size(), 0);
    let mut expected = vec![0u8];
    expected.extend(0usize.to_le_bytes());
    expected.push(1);
    assert_eq!(memory.memory, expected);
    stack_sizes.increment_stack_size(5);
    block.on_forced_exit(&mut memory, &mut references, &mut stack_sizes).unwrap();
    assert_eq!(references.get_depth(), 0);
    assert_eq!(stack_sizes.depth(), 0);
    let mut expected = vec![0u8];
    expected.extend(5usize.to_le_bytes());
    expected.extend([1, 4]);
    assert_eq!(memory.memory, expected);
}

#[test]
fn conditions_and_loops_leave_the_scopes_alone() {
    let mut memory = MemoryManager::new();
    let mut references = scopes(2);
    references
        .register_reference_with_offset(Reference::Variable(boolean_at(0)), "a".to_string(), 1)
        .unwrap();
    let mut stack_sizes = StackSizes::new();
    stack_sizes.add_stack();
    stack_sizes.increment_stack_size(1);
    let mut condition = IfBlock::new_block();
    condition
        .on_entry(&mut memory, &mut references, &mut stack_sizes, &[Symbol::Block(Block::If), name("a")])
        .unwrap();
    assert_eq!(references.get_depth(), 2);
    let checked = memory.memory.len();
    assert_eq!(
        condition.on_exit(&mut memory, &mut references, &mut stack_sizes, &[Symbol::Block(Block::Else)]),
        Ok(false)
    );
    assert_eq!(references.get_depth(), 2);
    let branch = checked + 1 + USIZE_BYTES;
    assert_eq!(memory.memory.len(), branch);
    assert_eq!(memory.memory[checked - USIZE_BYTES..checked], branch.to_le_bytes());
    condition.on_forced_exit(&mut memory, &mut references, &mut stack_sizes).unwrap();
    assert_eq!(references.get_depth(), 2);
    assert_eq!(memory.memory.len(), branch);
    assert_eq!(memory.memory[checked + 1..], branch.to_le_bytes());

    let mut empty = ReferenceStack::new();
    let mut closed = IfBlock::new_block();
    assert_eq!(closed.on_forced_exit(&mut memory, &mut empty, &mut stack_sizes), Ok(()));
    assert_eq!(empty.get_depth(), 0);

    let start = memory.memory.len();
    let mut repeated = WhileBlock::new_block();
    repeated
        .on_entry(&mut memory, &mut references, &mut stack_sizes, &[Symbol::Block(Block::While), name("a")])
        .unwrap();
    assert_eq!(references.get_depth(), 2);
    let leave = memory.memory.len();
    repeated.on_forced_exit(&mut memory, &mut references, &mut stack_sizes).unwrap();
    assert_eq!(references.get_depth(), 2);
    let end = leave + 1 + USIZE_BYTES;
    assert_eq!(memory.memory.len(), end);
    assert_eq!(memory.memory[leave], 10);
    assert_eq!(memory.memory[leave + 1..], start.to_le_bytes());
    assert_eq!(memory.memory[leave - USIZE_BYTES..leave], end.to_le_bytes());
}

#[test]
fn an_elif_lands_the_jump_before_its_condition() {
    let mut memory = MemoryManager::new();
    let mut references = scopes(2);
    references
        .register_reference_with_offset(Reference::Variable(boolean_at(0)), "a".to_string(), 1)
        .unwrap();
    let mut stack_sizes = StackSizes::new();
    stack_sizes.add_stack();
    stack_sizes.increment_stack_size(1);
    let mut condition = IfBlock::new_block();
    condition
        .on_entry(&mut memory, &mut references, &mut stack_sizes, &[Symbol::Block(Block::If), name("a")])
        .unwrap();
    let checked = memory.memory.len();
    references.register_reference(Reference::Variable(boolean_at(9)), vec!["local".to_string()]).unwrap();
    let line = [
        Symbol::Block(Block::Elif),
        Symbol::Operator(Operator::Not),
        name("a"),
    ];
    assert_eq!(condition.on_exit(&mut memory, &mut references, &mut stack_sizes, &line), Ok(false));
    let branch = checked + 1 + USIZE_BYTES;
    assert!(memory.memory.len() > branch);
    assert_eq!(memory.memory[checked - USIZE_BYTES..checked], branch.to_le_bytes());
    assert_eq!(references.get_depth(), 2);
    assert!(references.get_top_stack().is_empty());
    assert!(references.get_reference(&["a".to_string()]).is_ok());
}

#[test]
fn a_class_is_registered_next_to_its_own_scope() {
    let mut memory = MemoryManager::new();
    let mut stack_sizes = StackSizes::new();
    let line = [Symbol::Block(Block::Class), name("c")];
    let mut references = scopes(3);
    let mut block = ClassBlock::new_block();
    block.on_entry(&mut memory, &mut references, &mut stack_sizes, &line).unwrap();
    assert_eq!(references.get_depth(), 3);
    assert!(names_of(&references, 0).is_empty());
    assert_eq!(names_of(&references, 1), vec!["self".to_string()]);
    assert!(names_of(&references, 2).is_empty());
    assert!(memory.memory.is_empty());
    assert_eq!(stack_sizes.depth(), 0);
    block.on_forced_exit(&mut memory, &mut references, &mut stack_sizes).unwrap();
    assert_eq!(references.get_depth(), 3);
    assert_eq!(names_of(&references, 1), vec!["c".to_string()]);
    assert!(memory.memory.is_empty());

    let mut shallow = scopes(1);
    assert_eq!(
        ClassBlock::new_block().on_entry(&mut memory, &mut shallow, &mut stack_sizes, &line),
        Err("Reference 'self' cannot be registered".to_string())
    );
    assert_eq!(
        ClassBlock::new_block().on_entry(&mut memory, &mut references, &mut stack_sizes, &line[..1]),
        Err("Class declaration must be formatted class [Name]".to_string())
    );
    assert_eq!(
        ClassBlock::new_block().on_entry(
            &mut memory,
            &mut references,
            &mut stack_sizes,
            &[Symbol::Block(Block::Class), name("c.d")]
        ),
        Err("Class names cannot have separators".to_string())
    );
}

#[test]
fn a_function_opens_one_scope_and_closes_one() {
    let mut memory = MemoryManager::new();
    let mut stack_sizes = StackSizes::new();
    stack_sizes.add_stack();
    let mut references = scopes(2);
    references
        .register_reference_with_offset(Reference::Variable(boolean_at(0)), "outer".to_string(), 1)
        .unwrap();
    let line = [
        Symbol::Block(Block::Function),
        name("f"),
        Symbol::List(vec![vec![Symbol::Type(TypeSymbol::Pointer), name("x")]]),
    ];
    let mut block = FunctionBlock::new_block();
    block.on_entry(&mut memory, &mut references, &mut stack_sizes, &line).unwrap();
    assert_eq!(references.get_depth(), 3);
    assert_eq!(references.get_reference_depth_limit(), 2);
    assert_eq!(names_of(&references, 0), vec!["outer".to_string(), "f".to_string()]);
    assert_eq!(names_of(&references, 1), vec!["x".to_string()]);
    assert!(names_of(&references, 2).is_empty());
    assert!(references.get_reference(&["outer".to_string()]).is_err());
    assert!(references.get_reference(&["f".to_string()]).is_err());
    assert!(references.get_reference(&["x".to_string()]).is_ok());
    assert_eq!(stack_sizes.depth(), 2);
    assert_eq!(stack_sizes.get_stack_size(), 2 * USIZE_BYTES);
    let entered = memory.memory.len();
    assert_eq!(entered, 1 + USIZE_BYTES + 1);
    block.on_forced_exit(&mut memory, &mut references, &mut stack_sizes).unwrap();
    assert_eq!(references.get_depth(), 2);
    assert_eq!(references.get_reference_depth_limit(), 0);
    assert_eq!(stack_sizes.depth(), 1);
    let mut returned = vec![11u8, 2];
    returned.extend(USIZE_BYTES.to_le_bytes());
    assert_eq!(memory.memory[entered..], returned);
    assert_eq!(memory.memory[1..1 + USIZE_BYTES], memory.memory.len().to_le_bytes());
    let declared = references.get_reference(&["f".to_string()]).unwrap().get_function_ref().unwrap();
    assert_eq!(declared.stack_size, Some(2 * USIZE_BYTES));
    assert_eq!(declared.incomplete_function_calls.len(), 0);

    let mut shallow = scopes(1);
    assert_eq!(
        FunctionBlock::new_block().on_entry(&mut memory, &mut shallow, &mut stack_sizes, &line),
        Err("Reference 'f' cannot be registered".to_string())
    );
    let mut none = ReferenceStack::new();
    assert_eq!(
        FunctionBlock::new_block().on_entry(&mut memory, &mut none, &mut stack_sizes, &line),
        Err("The block has not been opened".to_string())
    );
}

#[test]
fn a_function_takes_what_its_scope_holds_as_parameters() {
    let mut memory = MemoryManager::new();
    let mut stack_sizes = StackSizes::new();
    let mut references = scopes(2);
    references.register_reference(Reference::Variable(boolean_at(3)), vec!["held".to_string()]).unwrap();
    let line = [Symbol::Block(Block::Function), name("f"), Symbol::List(vec![])];
    FunctionBlock::new_block().on_entry(&mut memory, &mut references, &mut stack_sizes, &line).unwrap();
    let location = references.locate(&["f".to_string()]).unwrap();
    let declared = match &references.stack[location.handler][location.index].reference {
        Reference::Function(function) => function,
        _ => panic!("a function was registered"),
    };
    assert_eq!(declared.parameters.len(), 1);
    assert_eq!(declared.parameters[0].0, "held");

    let mut other = scopes(2);
    other
        .register_reference(Reference::Class(ClassReference::new_empty("c".to_string())), vec!["k".to_string()])
        .unwrap();
    assert_eq!(
        FunctionBlock::new_block().on_entry(&mut memory, &mut other, &mut stack_sizes, &line),
        Err("Reference is not a variable".to_string())
    );
    let dotted = [
        Symbol::Block(Block::Function),
        name("f"),
        Symbol::List(vec![vec![Symbol::Type(TypeSymbol::Boolean), name("k.x")]]),
    ];
    assert_eq!(
        FunctionBlock::new_block().on_entry(&mut memory, &mut scopes(2), &mut stack_sizes, &dotted),
        Err("Name must not be a property".to_string())
    );
}

#[test]
fn a_method_sees_its_class() {
    let mut memory = MemoryManager::new();
    let mut coordinator = BlockCoordinator::new();
    coordinator
        .add_block_handler(BaseBlock::new_block(), &mut memory, &[Symbol::Block(Block::BaseBlock)])
        .unwrap();
    assert_eq!(coordinator.reference_stack.get_depth(), 1);
    process_line(0, &[Symbol::Type(TypeSymbol::Boolean), name("outer"), Symbol::Assigner(Assigner::Setter), Symbol::Literal(Literal::Bool(true))], &mut memory, &mut coordinator).unwrap();
    process_line(0, &[Symbol::Block(Block::Class), name("c")], &mut memory, &mut coordinator).unwrap();
    assert_eq!(coordinator.reference_stack.get_depth(), 2);
    assert_eq!(names_of(&coordinator.reference_stack, 0), vec!["outer".to_string(), "self".to_string()]);
    process_line(
        1,
        &[Symbol::Block(Block::Function), name("show"), Symbol::List(vec![])],
        &mut memory,
        &mut coordinator,
    )
    .unwrap();
    assert_eq!(coordinator.reference_stack.get_depth(), 4);
    assert_eq!(coordinator.reference_stack.get_reference_depth_limit(), 2);
    assert!(coordinator.get_reference(&["self".to_string()]).is_ok());
    assert!(coordinator.get_reference(&["outer".to_string()]).is_err());
    process_line(
        2,
        &[
            Symbol::Type(TypeSymbol::Boolean),
            name("self.flag"),
            Symbol::Assigner(Assigner::Setter),
            Symbol::Literal(Literal::Bool(true)),
        ],
        &mut memory,
        &mut coordinator,
    )
    .unwrap();
    assert!(coordinator.reference_stack.get_top_stack().is_empty());
    process_line(2, &[Symbol::Keyword(Keyword::ViewMemoryDecimal), name("self.flag")], &mut memory, &mut coordinator)
        .unwrap();
    process_line(0, &[Symbol::Keyword(Keyword::Dump)], &mut memory, &mut coordinator).unwrap();
    assert_eq!(coordinator.reference_stack.get_depth(), 1);
    assert_eq!(coordinator.reference_stack.get_reference_depth_limit(), 0);
    assert_eq!(names_of(&coordinator.reference_stack, 0), vec!["outer".to_string(), "c".to_string()]);
    let flag = ["c".to_string(), "flag".to_string()];
    assert!(coordinator.get_reference(&flag).unwrap().get_variable_ref().is_ok());
    let show = ["c".to_string(), "show".to_string()];
    assert!(coordinator.get_reference(&show).unwrap().get_function_ref().is_ok());
}

#[test]
fn a_variable_is_registered_under_its_whole_name() {
    let mut memory = MemoryManager::new();
    let mut stack_sizes = StackSizes::new();
    stack_sizes.add_stack();
    let mut references = scopes(1);
    references
        .register_reference(Reference::Class(ClassReference::new_empty("c".to_string())), vec!["c".to_string()])
        .unwrap();
    references.add_handler();
    let line = [Symbol::Type(TypeSymbol::Pointer), name("c.place")];
    VariableInitialisationLine::handle_initialisation(&line, &mut memory, &mut references, &mut stack_sizes, false)
        .unwrap();
    assert!(references.get_top_stack().is_empty());
    let place = ["c".to_string(), "place".to_string()];
    assert_eq!(
        references.get_reference(&place).unwrap().get_variable_ref().unwrap().get_address(),
        &Address::StackDirect(0)
    );
    assert_eq!(
        VariableInitialisationLine::handle_initialisation(&line, &mut memory, &mut references, &mut stack_sizes, false),
        Err("Reference 'c.place' already exists".to_string())
    );
    assert_eq!(stack_sizes.get_stack_size(), 2 * USIZE_BYTES);
    let missing = [Symbol::Type(TypeSymbol::Pointer), name("d.place")];
    assert_eq!(
        VariableInitialisationLine::handle_initialisation(&missing, &mut memory, &mut references, &mut stack_sizes, false),
        Err("Reference 'd.place' cannot be registered".to_string())
    );
    assert!(memory.memory.is_empty());
}

#[test]
fn an_operator_that_is_not_offered_leaves_everything_as_it_was() {
    let mut memory = MemoryManager::new();
    memory.memory.extend([7, 7, 7]);
    let mut stack_sizes = StackSizes::new();
    stack_sizes.add_stack();
    stack_sizes.increment_stack_size(2);
    let (left, right, into) = (boolean_at(0), boolean_at(1), pointer_at(2));
    let result = handle_operation(
        &Operator::Add,
        RefOrBox::from_ref(&left),
        RefOrBox::from_ref(&right),
        &ReturnOptions::IntoType(&into),
        &mut memory,
        &mut stack_sizes,
    );
    assert_eq!(result.err(), Some("Operator Add not supported between Boolean and Boolean".to_string()));
    assert_eq!(memory.memory, vec![7, 7, 7]);
    assert_eq!(stack_sizes.get_stack_size(), 2);
    let result = handle_prefix_operation(
        &Operator::Add,
        RefOrBox::from_ref(&left),
        &ReturnOptions::IntoType(&into),
        &mut memory,
        &mut stack_sizes,
    );
    assert_eq!(result.err(), Some("Operator Add not supported on Boolean".to_string()));
    assert_eq!(memory.memory, vec![7, 7, 7]);
    assert_eq!(stack_sizes.get_stack_size(), 2);
    for options in [
        ReturnOptions::AnyType,
        ReturnOptions::PreferType(TypeSymbol::Pointer),
        ReturnOptions::OneOfTypes(&[TypeSymbol::Boolean]),
    ] {
        let result = handle_operation(
            &Operator::Add,
            RefOrBox::from_ref(&left),
            RefOrBox::from_ref(&right),
            &options,
            &mut memory,
            &mut stack_sizes,
        );
        assert_eq!(result.err(), Some("Add not supported between Boolean and Boolean".to_string()));
        assert_eq!(memory.memory, vec![7, 7, 7]);
        assert_eq!(stack_sizes.get_stack_size(), 2);
        let result = handle_prefix_operation(
            &Operator::Add,
            RefOrBox::from_ref(&left),
            &options,
            &mut memory,
            &mut stack_sizes,
        );
        assert_eq!(result.err(), Some("Add not supported on Boolean".to_string()));
        assert_eq!(memory.memory, vec![7, 7, 7]);
        assert_eq!(stack_sizes.get_stack_size(), 2);
    }
    let wanted = [TypeSymbol::Pointer];
    let result = handle_operation(
        &Operator::And,
        RefOrBox::from_ref(&left),
        RefOrBox::from_ref(&right),
        &ReturnOptions::OneOfTypes(&wanted),
        &mut memory,
        &mut stack_sizes,
    );
    assert_eq!(result.err(), Some("Expected type [Pointer, received [Boolean".to_string()));
    assert_eq!(memory.memory, vec![7, 7, 7]);
    assert_eq!(stack_sizes.get_stack_size(), 2);
    let result = deliver(left, &ReturnOptions::IntoType(&into), &mut memory, &mut stack_sizes);
    assert!(result.is_err());
    assert_eq!(memory.memory, vec![7, 7, 7]);
    assert_eq!(stack_sizes.get_stack_size(), 2);
}

#[test]
fn a_literal_without_a_type_leaves_everything_as_it_was() {
    let mut memory = MemoryManager::new();
    let mut stack_sizes = StackSizes::new();
    stack_sizes.add_stack();
    stack_sizes.increment_stack_size(4);
    for prefered in [None, Some(&TypeSymbol::Boolean), Some(&TypeSymbol::Integer)] {
        assert_eq!(
            TypeFactory::get_default_instantiated_type_for_literal(
                &Literal::Int(3),
                &mut stack_sizes,
                &mut memory,
                prefered
            )
            .err(),
            Some("Type Integer cannot be instantiated".to_string())
        );
        assert!(memory.memory.is_empty());
        assert_eq!(stack_sizes.get_stack_size(), 4);
    }
    let stored = TypeFactory::get_default_instantiated_type_for_literal(
        &Literal::Bool(true),
        &mut stack_sizes,
        &mut memory,
        None,
    )
    .unwrap();
    assert_eq!(stored.get_type_symbol(), TypeSymbol::Boolean);
    assert_eq!(stored.get_address(), &Address::StackDirect(4));
    assert_eq!(stack_sizes.get_stack_size(), 5);
    let mut expected = vec![3u8, 0, 0xFF, 2];
    expected.extend(4usize.to_le_bytes());
    expected.extend(1usize.to_le_bytes());
    assert_eq!(memory.memory, expected);
}

#[test]
fn a_method_that_calls_itself_waits_for_its_own_end() {
    let mut memory = MemoryManager::new();
    let mut coordinator = BlockCoordinator::new();
    coordinator
        .add_block_handler(BaseBlock::new_block(), &mut memory, &[Symbol::Block(Block::BaseBlock)])
        .unwrap();
    process_line(0, &[Symbol::Block(Block::Class), name("c")], &mut memory, &mut coordinator).unwrap();
    process_line(
        1,
        &[Symbol::Block(Block::Function), name("show"), Symbol::List(vec![])],
        &mut memory,
        &mut coordinator,
    )
    .unwrap();
    let start = memory.memory.len() - 1;
    let show = ["self".to_string(), "show".to_string()];
    process_line(2, &[name("self.show"), Symbol::List(vec![])], &mut memory, &mut coordinator).unwrap();
    let called = memory.memory.len();
    {
        let method = coordinator.get_reference(&show).unwrap().get_function_ref().unwrap();
        assert_eq!(method.start_position, start);
        assert_eq!(method.stack_size, None);
        assert_eq!(method.incomplete_function_calls.len(), 1);
    }
    assert_eq!(memory.memory[start + 1], 0);
    assert_eq!(memory.memory[start + 2..start + 2 + USIZE_BYTES], 0usize.to_le_bytes());
    assert_eq!(memory.memory[called - USIZE_BYTES..], start.to_le_bytes());
    process_line(0, &[Symbol::Keyword(Keyword::Dump)], &mut memory, &mut coordinator).unwrap();
    let show = ["c".to_string(), "show".to_string()];
    let method = coordinator.get_reference(&show).unwrap().get_function_ref().unwrap();
    assert_eq!(method.stack_size, Some(USIZE_BYTES));
    assert_eq!(method.incomplete_function_calls.len(), 0);
    assert_eq!(memory.memory[start + 2..start + 2 + USIZE_BYTES], USIZE_BYTES.to_le_bytes());
    assert_eq!(memory.memory[called - USIZE_BYTES..called], start.to_le_bytes());
}
