use why_compiler::compilation::blocks::StackSizes;
use why_compiler::compilation::instructions::{JumpInstruction, StackCreateInstruction};
use why_compiler::compilation::reference_manager::class::ClassReference;
use why_compiler::compilation::reference_manager::function::{
    FunctionReference, IncompleteFunctionCall,
};
use why_compiler::compilation::reference_manager::{Reference, ReferenceStack};
use why_compiler::compilation::types::boolean::BoolType;
use why_compiler::compilation::types::pointer::PointerType;
use why_compiler::compilation::types::Type;
use why_compiler::lexical_parsing::symbols::{Keyword, Literal, Symbol, TypeSymbol};
use why_compiler::memory::address::Address;
use why_compiler::memory::MemoryManager;
use why_compiler::util::USIZE_BYTES;

fn path(text: &str) -> Vec<String> {
    text.split('.').map(|part| part.to_string()).collect()
}

fn boolean_at(offset: usize) -> Reference {
    Reference::Variable(Type::Boolean(BoolType { address: Some(Address::StackDirect(offset)) }))
}

fn offset_of(references: &ReferenceStack, name: &str) -> Result<Address, String> {
    let reference = references.get_reference(&path(name))?;
    let variable = reference.get_variable_ref()?;
    Ok(variable.get_address().duplicate())
}

#[test]
fn stack_sizes_count_each_frame() {
    let mut stack_sizes = StackSizes::new();
    assert_eq!(stack_sizes.depth(), 0);
    assert!(!stack_sizes.has_room(0));
    stack_sizes.add_stack();
    assert_eq!(stack_sizes.increment_stack_size(3), 0);
    assert_eq!(stack_sizes.increment_stack_size(2), 3);
    stack_sizes.add_stack();
    assert_eq!(stack_sizes.get_stack_size(), 0);
    assert_eq!(stack_sizes.increment_stack_size(7), 0);
    assert!(stack_sizes.has_room(usize::MAX - 7));
    assert!(!stack_sizes.has_room(usize::MAX - 6));
    stack_sizes.remove_stack();
    assert_eq!(stack_sizes.get_stack_size(), 5);
    assert_eq!(stack_sizes.depth(), 1);
}

#[test]
fn inner_scopes_shadow_outer_ones() {
    let mut references = ReferenceStack::new();
    assert_eq!(
        references.register_reference(boolean_at(0), path("a")),
        Err("Reference 'a' cannot be registered".to_string())
    );
    references.add_handler();
    references.register_reference(boolean_at(0), path("a")).unwrap();
    references.register_reference(boolean_at(1), path("b")).unwrap();
    references.add_handler();
    references.register_reference(boolean_at(2), path("a")).unwrap();
    assert_eq!(references.get_depth(), 2);
    assert_eq!(offset_of(&references, "a"), Ok(Address::StackDirect(2)));
    assert_eq!(offset_of(&references, "b"), Ok(Address::StackDirect(1)));
    assert_eq!(
        references.register_reference(boolean_at(3), path("a")),
        Err("Reference 'a' already exists".to_string())
    );
    references.remove_handler();
    assert_eq!(offset_of(&references, "a"), Ok(Address::StackDirect(0)));
    assert_eq!(offset_of(&references, "c"), Err("Reference 'c' not found".to_string()));
    assert_eq!(offset_of(&references, ""), Err("Reference '' not found".to_string()));
}

#[test]
fn the_depth_limit_hides_outer_scopes() {
    let mut references = ReferenceStack::new();
    references.add_handler();
    references.register_reference(boolean_at(0), path("outer")).unwrap();
    references.add_handler();
    references.register_reference(boolean_at(1), path("inner")).unwrap();
    assert_eq!(references.get_reference_depth_limit(), 0);
    references.set_reference_depth_limit(1);
    assert_eq!(offset_of(&references, "outer"), Ok(Address::StackDirect(0)));
    assert_eq!(offset_of(&references, "inner"), Ok(Address::StackDirect(1)));
    references.set_reference_depth_limit(2);
    assert_eq!(offset_of(&references, "outer"), Err("Reference 'outer' not found".to_string()));
    assert_eq!(offset_of(&references, "inner"), Ok(Address::StackDirect(1)));
    references.set_reference_depth_limit(3);
    assert_eq!(offset_of(&references, "inner"), Err("Reference 'inner' not found".to_string()));
    references.set_reference_depth_limit(0);
    assert_eq!(offset_of(&references, "outer"), Ok(Address::StackDirect(0)));
}

#[test]
fn the_depth_limit_leaves_self_visible() {
    let mut references = ReferenceStack::new();
    references.add_handler();
    references
        .register_reference(Reference::Class(ClassReference::new_empty("c".to_string())), path("self"))
        .unwrap();
    references.register_reference(boolean_at(0), path("outer")).unwrap();
    references.register_reference(boolean_at(7), path("self.flag")).unwrap();
    references.add_handler();
    references.add_handler();
    references.set_reference_depth_limit(3);
    assert_eq!(offset_of(&references, "outer"), Err("Reference 'outer' not found".to_string()));
    assert!(references.get_reference(&path("self")).is_ok());
    assert_eq!(offset_of(&references, "self.flag"), Ok(Address::StackDirect(7)));
    assert_eq!(
        offset_of(&references, "self.other"),
        Err("Reference 'self.other' not found".to_string())
    );
}

#[test]
fn references_are_hoisted_by_an_offset() {
    let mut references = ReferenceStack::new();
    references.add_handler();
    references.add_handler();
    references.register_reference_with_offset(boolean_at(4), "hoisted".to_string(), 1).unwrap();
    assert_eq!(references.get_top_stack().len(), 0);
    references.remove_handler();
    assert_eq!(offset_of(&references, "hoisted"), Ok(Address::StackDirect(4)));
    assert_eq!(
        references.register_reference_with_offset(boolean_at(5), "hoisted".to_string(), 0),
        Err("Reference 'hoisted' already exists".to_string())
    );
    assert_eq!(
        references.register_reference_with_offset(boolean_at(5), "far".to_string(), 1),
        Err("Reference 'far' cannot be registered".to_string())
    );
}

#[test]
fn members_of_classes_are_found_by_dotted_names() {
    let mut references = ReferenceStack::new();
    references.add_handler();
    references
        .register_reference(Reference::Class(ClassReference::new_empty("c".to_string())), path("self"))
        .unwrap();
    references.register_reference(boolean_at(9), path("self.flag")).unwrap();
    assert_eq!(offset_of(&references, "self.flag"), Ok(Address::StackDirect(9)));
    assert_eq!(
        offset_of(&references, "self.other"),
        Err("Reference 'self.other' not found".to_string())
    );
    assert_eq!(offset_of(&references, "self"), Err("Reference is not a variable".to_string()));
    assert_eq!(
        references.register_reference(boolean_at(1), path("self.flag")),
        Err("Reference 'self.flag' already exists".to_string())
    );
    assert_eq!(
        references.register_reference(boolean_at(1), path("nothing.flag")),
        Err("Reference 'nothing.flag' cannot be registered".to_string())
    );
    assert_eq!(
        references.register_reference(boolean_at(1), path("self.flag.deeper")),
        Err("Reference 'self.flag.deeper' cannot be registered".to_string())
    );
    let location = references.locate(&path("self")).unwrap();
    references.rename_reference(&location, "c".to_string());
    assert_eq!(offset_of(&references, "c.flag"), Ok(Address::StackDirect(9)));
    assert!(references.get_reference(&path("self")).is_err());
    assert_eq!(
        references.get_reference(&path("c")).unwrap().get_function_ref().err(),
        Some("Reference is not a function".to_string())
    );
}

fn function(stack_size: Option<usize>) -> FunctionReference {
    FunctionReference::new(
        100,
        PointerType { address: Some(Address::StackDirect(0)) },
        vec![(
            "x".to_string(),
            Type::Pointer(PointerType { address: Some(Address::StackDirect(USIZE_BYTES)) }),
        )],
        stack_size,
    )
}

fn pointer_literal(value: i128) -> Vec<Symbol> {
    vec![Symbol::Literal(Literal::Int(value)), Symbol::Keyword(Keyword::As), Symbol::Type(TypeSymbol::Pointer)]
}

#[test]
fn a_call_of_a_complete_function_needs_no_patch() {
    let references = ReferenceStack::new();
    let mut stack_sizes = StackSizes::new();
    stack_sizes.add_stack();
    let mut memory = MemoryManager::new();
    memory.append(&[0xAA]);
    let waiting = function(Some(24))
        .call(&[pointer_literal(7)], &mut memory, &references, &mut stack_sizes)
        .unwrap();
    assert!(waiting.is_none());
    let w = USIZE_BYTES;
    let mut expected = vec![0xAAu8, 0];
    expected.extend(24usize.to_le_bytes());
    expected.extend([3u8, 0]);
    expected.extend(7usize.to_le_bytes());
    expected.push(2);
    expected.extend(w.to_le_bytes());
    expected.extend(w.to_le_bytes());
    let return_target = 1 + (1 + w) + 2 * (1 + 2 * (1 + w) + w) + (1 + w);
    expected.extend([3u8, 0]);
    expected.extend(return_target.to_le_bytes());
    expected.push(2);
    expected.extend(0usize.to_le_bytes());
    expected.extend(w.to_le_bytes());
    expected.push(10);
    expected.extend(100usize.to_le_bytes());
    assert_eq!(expected.len(), return_target);
    assert_eq!(memory.memory, expected);
}

#[test]
fn calls_before_the_body_ends_are_patched_when_it_ends() {
    let references = ReferenceStack::new();
    let mut stack_sizes = StackSizes::new();
    stack_sizes.add_stack();
    let mut memory = MemoryManager::new();
    let mut declared = function(None);
    let first = declared
        .call(&[pointer_literal(1)], &mut memory, &references, &mut stack_sizes)
        .unwrap()
        .unwrap();
    let middle = memory.position();
    let second = declared
        .call(&[pointer_literal(2)], &mut memory, &references, &mut stack_sizes)
        .unwrap()
        .unwrap();
    assert_eq!(first.stack_create_instruction.address, 0);
    assert_eq!(first.jump_instruction.address, middle - 1 - USIZE_BYTES);
    assert_eq!(second.stack_create_instruction.address, middle);
    assert_eq!(memory.memory[1..1 + USIZE_BYTES], 0usize.to_le_bytes());
    declared.add_incomplete_function_call(first);
    declared.add_incomplete_function_call(second);
    assert_eq!(declared.incomplete_function_calls.len(), 2);
    let before = memory.memory.clone();
    declared.set_stack_size_and_complete(40, &mut memory);
    assert_eq!(declared.incomplete_function_calls.len(), 0);
    assert_eq!(declared.stack_size, Some(40));
    assert_eq!(memory.memory.len(), before.len());
    assert_eq!(memory.memory[1..1 + USIZE_BYTES], 40usize.to_le_bytes());
    assert_eq!(memory.memory[middle + 1..middle + 1 + USIZE_BYTES], 40usize.to_le_bytes());
    assert_eq!(memory.memory[middle - USIZE_BYTES..middle], 100usize.to_le_bytes());
    let end = memory.memory.len();
    assert_eq!(memory.memory[end - USIZE_BYTES..], 100usize.to_le_bytes());
    let mut expected = before;
    expected[1..1 + USIZE_BYTES].copy_from_slice(&40usize.to_le_bytes());
    expected[middle + 1..middle + 1 + USIZE_BYTES].copy_from_slice(&40usize.to_le_bytes());
    assert_eq!(memory.memory, expected);
}

#[test]
fn a_call_needs_as_many_arguments_as_parameters() {
    let references = ReferenceStack::new();
    let mut stack_sizes = StackSizes::new();
    stack_sizes.add_stack();
    let mut memory = MemoryManager::new();
    assert_eq!(
        function(None).call(&[], &mut memory, &references, &mut stack_sizes).err(),
        Some("Incorrect number of arguments (expected 1, received 0)".to_string())
    );
    assert!(memory.memory.is_empty());
}

#[test]
fn waiting_call_sites_are_recorded_with_their_function() {
    let mut references = ReferenceStack::new();
    references.add_handler();
    references.register_reference(Reference::Function(function(None)), path("f")).unwrap();
    references.register_reference(boolean_at(0), path("v")).unwrap();
    let call = || IncompleteFunctionCall {
        stack_create_instruction: StackCreateInstruction { address: 0 },
        jump_instruction: JumpInstruction { address: 20 },
    };
    let location = references.locate(&path("f")).unwrap();
    assert!(references.add_incomplete_function_call(&location, call()));
    let waiting = references.get_reference(&path("f")).unwrap().get_function_ref().unwrap();
    assert_eq!(waiting.incomplete_function_calls.len(), 1);
    assert_eq!(waiting.incomplete_function_calls[0].jump_instruction.address, 20);
    let location = references.locate(&path("v")).unwrap();
    assert!(!references.add_incomplete_function_call(&location, call()));
}
