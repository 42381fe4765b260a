use why_compiler::compilation::blocks::base_block::BaseBlock;
use why_compiler::compilation::blocks::{BlockCoordinator, BlockType};
use why_compiler::compilation::processor::{compile, process_line};
use why_compiler::lexical_parsing::preprocessor::SymbolData;
use why_compiler::lexical_parsing::symbols::{
    Assigner, Block, Keyword, Literal, Operator, Symbol, TypeSymbol,
};
use why_compiler::memory::MemoryManager;
use why_compiler::util::USIZE_BYTES;

fn name(text: &str) -> Symbol {
    Symbol::Name(text.split('.').map(|part| part.to_string()).collect())
}

fn program(lines: Vec<(usize, Vec<Symbol>)>) -> Result<Vec<u8>, String> {
    let mut data = SymbolData::new();
    let file = data.add_file_name("main.why".to_string());
    for (index, (indentation, symbols)) in lines.into_iter().enumerate() {
        data.add_line(file, index, indentation, symbols);
    }
    compile(&data).map(|memory| memory.memory)
}

fn failure(lines: Vec<(usize, Vec<Symbol>)>) -> String {
    program(lines).unwrap_err()
}

fn declare(variable: &str, value: bool) -> Vec<Symbol> {
    vec![
        Symbol::Type(TypeSymbol::Boolean),
        name(variable),
        Symbol::Assigner(Assigner::Setter),
        Symbol::Literal(Literal::Bool(value)),
    ]
}

fn word(value: usize) -> Vec<u8> {
    value.to_le_bytes().to_vec()
}

#[test]
fn an_empty_program_is_an_empty_frame() {
    let mut expected = vec![0u8];
    expected.extend(word(0));
    expected.extend([1, 4]);
    assert_eq!(program(vec![]), Ok(expected.clone()));
    assert_eq!(program(vec![(0, vec![]), (3, vec![])]), Ok(expected));
}

#[test]
fn errors_name_the_line() {
    assert_eq!(
        failure(vec![(0, declare("a", true)), (0, vec![name("b"), Symbol::Assigner(Assigner::Setter), name("a")])]),
        "main.why - Line 2: Reference 'b' not found"
    );
    assert_eq!(failure(vec![(0, vec![name("a")])]), "main.why - Line 1: The line is not of any known form");
    assert_eq!(failure(vec![(1, vec![Symbol::Keyword(Keyword::Dump)])]), "main.why - Line 1: Unexpected indentation");
    let mut data = SymbolData::new();
    data.add_line(3, 0, 0, vec![Symbol::Keyword(Keyword::Dump)]);
    assert_eq!(compile(&data).err(), Some("A line comes from a file that is not known".to_string()));
}

#[test]
fn lines_of_each_kind_report_their_format() {
    assert_eq!(
        failure(vec![(0, vec![Symbol::Keyword(Keyword::Dump), name("a")])]),
        "main.why - Line 1: Dump cannot be followed by anything else"
    );
    assert_eq!(
        failure(vec![(0, vec![Symbol::Keyword(Keyword::ViewMemory)])]),
        "main.why - Line 1: viewmem must be followed by a variable"
    );
    assert_eq!(
        failure(vec![(0, vec![name("a"), Symbol::Assigner(Assigner::Setter)])]),
        "main.why - Line 1: Name and Assigner must be followed by a value"
    );
    assert_eq!(
        failure(vec![(0, vec![name("f"), Symbol::List(vec![]), name("g")])]),
        "main.why - Line 1: A call can't be followed by anything on the same line"
    );
    assert_eq!(
        failure(vec![(0, declare("a", true)), (0, vec![name("a"), Symbol::List(vec![])])]),
        "main.why - Line 2: Reference is not a function"
    );
    assert_eq!(
        failure(vec![(0, vec![Symbol::Type(TypeSymbol::Boolean), name("a")])]),
        "main.why - Line 1: Type must be followed by a Name, '=' and value to initialise a variable"
    );
    assert_eq!(
        failure(vec![(
            0,
            vec![
                Symbol::Type(TypeSymbol::Boolean),
                Symbol::Keyword(Keyword::Dump),
                Symbol::Assigner(Assigner::Setter),
                Symbol::Literal(Literal::Bool(true)),
            ]
        )]),
        "main.why - Line 1: Type must be followed by a Name to initialise a variable"
    );
    assert_eq!(
        failure(vec![(
            0,
            vec![
                Symbol::Type(TypeSymbol::Boolean),
                name("a.b"),
                Symbol::Assigner(Assigner::Setter),
                Symbol::Literal(Literal::Bool(true)),
            ]
        )]),
        "main.why - Line 1: Reference 'a.b' cannot be registered"
    );
    assert_eq!(
        failure(vec![(
            0,
            vec![
                Symbol::Type(TypeSymbol::Boolean),
                name("a"),
                Symbol::Assigner(Assigner::AdditionSetter),
                Symbol::Literal(Literal::Bool(true)),
            ]
        )]),
        "main.why - Line 1: Type must be followed by a Name, '=' and value to initialise a variable"
    );
    assert_eq!(
        failure(vec![(0, declare("a", true)), (0, declare("a", false))]),
        "main.why - Line 2: Reference 'a' already exists"
    );
    assert_eq!(
        failure(vec![(
            0,
            vec![
                Symbol::Type(TypeSymbol::Integer),
                name("a"),
                Symbol::Assigner(Assigner::Setter),
                Symbol::Literal(Literal::Int(1)),
            ]
        )]),
        "main.why - Line 1: Type Integer cannot be instantiated"
    );
}

#[test]
fn branches_must_follow_a_conditional_block() {
    assert_eq!(
        failure(vec![(0, vec![Symbol::Block(Block::Elif), name("a")])]),
        "main.why - Line 1: Elif and Else can only follow an If statement"
    );
    let open = |last: Vec<Symbol>| {
        vec![
            (0, declare("a", true)),
            (0, vec![Symbol::Block(Block::If), name("a")]),
            (1, vec![Symbol::Keyword(Keyword::Dump)]),
            (0, vec![Symbol::Block(Block::Else)]),
            (1, vec![Symbol::Keyword(Keyword::Dump)]),
            (0, last),
        ]
    };
    assert_eq!(
        failure(open(vec![Symbol::Block(Block::Else)])),
        "main.why - Line 6: 'else' cannot follow an 'else' block as it will never be reached"
    );
    assert_eq!(
        failure(open(vec![Symbol::Block(Block::Elif), name("a")])),
        "main.why - Line 6: Elif cannot follow an Else block as it will never be reached"
    );
    assert_eq!(
        failure(vec![
            (0, declare("a", true)),
            (0, vec![Symbol::Block(Block::If), name("a")]),
            (0, vec![Symbol::Block(Block::Else), name("a")]),
        ]),
        "main.why - Line 3: Else cannot be followed by any other symbol"
    );
}

#[test]
fn jumps_need_a_loop() {
    assert_eq!(
        failure(vec![(0, vec![Symbol::Keyword(Keyword::Break)])]),
        "main.why - Line 1: Break can only be used inside a loop"
    );
    assert_eq!(
        failure(vec![(0, vec![Symbol::Keyword(Keyword::Continue)])]),
        "main.why - Line 1: Continue can only be used inside a loop"
    );
    let inside = |keyword: Keyword| {
        vec![
            (0, declare("a", true)),
            (0, vec![Symbol::Block(Block::While), name("a")]),
            (1, vec![Symbol::Block(Block::Function), name("f"), Symbol::List(vec![])]),
            (2, vec![Symbol::Keyword(keyword)]),
        ]
    };
    assert_eq!(failure(inside(Keyword::Break)), "main.why - Line 4: Can't break out of a function");
    assert_eq!(failure(inside(Keyword::Continue)), "main.why - Line 4: Can't continue a function");
}

#[test]
fn continue_jumps_back_to_the_check() {
    let compiled = program(vec![
        (0, declare("a", true)),
        (0, vec![Symbol::Block(Block::While), name("a")]),
        (1, vec![Symbol::Keyword(Keyword::Continue)]),
        (1, vec![Symbol::Keyword(Keyword::Break)]),
    ])
    .unwrap();
    let w = USIZE_BYTES;
    let start = (1 + w) + 1 + (1 + 2 + (1 + w) + w);
    let check = 1 + (1 + w) + w;
    let jump = 1 + w;
    let end = start + check + 3 * jump;
    let mut expected = vec![0u8];
    expected.extend(word(1));
    expected.push(1);
    expected.extend([3, 0, 0xFF, 2]);
    expected.extend(word(0));
    expected.extend(word(1));
    assert_eq!(expected.len(), start);
    expected.extend([9, 2]);
    expected.extend(word(0));
    expected.extend(word(end));
    expected.push(10);
    expected.extend(word(start));
    expected.push(10);
    expected.extend(word(end));
    expected.push(10);
    expected.extend(word(start));
    assert_eq!(expected.len(), end);
    expected.push(4);
    assert_eq!(compiled, expected);
}

#[test]
fn functions_are_declared_with_a_name_and_a_list() {
    let format = "main.why - Line 1: Function declaration must be formatted fn [Name] [Parameter List]";
    assert_eq!(failure(vec![(0, vec![Symbol::Block(Block::Function), name("f")])]), format);
    assert_eq!(
        failure(vec![(0, vec![Symbol::Block(Block::Function), name("f"), Symbol::BracketedSection(vec![])])]),
        format
    );
    assert_eq!(
        failure(vec![(0, vec![Symbol::Block(Block::Function), Symbol::Keyword(Keyword::Dump), Symbol::List(vec![])])]),
        format
    );
    assert_eq!(
        failure(vec![(0, vec![Symbol::Block(Block::Function), name("a.b"), Symbol::List(vec![])])]),
        "main.why - Line 1: Invalid function name - function names cannot contain separators"
    );
    assert_eq!(
        failure(vec![(
            0,
            vec![
                Symbol::Block(Block::Function),
                name("f"),
                Symbol::List(vec![vec![Symbol::Type(TypeSymbol::Boolean), name("x"), name("y")]]),
            ]
        )]),
        "main.why - Line 1: Variable must be formatted [Type] [Name]"
    );
    assert_eq!(
        failure(vec![(
            0,
            vec![
                Symbol::Block(Block::Function),
                name("f"),
                Symbol::List(vec![
                    vec![Symbol::Type(TypeSymbol::Boolean), name("x")],
                    vec![Symbol::Type(TypeSymbol::Boolean), name("x")],
                ]),
            ]
        )]),
        "main.why - Line 1: Reference 'x' already exists"
    );
    assert_eq!(
        failure(vec![
            (0, vec![Symbol::Block(Block::Function), name("f"), Symbol::List(vec![])]),
            (0, vec![Symbol::Block(Block::Function), name("f"), Symbol::List(vec![])]),
        ]),
        "main.why - Line 2: Reference 'f' already exists"
    );
    assert_eq!(
        failure(vec![
            (0, vec![Symbol::Block(Block::Function), name("f"), Symbol::List(vec![])]),
            (0, vec![name("f"), Symbol::List(vec![vec![Symbol::Literal(Literal::Bool(true))]])]),
        ]),
        "main.why - Line 2: Incorrect number of arguments (expected 0, received 1)"
    );
}

#[test]
fn classes_hold_properties_and_then_methods() {
    let contents = "Classes can only contain function or attributes (before the first function)";
    assert_eq!(
        failure(vec![(0, vec![Symbol::Block(Block::Class)])]),
        "main.why - Line 1: Class declaration must be formatted class [Name]"
    );
    assert_eq!(
        failure(vec![(0, vec![Symbol::Block(Block::Class), name("a.b")])]),
        "main.why - Line 1: Class names cannot have separators"
    );
    assert_eq!(
        failure(vec![
            (0, vec![Symbol::Block(Block::Class), name("c")]),
            (1, vec![Symbol::Keyword(Keyword::Dump)]),
        ]),
        format!("main.why - Line 2: {}", contents)
    );
    assert_eq!(
        failure(vec![
            (0, declare("a", true)),
            (0, vec![Symbol::Block(Block::Class), name("c")]),
            (1, vec![Symbol::Block(Block::While), name("a")]),
        ]),
        format!("main.why - Line 3: {}", contents)
    );
    assert_eq!(
        failure(vec![
            (0, vec![Symbol::Block(Block::Class), name("c")]),
            (1, vec![Symbol::Block(Block::Function), name("m"), Symbol::List(vec![])]),
            (1, declare("late", true)),
        ]),
        format!("main.why - Line 3: {}", contents)
    );
    assert!(program(vec![
        (0, vec![Symbol::Block(Block::Class), name("c")]),
        (1, declare("early", true)),
        (1, declare("other", true)),
        (1, vec![Symbol::Block(Block::Function), name("m"), Symbol::List(vec![])]),
        (1, vec![Symbol::Block(Block::Function), name("n"), Symbol::List(vec![])]),
        (0, vec![Symbol::Block(Block::Class), name("d")]),
    ])
    .is_ok());
}

fn started() -> (MemoryManager, BlockCoordinator) {
    let mut memory = MemoryManager::new();
    let mut coordinator = BlockCoordinator::new();
    coordinator
        .add_block_handler(BaseBlock::new_block(), &mut memory, &[Symbol::Block(Block::BaseBlock)])
        .unwrap();
    (memory, coordinator)
}

#[test]
fn methods_are_registered_in_their_class() {
    let (mut memory, mut coordinator) = started();
    process_line(0, &[Symbol::Block(Block::Class), name("c")], &mut memory, &mut coordinator).unwrap();
    assert_eq!(coordinator.get_block_handler_type(), Some(BlockType::Class));
    assert!(coordinator.in_properties_phase());
    process_line(
        1,
        &[Symbol::Block(Block::Function), name("show"), Symbol::List(vec![])],
        &mut memory,
        &mut coordinator,
    )
    .unwrap();
    assert_eq!(coordinator.get_block_depth(), 3);
    assert_eq!(coordinator.reference_stack.get_depth(), 4);
    assert_eq!(coordinator.reference_stack.get_reference_depth_limit(), 2);
    assert!(coordinator.get_reference(&["self".to_string()]).is_ok());
    let show = ["self".to_string(), "show".to_string()];
    assert!(coordinator.get_reference(&show).unwrap().get_function_ref().is_ok());
    assert!(coordinator.get_reference(&["show".to_string()]).is_err());
    process_line(2, &[Symbol::Keyword(Keyword::Dump)], &mut memory, &mut coordinator).unwrap();
    process_line(
        1,
        &[Symbol::Block(Block::Function), name("hide"), Symbol::List(vec![])],
        &mut memory,
        &mut coordinator,
    )
    .unwrap();
    coordinator.force_exit_block_handler(&mut memory).unwrap();
    assert_eq!(coordinator.get_block_handler_type(), Some(BlockType::Class));
    assert!(!coordinator.in_properties_phase());
    assert_eq!(coordinator.reference_stack.get_reference_depth_limit(), 0);
    let show = ["self".to_string(), "show".to_string()];
    let method = coordinator.get_reference(&show).unwrap().get_function_ref().unwrap();
    assert_eq!(method.stack_size, Some(USIZE_BYTES));
    assert_eq!(method.start_position, 1 + USIZE_BYTES + 1 + 1 + USIZE_BYTES);
    assert!(coordinator.get_reference(&["show".to_string()]).is_err());
    process_line(0, &[Symbol::Keyword(Keyword::Dump)], &mut memory, &mut coordinator).unwrap();
    assert_eq!(coordinator.get_block_depth(), 1);
    assert!(coordinator.get_reference(&["self".to_string()]).is_err());
    let show = ["c".to_string(), "show".to_string()];
    assert!(coordinator.get_reference(&show).unwrap().get_function_ref().is_ok());
    process_line(0, &[name("c.show"), Symbol::List(vec![])], &mut memory, &mut coordinator).unwrap();
}

#[test]
fn a_function_body_sees_its_parameters_only() {
    let (mut memory, mut coordinator) = started();
    process_line(0, &declare("outer", true), &mut memory, &mut coordinator).unwrap();
    process_line(
        0,
        &[
            Symbol::Block(Block::Function),
            name("f"),
            Symbol::List(vec![vec![Symbol::Type(TypeSymbol::Boolean), name("inner")]]),
        ],
        &mut memory,
        &mut coordinator,
    )
    .unwrap();
    assert_eq!(coordinator.reference_stack.get_depth(), 3);
    assert_eq!(coordinator.reference_stack.get_reference_depth_limit(), 2);
    assert!(coordinator.get_reference(&["outer".to_string()]).is_err());
    assert!(coordinator.get_reference(&["f".to_string()]).is_err());
    assert!(coordinator.get_reference(&["inner".to_string()]).is_ok());
    coordinator.force_exit_block_handler(&mut memory).unwrap();
    assert_eq!(coordinator.reference_stack.get_depth(), 1);
    assert!(coordinator.get_reference(&["outer".to_string()]).is_ok());
    assert!(coordinator.get_reference(&["inner".to_string()]).is_err());
    let declared = coordinator.get_reference(&["f".to_string()]).unwrap().get_function_ref().unwrap();
    assert_eq!(declared.stack_size, Some(USIZE_BYTES + 1));
    assert_eq!(declared.parameters.len(), 1);
    assert_eq!(declared.parameters[0].0, "inner");
    assert_eq!(declared.incomplete_function_calls.len(), 0);
}

#[test]
fn compound_assignments_apply_their_operator() {
    let compiled = program(vec![
        (0, declare("a", true)),
        (0, declare("b", false)),
        (
            0,
            vec![
                name("a"),
                Symbol::Assigner(Assigner::Setter),
                name("a"),
                Symbol::Operator(Operator::Or),
                name("b"),
            ],
        ),
    ])
    .unwrap();
    let w = USIZE_BYTES;
    let copies = 2 * (1 + 2 + (1 + w) + w);
    let operation = &compiled[(1 + w) + 1 + copies..compiled.len() - 1];
    let mut expected = vec![12u8, 2];
    expected.extend(word(0));
    expected.push(2);
    expected.extend(word(1));
    expected.push(2);
    expected.extend(word(0));
    expected.extend(word(1));
    assert_eq!(operation, expected);
    assert_eq!(
        failure(vec![
            (0, declare("a", true)),
            (0, vec![name("a"), Symbol::Assigner(Assigner::AdditionSetter), name("a")]),
        ]),
        "main.why - Line 2: Operator Add not supported between Boolean and Boolean"
    );
}

#[test]
fn nothing_can_be_compiled_before_a_block_is_open() {
    let mut memory = MemoryManager::new();
    let mut coordinator = BlockCoordinator::new();
    assert_eq!(coordinator.get_block_handler_type(), None);
    assert!(!coordinator.in_properties_phase());
    assert_eq!(
        process_line(0, &[Symbol::Keyword(Keyword::Dump)], &mut memory, &mut coordinator),
        Err("The block has not been opened".to_string())
    );
    assert_eq!(
        coordinator.force_exit_block_handler(&mut memory),
        Err("The block has not been opened".to_string())
    );
    assert_eq!(
        coordinator.exit_block_handler(&mut memory, &[]),
        Err("The block has not been opened".to_string())
    );
    assert_eq!(process_line(5, &[], &mut memory, &mut coordinator), Ok(()));
    assert!(memory.memory.is_empty());
}

#[test]
fn blocks_close_as_the_indentation_drops() {
    let (mut memory, mut coordinator) = started();
    process_line(0, &declare("a", true), &mut memory, &mut coordinator).unwrap();
    process_line(0, &[Symbol::Block(Block::While), name("a")], &mut memory, &mut coordinator).unwrap();
    process_line(1, &[Symbol::Block(Block::If), name("a")], &mut memory, &mut coordinator).unwrap();
    process_line(2, &[Symbol::Block(Block::If), name("a")], &mut memory, &mut coordinator).unwrap();
    assert_eq!(coordinator.get_block_depth(), 4);
    assert_eq!(coordinator.reference_stack.get_depth(), 4);
    process_line(3, &[Symbol::Keyword(Keyword::Break)], &mut memory, &mut coordinator).unwrap();
    process_line(1, &[Symbol::Block(Block::Else)], &mut memory, &mut coordinator).unwrap();
    assert_eq!(coordinator.get_block_depth(), 3);
    assert_eq!(coordinator.get_block_handler_type(), Some(BlockType::If));
    process_line(0, &[Symbol::Keyword(Keyword::Dump)], &mut memory, &mut coordinator).unwrap();
    assert_eq!(coordinator.get_block_depth(), 1);
    assert_eq!(coordinator.get_block_handler_type(), Some(BlockType::Base));
    assert_eq!(coordinator.reference_stack.get_depth(), 1);
    assert_eq!(coordinator.stack_sizes.depth(), 1);
    coordinator.force_exit_block_handler(&mut memory).unwrap();
    assert_eq!(coordinator.get_block_depth(), 0);
    assert_eq!(coordinator.stack_sizes.depth(), 0);
    assert_eq!(*memory.memory.last().unwrap(), 4);
    assert_eq!(memory.memory[1..1 + USIZE_BYTES], 1usize.to_le_bytes());
}
