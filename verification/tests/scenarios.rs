use why_compiler::compilation::processor::compile;
use why_compiler::lexical_parsing::preprocessor::SymbolData;
use why_compiler::lexical_parsing::symbols::{
    Assigner, Block, Keyword, Literal, Operator, Symbol, TypeSymbol,
};
use why_compiler::util::USIZE_BYTES;

fn name(text: &str) -> Symbol {
    Symbol::Name(text.split('.').map(|part| part.to_string()).collect())
}

fn word(value: usize) -> Vec<u8> {
    value.to_le_bytes().to_vec()
}

fn stack(offset: usize) -> Vec<u8> {
    let mut bytes = vec![2u8];
    bytes.extend(word(offset));
    bytes
}

fn immediate(value: &[u8]) -> Vec<u8> {
    let mut bytes = vec![0u8];
    bytes.extend_from_slice(value);
    bytes
}

fn instruction(code: u8, operands: &[Vec<u8>]) -> Vec<u8> {
    let mut bytes = vec![code];
    for operand in operands {
        bytes.extend_from_slice(operand);
    }
    bytes
}

fn program(lines: Vec<(usize, Vec<Symbol>)>) -> Result<Vec<u8>, String> {
    let mut data = SymbolData::new();
    let file = data.add_file_name("test.why".to_string());
    for (index, (indentation, symbols)) in lines.into_iter().enumerate() {
        data.add_line(file, index, indentation, symbols);
    }
    compile(&data).map(|memory| memory.memory)
}

fn declare_bool(variable: &str, value: Vec<Symbol>) -> Vec<Symbol> {
    let mut line = vec![Symbol::Type(TypeSymbol::Boolean), name(variable), Symbol::Assigner(Assigner::Setter)];
    line.extend(value);
    line
}

fn pointer_literal(value: i128) -> Vec<Symbol> {
    vec![Symbol::Literal(Literal::Int(value)), Symbol::Keyword(Keyword::As), Symbol::Type(TypeSymbol::Pointer)]
}

fn declare_pointer(variable: &str, value: i128) -> Vec<Symbol> {
    let mut line = vec![Symbol::Type(TypeSymbol::Pointer), name(variable), Symbol::Assigner(Assigner::Setter)];
    line.extend(pointer_literal(value));
    line
}

fn view_dec(variable: &str) -> Vec<Symbol> {
    vec![Symbol::Keyword(Keyword::ViewMemoryDecimal), name(variable)]
}

#[test]
fn boolean_short_program() {
    let compiled = program(vec![
        (0, declare_bool("a", vec![Symbol::Literal(Literal::Bool(true))])),
        (0, declare_bool("b", vec![Symbol::Literal(Literal::Bool(false))])),
        (0, declare_bool("c", vec![name("a"), Symbol::Operator(Operator::And), name("b")])),
        (0, view_dec("c")),
    ])
    .unwrap();
    let mut expected = Vec::new();
    expected.extend(instruction(0, &[word(3)]));
    expected.extend(instruction(1, &[]));
    expected.extend(instruction(3, &[immediate(&[0xFF]), stack(0), word(1)]));
    expected.extend(instruction(3, &[immediate(&[0x00]), stack(1), word(1)]));
    expected.extend(instruction(8, &[stack(0), stack(1), stack(2), word(1)]));
    expected.extend(instruction(16, &[stack(2)]));
    expected.extend(instruction(4, &[]));
    assert_eq!(compiled, expected);
}

#[test]
fn if_elif_else_lands_on_common_exit() {
    let compiled = program(vec![
        (0, declare_bool("x", vec![Symbol::Literal(Literal::Bool(false))])),
        (0, vec![Symbol::Block(Block::If), name("x")]),
        (1, view_dec("x")),
        (0, vec![Symbol::Block(Block::Elif), name("x")]),
        (1, view_dec("x")),
        (0, vec![Symbol::Block(Block::Else)]),
        (1, declare_bool("y", vec![Symbol::Literal(Literal::Bool(true))])),
        (1, view_dec("y")),
    ])
    .unwrap();
    let jump_if_not = 1 + (1 + USIZE_BYTES) + USIZE_BYTES;
    let jump = 1 + USIZE_BYTES;
    let view = 1 + (1 + USIZE_BYTES);
    let copy = 1 + 2 + (1 + USIZE_BYTES) + USIZE_BYTES;
    let start = (1 + USIZE_BYTES) + 1 + copy;
    let first_branch = start + jump_if_not;
    let second_check = first_branch + view + jump;
    let second_branch = second_check + jump_if_not;
    let else_branch = second_branch + view + jump;
    let end = else_branch + copy + view;
    let mut expected = Vec::new();
    expected.extend(instruction(0, &[word(2)]));
    expected.extend(instruction(1, &[]));
    expected.extend(instruction(3, &[immediate(&[0x00]), stack(0), word(1)]));
    expected.extend(instruction(9, &[stack(0), word(second_check)]));
    expected.extend(instruction(16, &[stack(0)]));
    expected.extend(instruction(10, &[word(end)]));
    expected.extend(instruction(9, &[stack(0), word(else_branch)]));
    expected.extend(instruction(16, &[stack(0)]));
    expected.extend(instruction(10, &[word(end)]));
    expected.extend(instruction(3, &[immediate(&[0xFF]), stack(1), word(1)]));
    expected.extend(instruction(16, &[stack(1)]));
    assert_eq!(expected.len(), end);
    expected.extend(instruction(4, &[]));
    assert_eq!(compiled, expected);
}

#[test]
fn while_with_break() {
    let compiled = program(vec![
        (0, declare_pointer("i", 0)),
        (
            0,
            vec![
                Symbol::Block(Block::While),
                name("i"),
                Symbol::Operator(Operator::NotEqual),
                Symbol::BracketedSection(pointer_literal(10)),
            ],
        ),
        (1, {
            let mut line = vec![name("i"), Symbol::Assigner(Assigner::AdditionSetter)];
            line.extend(pointer_literal(1));
            line
        }),
        (
            1,
            vec![
                Symbol::Block(Block::If),
                name("i"),
                Symbol::Operator(Operator::Equal),
                Symbol::BracketedSection(pointer_literal(5)),
            ],
        ),
        (2, vec![Symbol::Keyword(Keyword::Break)]),
        (0, view_dec("i")),
    ])
    .unwrap();
    let w = USIZE_BYTES;
    let address = 1 + w;
    let copy_pointer = 1 + address + address + w;
    let binary = 1 + 3 * address + w;
    let jump_if_not = 1 + address + w;
    let jump = 1 + w;
    let loop_start = (1 + w) + 1 + copy_pointer;
    let after_check = loop_start + copy_pointer + binary + jump_if_not;
    let after_add = after_check + copy_pointer + binary;
    let after_if_check = after_add + copy_pointer + binary + jump_if_not;
    let after_break = after_if_check + jump;
    let loop_end = after_break + jump;
    let mut expected = Vec::new();
    // i at 0; the temporaries follow: 10 at w, the condition at 2w, 1 at
    // 2w + 1, 5 at 3w + 1, the condition of the if at 4w + 1.
    expected.extend(instruction(0, &[word(4 * w + 2)]));
    expected.extend(instruction(1, &[]));
    expected.extend(instruction(3, &[immediate(&word(0)), stack(0), word(w)]));
    assert_eq!(expected.len(), loop_start);
    expected.extend(instruction(3, &[immediate(&word(10)), stack(w), word(w)]));
    expected.extend(instruction(15, &[stack(0), stack(w), stack(2 * w), word(w)]));
    expected.extend(instruction(9, &[stack(2 * w), word(loop_end)]));
    expected.extend(instruction(3, &[immediate(&word(1)), stack(2 * w + 1), word(w)]));
    expected.extend(instruction(13, &[stack(0), stack(2 * w + 1), stack(0), word(w)]));
    expected.extend(instruction(3, &[immediate(&word(5)), stack(3 * w + 1), word(w)]));
    expected.extend(instruction(14, &[stack(0), stack(3 * w + 1), stack(4 * w + 1), word(w)]));
    expected.extend(instruction(9, &[stack(4 * w + 1), word(after_break)]));
    expected.extend(instruction(10, &[word(loop_end)]));
    assert_eq!(expected.len(), after_break);
    expected.extend(instruction(10, &[word(loop_start)]));
    assert_eq!(expected.len(), loop_end);
    expected.extend(instruction(16, &[stack(0)]));
    expected.extend(instruction(4, &[]));
    assert_eq!(compiled, expected);
}

#[test]
fn pointer_subtraction_via_twos_complement() {
    let compiled = program(vec![
        (0, declare_pointer("a", 10)),
        (0, declare_pointer("b", 3)),
        (
            0,
            vec![
                Symbol::Type(TypeSymbol::Pointer),
                name("c"),
                Symbol::Assigner(Assigner::Setter),
                name("a"),
                Symbol::Operator(Operator::Subtract),
                name("b"),
            ],
        ),
        (0, view_dec("c")),
    ])
    .unwrap();
    let w = USIZE_BYTES;
    let mut expected = Vec::new();
    expected.extend(instruction(0, &[word(4 * w)]));
    expected.extend(instruction(1, &[]));
    expected.extend(instruction(3, &[immediate(&word(10)), stack(0), word(w)]));
    expected.extend(instruction(3, &[immediate(&word(3)), stack(w), word(w)]));
    expected.extend(instruction(7, &[stack(w), stack(3 * w), word(w)]));
    expected.extend(instruction(13, &[stack(3 * w), immediate(&word(1)), stack(3 * w), word(w)]));
    expected.extend(instruction(13, &[stack(0), stack(3 * w), stack(2 * w), word(w)]));
    expected.extend(instruction(16, &[stack(2 * w)]));
    expected.extend(instruction(4, &[]));
    assert_eq!(compiled, expected);
}

#[test]
fn function_declaration_and_call() {
    let compiled = program(vec![
        (
            0,
            vec![
                Symbol::Block(Block::Function),
                name("g"),
                Symbol::List(vec![vec![Symbol::Type(TypeSymbol::Pointer), name("x")]]),
            ],
        ),
        (1, view_dec("x")),
        (0, vec![name("g"), Symbol::List(vec![pointer_literal(7)])]),
    ])
    .unwrap();
    let w = USIZE_BYTES;
    let address = 1 + w;
    let body_start = (1 + w) + 1 + (1 + w);
    let body_end = body_start + 1 + (1 + address) + (1 + address);
    let call_start = body_end;
    let copy_pointer = 1 + address + address + w;
    let return_target = call_start + (1 + w) + copy_pointer + copy_pointer + (1 + w);
    let mut expected = Vec::new();
    expected.extend(instruction(0, &[word(0)]));
    expected.extend(instruction(1, &[]));
    expected.extend(instruction(10, &[word(body_end)]));
    assert_eq!(expected.len(), body_start);
    expected.extend(instruction(1, &[]));
    expected.extend(instruction(16, &[stack(0)]));
    expected.extend(instruction(11, &[stack(w)]));
    assert_eq!(expected.len(), body_end);
    expected.extend(instruction(0, &[word(2 * w)]));
    expected.extend(instruction(3, &[immediate(&word(7)), stack(0), word(w)]));
    expected.extend(instruction(3, &[immediate(&word(return_target)), stack(w), word(w)]));
    expected.extend(instruction(10, &[word(body_start)]));
    assert_eq!(expected.len(), return_target);
    expected.extend(instruction(4, &[]));
    assert_eq!(compiled, expected);
}

#[test]
fn function_body_cannot_see_outer_names() {
    let error = program(vec![
        (0, declare_bool("outer", vec![Symbol::Literal(Literal::Bool(true))])),
        (0, vec![Symbol::Block(Block::Function), name("f"), Symbol::List(vec![])]),
        (1, view_dec("outer")),
    ])
    .unwrap_err();
    assert_eq!(error, "test.why - Line 3: Reference 'outer' not found");
}

#[test]
fn class_with_method_emits_only_the_skipped_body() {
    let compiled = program(vec![
        (0, vec![Symbol::Block(Block::Class), name("c")]),
        (1, declare_bool("flag", vec![Symbol::Literal(Literal::Bool(true))])),
        (1, vec![Symbol::Block(Block::Function), name("show"), Symbol::List(vec![])]),
        (2, vec![Symbol::Keyword(Keyword::Dump)]),
    ])
    .unwrap();
    let w = USIZE_BYTES;
    let body_start = (1 + w) + 1 + (1 + w);
    let body_end = body_start + 1 + 1 + (1 + 1 + w);
    let mut expected = Vec::new();
    expected.extend(instruction(0, &[word(0)]));
    expected.extend(instruction(1, &[]));
    expected.extend(instruction(10, &[word(body_end)]));
    expected.extend(instruction(1, &[]));
    expected.extend(instruction(5, &[]));
    expected.extend(instruction(11, &[stack(0)]));
    assert_eq!(expected.len(), body_end);
    expected.extend(instruction(4, &[]));
    assert_eq!(compiled, expected);
}
