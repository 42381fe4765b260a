use why_compiler::compilation::processor::compile;
use why_compiler::lexical_parsing::preprocessor::{
    get_symbols_from_line, read_file_line, FileLine, SymbolData,
};
use why_compiler::lexical_parsing::symbols::{Block, Keyword, Literal, Symbol, TypeSymbol};
use why_compiler::memory::address::Address;
use why_compiler::memory::runtime_memory::program_cursor::ProgramCursor;
use why_compiler::memory::runtime_memory::stack_memory::StackMemory;

/// Compiles source text, one line of the text for each line of the program.
fn compile_text(text: &str) -> Vec<u8> {
    let mut data = SymbolData::new();
    let file = data.add_file_name("program.why".to_string());
    for (index, line) in text.lines().enumerate() {
        match read_file_line(line).unwrap() {
            FileLine::Code(indentation, symbols) => data.add_line(file, index, indentation, symbols),
            FileLine::Import(_) => panic!("no imports here"),
        }
    }
    compile(&data).unwrap().memory
}

fn read(stack: &StackMemory, address: &Address, length: usize) -> Vec<u8> {
    match address {
        Address::Immediate(value) => value[..length].to_vec(),
        Address::StackDirect(offset) => stack.get_location(*offset)[..length].to_vec(),
        _ => panic!("only the stack is used"),
    }
}

fn write(stack: &mut StackMemory, address: &Address, data: &[u8]) {
    match address {
        Address::StackDirect(offset) => stack.write_location(*offset, data),
        _ => panic!("only the stack is written to"),
    }
}

/// Reads the operands of an instruction that works on `count` addresses and
/// a length, which stands after them: an immediate address has as many
/// bytes as the length says.
fn operands(cursor: &mut ProgramCursor, count: usize) -> (Vec<Address>, usize) {
    let start = cursor.position;
    let mut lengths = Vec::new();
    for candidate in [1usize, std::mem::size_of::<usize>()] {
        cursor.position = start;
        let mut addresses = Vec::new();
        let mut fits = true;
        for _ in 0..count {
            let code = cursor.program[cursor.position];
            if ![0u8, 2, 3, 5, 6, 8, 9].contains(&code) {
                fits = false;
                break;
            }
            addresses.push(cursor.get_address(Some(candidate)));
        }
        if fits && cursor.get_usize() == candidate {
            return (addresses, candidate);
        }
        lengths.push(candidate);
    }
    panic!("no length of {:?} fits the operands at {}", lengths, start);
}

/// Runs a program that uses the stack alone. Returns what it shows.
fn run(program: Vec<u8>) -> Vec<String> {
    let mut output = Vec::new();
    let mut stack = StackMemory::new();
    let mut cursor = ProgramCursor::new(program);
    let mut steps = 0;
    while cursor.position < cursor.program.len() {
        steps += 1;
        assert!(steps < 10_000, "the program does not end");
        match cursor.get_byte() {
            0 => {
                let size = cursor.get_usize();
                stack.add_stack(size);
            }
            1 => stack.stack_up(),
            4 => {
                if stack.current_stack == Some(0) {
                    break;
                }
                stack.stack_down();
            }
            3 => {
                let (addresses, length) = operands(&mut cursor, 2);
                let data = read(&stack, &addresses[0], length);
                write(&mut stack, &addresses[1], &data);
            }
            7 => {
                let (addresses, length) = operands(&mut cursor, 2);
                let data: Vec<u8> = read(&stack, &addresses[0], length).iter().map(|byte| !byte).collect();
                write(&mut stack, &addresses[1], &data);
            }
            code @ (8 | 12 | 13 | 14 | 15) => {
                let (addresses, length) = operands(&mut cursor, 3);
                let left = read(&stack, &addresses[0], length);
                let right = read(&stack, &addresses[1], length);
                let result: Vec<u8> = match code {
                    8 => left.iter().zip(&right).map(|(a, b)| a & b).collect(),
                    12 => left.iter().zip(&right).map(|(a, b)| a | b).collect(),
                    13 => {
                        let mut carry = 0u16;
                        left.iter()
                            .zip(&right)
                            .map(|(a, b)| {
                                let sum = *a as u16 + *b as u16 + carry;
                                carry = sum >> 8;
                                sum as u8
                            })
                            .collect()
                    }
                    14 => vec![if left == right { 0xFF } else { 0x00 }],
                    _ => vec![if left != right { 0xFF } else { 0x00 }],
                };
                write(&mut stack, &addresses[2], &result);
            }
            9 => {
                let condition = cursor.get_address(Some(1));
                let destination = cursor.get_usize();
                if read(&stack, &condition, 1)[0] == 0 {
                    cursor.position = destination;
                }
            }
            10 => cursor.position = cursor.get_usize(),
            11 => {
                let pointer = cursor.get_address(None);
                let target = read(&stack, &pointer, std::mem::size_of::<usize>());
                cursor.position = usize::from_le_bytes(target.try_into().unwrap());
            }
            16 => {
                let address = cursor.get_address(None);
                output.push(read(&stack, &address, 1)[0].to_string());
            }
            code => panic!("unexpected instruction {}", code),
        }
    }
    output
}

#[test]
fn boolean_program_shows_zero() {
    let program = compile_text("bool a = true\nbool b = false\nbool c = a & b\nviewmemdec c\n");
    assert_eq!(run(program), vec!["0"]);
}

#[test]
fn if_elif_else_takes_the_else_branch() {
    let text = "bool x = false\nif x\n    viewmemdec x\nelif x\n    viewmemdec x\nelse\n    bool y = true\n    viewmemdec y\n";
    assert_eq!(run(compile_text(text)), vec!["255"]);
    let text = "bool x = true\nif x\n    viewmemdec x\nelif x\n    viewmemdec x\nelse\n    bool y = false\n    viewmemdec y\nviewmemdec x\n";
    assert_eq!(run(compile_text(text)), vec!["255", "255"]);
}

#[test]
fn while_with_break_stops_at_five() {
    let text = "ptr i = 0 as ptr\nwhile i != (10 as ptr)\n    i += 1 as ptr\n    if i == (5 as ptr)\n        break\nviewmemdec i\n";
    assert_eq!(run(compile_text(text)), vec!["5"]);
}

#[test]
fn while_without_break_runs_to_the_end() {
    let text = "ptr i = 0 as ptr\nwhile i != (3 as ptr)\n    i += 1 as ptr\n    viewmemdec i\nviewmemdec i\n";
    assert_eq!(run(compile_text(text)), vec!["1", "2", "3", "3"]);
}

#[test]
fn continue_skips_the_rest_of_the_round() {
    let text = "ptr i = 0 as ptr\nwhile i != (3 as ptr)\n    i += 1 as ptr\n    if i == (2 as ptr)\n        continue\n    viewmemdec i\n";
    assert_eq!(run(compile_text(text)), vec!["1", "3"]);
}

#[test]
fn pointer_subtraction_shows_seven() {
    let text = "ptr a = 10 as ptr\nptr b = 3 as ptr\nptr c = a - b\nviewmemdec c\n";
    assert_eq!(run(compile_text(text)), vec!["7"]);
}

#[test]
fn source_text_of_a_call_with_one_argument_is_no_call() {
    assert!(get_symbols_from_line("f(7 as ptr)").is_ok());
    let mut data = SymbolData::new();
    let file = data.add_file_name("program.why".to_string());
    match read_file_line("f(7 as ptr)").unwrap() {
        FileLine::Code(indentation, symbols) => data.add_line(file, 0, indentation, symbols),
        FileLine::Import(_) => panic!("no imports here"),
    }
    assert_eq!(
        compile(&data).err(),
        Some("program.why - Line 1: The line is not of any known form".to_string())
    );
}

#[test]
fn a_called_function_shows_its_argument() {
    let name = |text: &str| Symbol::Name(vec![text.to_string()]);
    let mut data = SymbolData::new();
    let file = data.add_file_name("program.why".to_string());
    data.add_line(
        file,
        0,
        0,
        vec![
            Symbol::Block(Block::Function),
            name("g"),
            Symbol::List(vec![vec![Symbol::Type(TypeSymbol::Pointer), name("x")]]),
        ],
    );
    data.add_line(file, 1, 1, vec![Symbol::Keyword(Keyword::ViewMemoryDecimal), name("x")]);
    let argument = vec![
        Symbol::Literal(Literal::Int(7)),
        Symbol::Keyword(Keyword::As),
        Symbol::Type(TypeSymbol::Pointer),
    ];
    data.add_line(file, 2, 0, vec![name("g"), Symbol::List(vec![argument])]);
    assert_eq!(run(compile(&data).unwrap().memory), vec!["7"]);
}
