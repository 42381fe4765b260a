use why_compiler::lexical_parsing::preprocessor::{
    get_bracketed_symbols_type, get_symbols_from_line, read_file_line, FileLine,
};
use why_compiler::lexical_parsing::symbols::literals::format_escape_codes;
use why_compiler::lexical_parsing::symbols::{
    get_all_symbol, try_bracketed_into_parameters, Assigner, Block, Keyword, Literal, Operator,
    Punctuation, Symbol, TypeSymbol,
};

fn name(text: &str) -> Symbol {
    Symbol::Name(text.split('.').map(|part| part.to_string()).collect())
}

#[test]
fn words_of_each_kind_are_recognised() {
    assert_eq!(get_all_symbol("+="), Ok(Symbol::Assigner(Assigner::AdditionSetter)));
    assert_eq!(get_all_symbol("!="), Ok(Symbol::Operator(Operator::NotEqual)));
    assert_eq!(get_all_symbol("ptr"), Ok(Symbol::Type(TypeSymbol::Pointer)));
    assert_eq!(get_all_symbol("elif"), Ok(Symbol::Block(Block::Elif)));
    assert_eq!(get_all_symbol("viewmemdec"), Ok(Symbol::Keyword(Keyword::ViewMemoryDecimal)));
    assert_eq!(get_all_symbol(","), Ok(Symbol::Punctuation(Punctuation::ListSeparator)));
    assert_eq!(get_all_symbol("alpha.bravo"), Ok(name("alpha.bravo")));
}

#[test]
fn literals_are_recognised() {
    assert_eq!(get_all_symbol("true"), Ok(Symbol::Literal(Literal::Bool(true))));
    assert_eq!(get_all_symbol("none"), Ok(Symbol::Literal(Literal::NoneValue)));
    assert_eq!(get_all_symbol("-12"), Ok(Symbol::Literal(Literal::Int(-12))));
    assert_eq!(get_all_symbol("+007"), Ok(Symbol::Literal(Literal::Int(7))));
    assert_eq!(
        get_all_symbol("170141183460469231731687303715884105727"),
        Ok(Symbol::Literal(Literal::Int(i128::MAX)))
    );
    assert_eq!(
        get_all_symbol("-170141183460469231731687303715884105728"),
        Ok(Symbol::Literal(Literal::Int(i128::MIN)))
    );
    assert_eq!(
        get_all_symbol("\"a\\nb\""),
        Ok(Symbol::Literal(Literal::String("a\nb".to_string())))
    );
    assert_eq!(get_all_symbol("'x'"), Ok(Symbol::Literal(Literal::Char('x'))));
}

#[test]
fn integers_agree_with_the_standard_library() {
    for text in ["0", "-0", "+5", "12345678901234567890", "170141183460469231731687303715884105728", "-", "+", "", "1a"] {
        let expected = text.parse::<i128>().ok();
        if text.is_empty() {
            continue;
        }
        let found = match get_all_symbol(text) {
            Ok(Symbol::Literal(Literal::Int(value))) => Some(value),
            _ => None,
        };
        assert_eq!(found, expected, "{}", text);
    }
}

#[test]
fn bad_words_are_refused() {
    assert_eq!(
        get_all_symbol("Abc"),
        Err("Symbol 'Abc' not recognised and is not a valid name as it contains the character 'A'".to_string())
    );
    assert_eq!(get_all_symbol("a.self"), Err("Name 'self' is reserved".to_string()));
    assert_eq!(get_all_symbol("a.break"), Err("Name 'break' is reserved".to_string()));
    assert_eq!(
        get_all_symbol("'xy'"),
        Err("Char literals cannot contain multiple chars".to_string())
    );
}

#[test]
fn escape_codes_are_replaced() {
    assert_eq!(format_escape_codes("a\\nb\\\\c\\0\\\"\\'\\q\\".to_string()), "a\nb\\c\0\"'q");
}

#[test]
fn a_line_is_split_into_symbols() {
    assert_eq!(
        get_symbols_from_line("ptr c = a - (b + 1) # comment"),
        Ok(vec![
            Symbol::Type(TypeSymbol::Pointer),
            name("c"),
            Symbol::Assigner(Assigner::Setter),
            name("a"),
            Symbol::Operator(Operator::Subtract),
            Symbol::BracketedSection(vec![
                name("b"),
                Symbol::Operator(Operator::Add),
                Symbol::Literal(Literal::Int(1)),
            ]),
        ])
    );
}

#[test]
fn brackets_become_sections_lists_and_indexers() {
    assert_eq!(get_symbols_from_line("f()"), Ok(vec![name("f"), Symbol::List(vec![])]));
    assert_eq!(
        get_symbols_from_line("f(a, (b))"),
        Ok(vec![
            name("f"),
            Symbol::List(vec![vec![name("a")], vec![Symbol::BracketedSection(vec![name("b")])]]),
        ])
    );
    assert_eq!(
        get_symbols_from_line("a[b]"),
        Ok(vec![Symbol::Indexer(Box::new(name("a")), vec![name("b")])])
    );
    assert_eq!(
        get_bracketed_symbols_type(vec![
            name("a"),
            Symbol::Punctuation(Punctuation::ListSeparator),
            Symbol::Punctuation(Punctuation::ListSeparator),
            name("b"),
            Symbol::Punctuation(Punctuation::ListSeparator),
        ]),
        Symbol::List(vec![vec![name("a")], vec![], vec![name("b")]])
    );
}

#[test]
fn strings_keep_brackets_and_comment_characters() {
    assert_eq!(
        get_symbols_from_line("x = \"a (b) # \\\" c\""),
        Ok(vec![
            name("x"),
            Symbol::Assigner(Assigner::Setter),
            Symbol::Literal(Literal::String("a (b) # \" c".to_string())),
        ])
    );
}

#[test]
fn bad_lines_are_refused() {
    assert_eq!(get_symbols_from_line("a \"b"), Err("Unclosed string".to_string()));
    assert_eq!(get_symbols_from_line("(a"), Err("Unclosed brackets".to_string()));
    assert_eq!(
        get_symbols_from_line("a)"),
        Err("Closing bracket found with no corresponding opening bracket".to_string())
    );
    assert_eq!(
        get_symbols_from_line("a]"),
        Err("Closing indexing bracket found with no corresponding opening bracket".to_string())
    );
    assert_eq!(
        get_symbols_from_line("[a]"),
        Err("Indexers must be applied to something".to_string())
    );
}

#[test]
fn parameters_are_read_from_a_section() {
    let section = Symbol::BracketedSection(vec![
        Symbol::Type(TypeSymbol::Boolean),
        name("a"),
        Symbol::Punctuation(Punctuation::ListSeparator),
        Symbol::Type(TypeSymbol::Pointer),
        name("b"),
    ]);
    assert_eq!(
        try_bracketed_into_parameters(&section),
        Ok(Literal::ParameterList(vec![
            (TypeSymbol::Boolean, "a".to_string()),
            (TypeSymbol::Pointer, "b".to_string()),
        ]))
    );
    assert_eq!(
        try_bracketed_into_parameters(&Symbol::BracketedSection(vec![])),
        Ok(Literal::ParameterList(vec![]))
    );
    let format = "Parameters must be formatted ([Type] [Name] , [Type] [Name] , [...])".to_string();
    assert_eq!(
        try_bracketed_into_parameters(&Symbol::BracketedSection(vec![Symbol::Type(TypeSymbol::Boolean)])),
        Err(format.clone())
    );
    assert_eq!(
        try_bracketed_into_parameters(&Symbol::BracketedSection(vec![
            Symbol::Type(TypeSymbol::Boolean),
            name("a.b"),
        ])),
        Err("Name must not be a property".to_string())
    );
    assert_eq!(
        try_bracketed_into_parameters(&Symbol::BracketedSection(vec![
            Symbol::Type(TypeSymbol::Boolean),
            name("a"),
            name("b"),
        ])),
        Err(format)
    );
}

#[test]
fn lines_of_a_file_are_read() {
    match read_file_line("    \tdump").unwrap() {
        FileLine::Code(indentation, symbols) => {
            assert_eq!(indentation, 2);
            assert_eq!(symbols, vec![Symbol::Keyword(Keyword::Dump)]);
        }
        FileLine::Import(_) => panic!("not an import"),
    }
    match read_file_line("import lib.math.why").unwrap() {
        FileLine::Import(path) => assert_eq!(path, "lib/math.why"),
        FileLine::Code(_, _) => panic!("an import"),
    }
    assert_eq!(
        read_file_line("  dump").err(),
        Some("Indentation must be a multiple of 4 spaces or single tabs".to_string())
    );
    assert_eq!(
        read_file_line("    import a.why").err(),
        Some("Import statements cannot be indented".to_string())
    );
    assert_eq!(
        read_file_line("import a.txt").err(),
        Some("File extension must be .why".to_string())
    );
    assert_eq!(
        read_file_line("import a b").err(),
        Some("Import statements must be formatted import [file name]".to_string())
    );
}

#[test]
fn copies_of_symbols_are_equal() {
    let symbols = get_symbols_from_line("f(a, (b + 1))[\"x\"] = 'c' -3 none").unwrap();
    for symbol in &symbols {
        assert_eq!(&symbol.duplicate(), symbol);
    }
    let parameters = Literal::ParameterList(vec![(TypeSymbol::Boolean, "a".to_string())]);
    assert_eq!(parameters.duplicate(), parameters);
}
