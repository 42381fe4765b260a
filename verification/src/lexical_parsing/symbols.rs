//! The symbols that lines of source text are made of.
use vstd::prelude::*;
use crate::util::{chars_equal, chars_of, spells, string_from_chars};

pub mod assigners;
pub mod blocks;
pub mod builtins;
pub mod keywords;
pub mod literals;
pub mod operators;
pub mod punctuation;
pub mod types;

pub use assigners::Assigner;
pub use assigners::AssignerSymbolHandler;
pub use blocks::Block;
pub use blocks::BlockSymbolHandler;
pub use builtins::Builtin;
pub use builtins::BuiltinSymbolHandler;
pub use keywords::Keyword;
pub use keywords::KeywordSymbolHandler;
pub use literals::Literal;
pub use literals::LiteralSymbolHandler;
pub use literals::LiteralView;
pub use literals::CHAR_DELIMITER;
pub use literals::STRING_DELIMITER;
pub use operators::Operator;
pub use operators::OperatorSymbolHandler;
pub use punctuation::Punctuation;
pub use punctuation::PunctuationSymbolHandler;
pub use punctuation::LIST_SEPARATOR_CHARACTER;
pub use types::TypeSymbol;
pub use types::TypeSymbolHandler;

verus! {

/// The character that separates the parts of a name.
pub const NAME_SEPARATOR: char = '.';

/// The name under which a class is known inside its own body.
pub const CLASS_SELF_NAME: &'static str = "self";

/// A symbol of a line of source text.
#[derive(PartialEq, Debug)]
pub enum Symbol {
    Assigner(Assigner),
    Literal(Literal),
    Operator(Operator),
    BracketedSection(Vec<Symbol>),
    Indexer(Box<Symbol>, Vec<Symbol>),
    List(Vec<Vec<Symbol>>),
    /// A value, the method called on it, and the arguments.
    MethodCall(Box<Symbol>, String, Vec<Vec<Symbol>>),
    Type(TypeSymbol),
    Block(Block),
    Builtin(Builtin),
    Punctuation(Punctuation),
    /// A dotted name, part by part: `alpha.bravo` is `[alpha, bravo]`.
    Name(Vec<String>),
    Keyword(Keyword),
}

/// The parts of a name as plain text.
pub open spec fn name_text(name: Seq<String>) -> Seq<Seq<char>> {
    Seq::new(name.len(), |i: int| name[i]@)
}

impl Symbol {
    /// The name of the kind of symbol in messages.
    pub open spec fn name(self) -> Seq<char> {
        match self {
            Symbol::Assigner(_) => "Assigner"@,
            Symbol::Literal(_) => "Literal"@,
            Symbol::Operator(_) => "Operator"@,
            Symbol::BracketedSection(_) => "BracketedSection"@,
            Symbol::Indexer(_, _) => "Indexer"@,
            Symbol::List(_) => "List"@,
            Symbol::MethodCall(_, _, _) => "MethodCall"@,
            Symbol::Type(_) => "Type"@,
            Symbol::Block(_) => "Block"@,
            Symbol::Builtin(_) => "Builtin"@,
            Symbol::Punctuation(_) => "Punctuation"@,
            Symbol::Name(_) => "Name"@,
            Symbol::Keyword(_) => "Keyword"@,
        }
    }

    /// The name of the kind of symbol in messages.
    pub fn get_name(&self) -> (name: &'static str)
        ensures
            name@ == self.name(),
    {
        match self {
            Symbol::Assigner(_) => "Assigner",
            Symbol::Literal(_) => "Literal",
            Symbol::Operator(_) => "Operator",
            Symbol::BracketedSection(_) => "BracketedSection",
            Symbol::Indexer(_, _) => "Indexer",
            Symbol::List(_) => "List",
            Symbol::MethodCall(_, _, _) => "MethodCall",
            Symbol::Type(_) => "Type",
            Symbol::Block(_) => "Block",
            Symbol::Builtin(_) => "Builtin",
            Symbol::Punctuation(_) => "Punctuation",
            Symbol::Name(_) => "Name",
            Symbol::Keyword(_) => "Keyword",
        }
    }

    /// The single part of a name that has no separator; a dotted name is
    /// refused.
    pub fn get_name_string(name: &[String]) -> (part: Result<String, String>)
        ensures
            name@.len() == 1 ==> part is Ok && part->Ok_0 == name@[0],
            name@.len() != 1 ==> part is Err && part->Err_0@ == "Name must not be a property"@,
    {
        if name.len() != 1 {
            return Err(String::from_str("Name must not be a property"));
        }
        Ok(name[0].clone())
    }
}

/// A recogniser of one kind of symbol.
pub trait SymbolHandler {
    /// True where `symbol` is what this recogniser makes of `string`.
    spec fn recognised(string: Seq<char>, symbol: Result<Option<Symbol>, String>) -> bool;

    /// Converts a string to a symbol. Returns `None` if no symbol of this kind
    /// matches the string.
    fn get_symbol(string: &str) -> (symbol: Result<Option<Symbol>, String>)
        ensures
            Self::recognised(string@, symbol),
    ;
}

/// A symbol as plain values.
pub enum SymbolView {
    Assigner(Assigner),
    Literal(LiteralView),
    Operator(Operator),
    BracketedSection(Seq<SymbolView>),
    Indexer(Box<SymbolView>, Seq<SymbolView>),
    List(Seq<Seq<SymbolView>>),
    MethodCall(Box<SymbolView>, Seq<char>, Seq<Seq<SymbolView>>),
    Type(TypeSymbol),
    Block(Block),
    Builtin(Builtin),
    Punctuation(Punctuation),
    Name(Seq<Seq<char>>),
    Keyword(Keyword),
}

/// A symbol as plain values.
pub open spec fn plain(symbol: Symbol) -> SymbolView
    decreases symbol,
{
    match symbol {
        Symbol::Assigner(assigner) => SymbolView::Assigner(assigner),
        Symbol::Literal(literal) => SymbolView::Literal(literal@),
        Symbol::Operator(operator) => SymbolView::Operator(operator),
        Symbol::BracketedSection(section) => SymbolView::BracketedSection(
            Seq::new(
                section@.len(),
                |i: int|
                    if 0 <= i < section@.len() {
                        plain(section@[i])
                    } else {
                        SymbolView::List(Seq::empty())
                    },
            ),
        ),
        Symbol::Indexer(applied_to, index) => SymbolView::Indexer(
            Box::new(plain(*applied_to)),
            Seq::new(
                index@.len(),
                |i: int|
                    if 0 <= i < index@.len() {
                        plain(index@[i])
                    } else {
                        SymbolView::List(Seq::empty())
                    },
            ),
        ),
        Symbol::List(items) => SymbolView::List(
            Seq::new(
                items@.len(),
                |i: int|
                    if 0 <= i < items@.len() {
                        Seq::new(
                            items@[i]@.len(),
                            |j: int|
                                if 0 <= j < items@[i]@.len() {
                                    plain(items@[i]@[j])
                                } else {
                                    SymbolView::List(Seq::empty())
                                },
                        )
                    } else {
                        Seq::empty()
                    },
            ),
        ),
        Symbol::MethodCall(value, method, arguments) => SymbolView::MethodCall(
            Box::new(plain(*value)),
            method@,
            Seq::new(
                arguments@.len(),
                |i: int|
                    if 0 <= i < arguments@.len() {
                        Seq::new(
                            arguments@[i]@.len(),
                            |j: int|
                                if 0 <= j < arguments@[i]@.len() {
                                    plain(arguments@[i]@[j])
                                } else {
                                    SymbolView::List(Seq::empty())
                                },
                        )
                    } else {
                        Seq::empty()
                    },
            ),
        ),
        Symbol::Type(type_symbol) => SymbolView::Type(type_symbol),
        Symbol::Block(block) => SymbolView::Block(block),
        Symbol::Builtin(builtin) => SymbolView::Builtin(builtin),
        Symbol::Punctuation(punctuation) => SymbolView::Punctuation(punctuation),
        Symbol::Name(name) => SymbolView::Name(name_text(name@)),
        Symbol::Keyword(keyword) => SymbolView::Keyword(keyword),
    }
}

impl View for Symbol {
    type V = SymbolView;

    open spec fn view(&self) -> SymbolView {
        plain(*self)
    }
}

/// A line of symbols as plain values.
pub open spec fn symbols_view(symbols: Seq<Symbol>) -> Seq<SymbolView> {
    Seq::new(symbols.len(), |i: int| symbols[i]@)
}

/// A list of lines of symbols as plain values.
pub open spec fn lists_view(lists: Seq<Vec<Symbol>>) -> Seq<Seq<SymbolView>> {
    Seq::new(lists.len(), |i: int| symbols_view(lists[i]@))
}

/// A section in brackets is, as plain values, its symbols as plain values;
/// the same holds of a list and of its items.
pub proof fn lemma_section_view(section: Vec<Symbol>)
    ensures
        Symbol::BracketedSection(section)@ == SymbolView::BracketedSection(
            symbols_view(section@),
        ),
{
    assert(Symbol::BracketedSection(section)@->BracketedSection_0 =~= symbols_view(section@));
}

/// A list is, as plain values, its items as plain values.
pub proof fn lemma_list_view(items: Vec<Vec<Symbol>>)
    ensures
        Symbol::List(items)@ == SymbolView::List(lists_view(items@)),
{
    let left = Symbol::List(items)@->List_0;
    let right = lists_view(items@);
    assert(left.len() == right.len());
    assert forall|i: int| 0 <= i < left.len() implies left[i] == right[i] by {
        assert(left[i] =~= right[i]);
    }
    assert(left =~= right);
}

/// An indexed value is, as plain values, the value and the index as plain
/// values.
pub proof fn lemma_indexer_view(applied_to: Box<Symbol>, index: Vec<Symbol>)
    ensures
        Symbol::Indexer(applied_to, index)@ == SymbolView::Indexer(
            Box::new((*applied_to)@),
            symbols_view(index@),
        ),
{
    assert(Symbol::Indexer(applied_to, index)@->Indexer_1 =~= symbols_view(index@));
}

/// True of the characters that a part of a name is made of.
pub open spec fn is_name_character(c: char) -> bool {
    ('a' <= c && c <= 'z') || c == '_'
}

/// The first character from `from` on that neither belongs to a name nor
/// separates its parts.
pub open spec fn first_foreign_character(text: Seq<char>, from: int) -> Option<char>
    decreases text.len() - from,
{
    if from < 0 || from >= text.len() {
        None
    } else if text[from] != NAME_SEPARATOR && !is_name_character(text[from]) {
        Some(text[from])
    } else {
        first_foreign_character(text, from + 1)
    }
}

/// The parts of a dotted name from `from` on, where `part` is what has been
/// read of the current part.
pub open spec fn split_name(text: Seq<char>, from: int, part: Seq<char>) -> Seq<Seq<char>>
    decreases text.len() - from,
{
    if from < 0 || from >= text.len() {
        seq![part]
    } else if text[from] == NAME_SEPARATOR {
        seq![part] + split_name(text, from + 1, Seq::empty())
    } else {
        split_name(text, from + 1, part.push(text[from]))
    }
}

/// True of the words that cannot be part of a name: `self` and the
/// keywords.
pub open spec fn is_reserved(part: Seq<char>) -> bool {
    part == CLASS_SELF_NAME@ || keywords::keyword_of(part) is Some
}

/// The first part from `from` on that is reserved.
pub open spec fn first_reserved(parts: Seq<Seq<char>>, from: int) -> Option<Seq<char>>
    decreases parts.len() - from,
{
    if from < 0 || from >= parts.len() {
        None
    } else if is_reserved(parts[from]) {
        Some(parts[from])
    } else {
        first_reserved(parts, from + 1)
    }
}

pub open spec fn foreign_character_message(text: Seq<char>, c: char) -> Seq<char> {
    "Symbol '"@ + text + "' not recognised and is not a valid name as it contains the character '"@
        + seq![c] + "'"@
}

pub open spec fn reserved_message(part: Seq<char>) -> Seq<char> {
    "Name '"@ + part + "' is reserved"@
}

/// The name that a text spells: its parts, which are separated by dots.
/// Fails where the text holds a character that no name holds, or a part is
/// reserved.
pub open spec fn name_of(text: Seq<char>) -> Result<SymbolView, Seq<char>> {
    match first_foreign_character(text, 0) {
        Some(c) => Err(foreign_character_message(text, c)),
        None => match first_reserved(split_name(text, 0, Seq::empty()), 0) {
            Some(part) => Err(reserved_message(part)),
            None => Ok(SymbolView::Name(split_name(text, 0, Seq::empty()))),
        },
    }
}

/// The symbol that a text spells: the first of an assignment operator, an
/// operator, a type, a word that opens a block, a built-in operation, a
/// literal, a punctuation mark and a keyword that the text spells; a name
/// where it spells none of them.
pub open spec fn symbol_of(text: Seq<char>) -> Result<SymbolView, Seq<char>> {
    if assigners::assigner_of(text) is Some {
        Ok(SymbolView::Assigner(assigners::assigner_of(text)->0))
    } else if operators::operator_of(text) is Some {
        Ok(SymbolView::Operator(operators::operator_of(text)->0))
    } else if types::type_symbol_of(text) is Some {
        Ok(SymbolView::Type(types::type_symbol_of(text)->0))
    } else if blocks::block_of(text) is Some {
        Ok(SymbolView::Block(blocks::block_of(text)->0))
    } else if builtins::builtin_of(text) is Some {
        Ok(SymbolView::Builtin(builtins::builtin_of(text)->0))
    } else {
        match literals::literal_of(text) {
            Err(message) => Err(message),
            Ok(Some(literal)) => Ok(SymbolView::Literal(literal)),
            Ok(None) => if punctuation::punctuation_of(text) is Some {
                Ok(SymbolView::Punctuation(punctuation::punctuation_of(text)->0))
            } else if keywords::keyword_of(text) is Some {
                Ok(SymbolView::Keyword(keywords::keyword_of(text)->0))
            } else {
                name_of(text)
            },
        }
    }
}

/// True where `result` is a symbol that, as plain values, is `expected`, or
/// the failure that `expected` is.
pub open spec fn spells_symbol(result: Result<Symbol, String>, expected: Result<
    SymbolView,
    Seq<char>,
>) -> bool {
    match expected {
        Ok(symbol) => result is Ok && result->Ok_0@ == symbol,
        Err(message) => result is Err && result->Err_0@ == message,
    }
}

fn is_name_char(c: char) -> (belongs: bool)
    ensures
        belongs == is_name_character(c),
{
    ('a' <= c && c <= 'z') || c == '_'
}

#[verifier::loop_isolation(false)]
fn get_name(word: &Vec<char>, string: &str) -> (name: Result<Symbol, String>)
    requires
        word@ == string@,
    ensures
        spells_symbol(name, name_of(word@)),
{
    let mut i: usize = 0;
    while i < word.len()
        invariant
            i <= word@.len(),
            first_foreign_character(word@, 0) == first_foreign_character(word@, i as int),
        decreases word@.len() - i,
    {
        let c = word[i];
        if c != NAME_SEPARATOR && !is_name_char(c) {
            let mut message = String::from_str("Symbol '");
            message.append(string);
            message.append(
                "' not recognised and is not a valid name as it contains the character '",
            );
            let mut single: Vec<char> = Vec::new();
            single.push(c);
            assert(single@ =~= seq![c]);
            message.append(string_from_chars(&single).as_str());
            message.append("'");
            return Err(message);
        }
        i = i + 1;
    }
    let mut parts: Vec<String> = Vec::new();
    let mut part: Vec<char> = Vec::new();
    let mut k: usize = 0;
    while k < word.len()
        invariant
            k <= word@.len(),
            split_name(word@, 0, Seq::empty()) == name_text(parts@) + split_name(
                word@,
                k as int,
                part@,
            ),
        decreases word@.len() - k,
    {
        let ghost done = name_text(parts@);
        let ghost current = part@;
        if word[k] == NAME_SEPARATOR {
            parts.push(string_from_chars(&part));
            part = Vec::new();
            assert(name_text(parts@) =~= done.push(current));
            assert(done + (seq![current] + split_name(word@, k + 1, Seq::empty())) =~= name_text(
                parts@,
            ) + split_name(word@, k + 1, part@));
        } else {
            part.push(word[k]);
        }
        k = k + 1;
    }
    let ghost done = name_text(parts@);
    parts.push(string_from_chars(&part));
    assert(name_text(parts@) =~= done + seq![part@]);
    let self_name = chars_of(CLASS_SELF_NAME);
    let mut n: usize = 0;
    while n < parts.len()
        invariant
            n <= parts@.len(),
            self_name@ == CLASS_SELF_NAME@,
            first_reserved(name_text(parts@), 0) == first_reserved(name_text(parts@), n as int),
        decreases parts@.len() - n,
    {
        let candidate = chars_of(parts[n].as_str());
        assert(name_text(parts@)[n as int] == candidate@);
        let keyword = KeywordSymbolHandler::get_symbol(parts[n].as_str());
        let reserved = chars_equal(&candidate, &self_name) || match keyword {
            Ok(Some(_)) => true,
            _ => false,
        };
        if reserved {
            let mut message = String::from_str("Name '");
            message.append(parts[n].as_str());
            message.append("' is reserved");
            return Err(message);
        }
        n = n + 1;
    }
    Ok(Symbol::Name(parts))
}

/// Recognises every kind of symbol.
pub struct AllSymbolHandler {}

impl AllSymbolHandler {
    /// The symbol that `string` spells.
    pub fn get_symbol(string: &str) -> (symbol: Result<Symbol, String>)
        ensures
            spells_symbol(symbol, symbol_of(string@)),
    {
        match AssignerSymbolHandler::get_symbol(string) {
            Ok(Some(symbol)) => {
                return Ok(symbol);
            },
            _ => {},
        }
        match OperatorSymbolHandler::get_symbol(string) {
            Ok(Some(symbol)) => {
                return Ok(symbol);
            },
            _ => {},
        }
        match TypeSymbolHandler::get_symbol(string) {
            Ok(Some(symbol)) => {
                return Ok(symbol);
            },
            _ => {},
        }
        match BlockSymbolHandler::get_symbol(string) {
            Ok(Some(symbol)) => {
                return Ok(symbol);
            },
            _ => {},
        }
        match BuiltinSymbolHandler::get_symbol(string) {
            Ok(Some(symbol)) => {
                return Ok(symbol);
            },
            _ => {},
        }
        match literals::LiteralSymbolHandler::get_symbol(string) {
            Ok(Some(symbol)) => {
                return Ok(symbol);
            },
            Ok(None) => {},
            Err(message) => {
                return Err(message);
            },
        }
        match PunctuationSymbolHandler::get_symbol(string) {
            Ok(Some(symbol)) => {
                return Ok(symbol);
            },
            _ => {},
        }
        match KeywordSymbolHandler::get_symbol(string) {
            Ok(Some(symbol)) => {
                return Ok(symbol);
            },
            _ => {},
        }
        let word = chars_of(string);
        get_name(&word, string)
    }
}

/// Converts a string to a symbol.
pub fn get_all_symbol(string: &str) -> (symbol: Result<Symbol, String>)
    ensures
        spells_symbol(symbol, symbol_of(string@)),
{
    AllSymbolHandler::get_symbol(string)
}

pub open spec fn parameters_format_message() -> Seq<char> {
    "Parameters must be formatted ([Type] [Name] , [Type] [Name] , [...])"@
}

pub open spec fn property_name_message() -> Seq<char> {
    "Name must not be a property"@
}

/// The parameters that the symbols from `from` on declare: a type and a
/// name for each, with a list separator between one parameter and the next.
pub open spec fn parameters_from(list: Seq<SymbolView>, from: int) -> Result<
    Seq<(TypeSymbol, Seq<char>)>,
    Seq<char>,
>
    decreases list.len() + 3 - from,
{
    if from < 0 || from >= list.len() {
        Ok(Seq::empty())
    } else if list.len() - from == 1 || !(list[from] is Type) {
        Err(parameters_format_message())
    } else {
        match list[from + 1] {
            SymbolView::Name(name) => if name.len() != 1 {
                Err(property_name_message())
            } else if from + 2 < list.len() && !(list[from + 2] matches SymbolView::Punctuation(
                Punctuation::ListSeparator,
            )) {
                Err(parameters_format_message())
            } else {
                match parameters_from(list, from + 3) {
                    Err(message) => Err(message),
                    Ok(rest) => Ok(seq![(list[from]->Type_0, name[0])] + rest),
                }
            },
            _ => Err(parameters_format_message()),
        }
    }
}

/// The parameters with those that were read before them.
pub open spec fn after_parameters(
    read: Seq<(TypeSymbol, Seq<char>)>,
    rest: Result<Seq<(TypeSymbol, Seq<char>)>, Seq<char>>,
) -> Result<Seq<(TypeSymbol, Seq<char>)>, Seq<char>> {
    match rest {
        Ok(parameters) => Ok(read + parameters),
        Err(message) => Err(message),
    }
}

/// The parameters as plain values.
pub open spec fn parameters_view(parameters: Seq<(TypeSymbol, String)>) -> Seq<
    (TypeSymbol, Seq<char>),
> {
    Seq::new(parameters.len(), |i: int| (parameters[i].0, parameters[i].1@))
}

fn parameters_format_error() -> (message: String)
    ensures
        message@ == parameters_format_message(),
{
    String::from_str("Parameters must be formatted ([Type] [Name] , [Type] [Name] , [...])")
}

/// Converts a section in brackets into a list of parameters.
#[verifier::loop_isolation(false)]
pub fn try_bracketed_into_parameters(bracketed: &Symbol) -> (parameters: Result<Literal, String>)
    requires
        bracketed is BracketedSection,
    ensures
        match parameters_from(symbols_view(bracketed->BracketedSection_0@), 0) {
            Ok(expected) => parameters is Ok && parameters->Ok_0@ == LiteralView::ParameterList(
                expected,
            ),
            Err(message) => parameters is Err && parameters->Err_0@ == message,
        },
{
    let list = match bracketed {
        Symbol::BracketedSection(list) => list,
        _ => {
            return Err(parameters_format_error());
        },
    };
    let ghost all = symbols_view(list@);
    let mut parameter_list: Vec<(TypeSymbol, String)> = Vec::new();
    let length: usize = list.len();
    let mut i: usize = 0;
    proof {
        assert(parameters_view(parameter_list@) =~= Seq::<(TypeSymbol, Seq<char>)>::empty());
        assert(after_parameters(parameters_view(parameter_list@), parameters_from(all, 0))
            == parameters_from(all, 0)) by {
            match parameters_from(all, 0) {
                Ok(found) => {
                    assert(parameters_view(parameter_list@) + found =~= found);
                },
                Err(_) => {},
            }
        }
    }
    while i < length
        invariant
            i <= length,
            parameters_from(all, 0) == after_parameters(
                parameters_view(parameter_list@),
                parameters_from(all, i as int),
            ),
        decreases length - i,
    {
        if length - i == 1 {
            return Err(parameters_format_error());
        }
        assert(all[i as int] == list@[i as int]@);
        assert(all[i + 1] == list@[i + 1]@);
        let type_symbol = match &list[i] {
            Symbol::Type(type_symbol) => *type_symbol,
            _ => {
                return Err(parameters_format_error());
            },
        };
        let name = match &list[i + 1] {
            Symbol::Name(name) => match Symbol::get_name_string(name.as_slice()) {
                Ok(name) => name,
                Err(message) => {
                    return Err(message);
                },
            },
            _ => {
                return Err(parameters_format_error());
            },
        };
        if length - i > 2 {
            assert(all[i + 2] == list@[i + 2]@);
            match &list[i + 2] {
                Symbol::Punctuation(Punctuation::ListSeparator) => {},
                _ => {
                    return Err(parameters_format_error());
                },
            }
        }
        let ghost read = parameters_view(parameter_list@);
        parameter_list.push((type_symbol, name));
        proof {
            assert(parameters_view(parameter_list@) =~= read.push((type_symbol, name@)));
            match parameters_from(all, i + 3) {
                Ok(rest) => {
                    assert(read + (seq![(type_symbol, name@)] + rest) =~= parameters_view(
                        parameter_list@,
                    ) + rest);
                },
                Err(_) => {},
            }
        }
        if length - i <= 3 {
            i = length;
        } else {
            i = i + 3;
        }
    }
    proof {
        assert(parameters_view(parameter_list@) + Seq::<(TypeSymbol, Seq<char>)>::empty()
            =~= parameters_view(parameter_list@));
    }
    Ok(Literal::ParameterList(parameter_list))
}

/// A copy of a name.
fn duplicate_name(name: &Vec<String>) -> (copy: Vec<String>)
    ensures
        copy@ == name@,
{
    crate::util::clone_name(name)
}

/// A copy of a line of symbols.
pub fn duplicate_symbols(symbols: &Vec<Symbol>) -> (copy: Vec<Symbol>)
    ensures
        symbols_view(copy@) == symbols_view(symbols@),
    decreases symbols,
{
    let mut copy: Vec<Symbol> = Vec::new();
    let mut i: usize = 0;
    while i < symbols.len()
        invariant
            i <= symbols@.len(),
            copy@.len() == i,
            forall|k: int| 0 <= k < i ==> (#[trigger] copy@[k])@ == symbols@[k]@,
        decreases symbols@.len() - i,
    {
        copy.push(symbols[i].duplicate());
        i = i + 1;
    }
    assert(symbols_view(copy@) =~= symbols_view(symbols@));
    copy
}

/// A copy of a list of lines of symbols.
pub fn duplicate_lists(lists: &Vec<Vec<Symbol>>) -> (copy: Vec<Vec<Symbol>>)
    ensures
        lists_view(copy@) == lists_view(lists@),
    decreases lists,
{
    let mut copy: Vec<Vec<Symbol>> = Vec::new();
    let mut i: usize = 0;
    while i < lists.len()
        invariant
            i <= lists@.len(),
            copy@.len() == i,
            forall|k: int|
                0 <= k < i ==> symbols_view((#[trigger] copy@[k])@) == symbols_view(lists@[k]@),
        decreases lists@.len() - i,
    {
        copy.push(duplicate_symbols(&lists[i]));
        i = i + 1;
    }
    assert(lists_view(copy@) =~= lists_view(lists@));
    copy
}

impl Literal {
    /// A copy of the literal.
    pub fn duplicate(&self) -> (copy: Literal)
        ensures
            copy@ == self@,
    {
        match self {
            Literal::String(text) => Literal::String(text.clone()),
            Literal::Char(c) => Literal::Char(*c),
            Literal::Int(value) => Literal::Int(*value),
            Literal::Bool(value) => Literal::Bool(*value),
            Literal::ParameterList(parameters) => {
                let mut copy: Vec<(TypeSymbol, String)> = Vec::new();
                let mut i: usize = 0;
                while i < parameters.len()
                    invariant
                        i <= parameters@.len(),
                        copy@.len() == i,
                        forall|k: int| 0 <= k < i ==> (#[trigger] copy@[k]) == parameters@[k],
                    decreases parameters@.len() - i,
                {
                    copy.push((parameters[i].0, parameters[i].1.clone()));
                    i = i + 1;
                }
                let literal = Literal::ParameterList(copy);
                assert(literal@->ParameterList_0 =~= self@->ParameterList_0);
                literal
            },
            Literal::NoneValue => Literal::NoneValue,
        }
    }
}

impl Symbol {
    /// A copy of the symbol, which spells the same.
    pub fn duplicate(&self) -> (copy: Symbol)
        ensures
            copy@ == self@,
        decreases self,
    {
        match self {
            Symbol::Assigner(assigner) => Symbol::Assigner(*assigner),
            Symbol::Literal(literal) => Symbol::Literal(literal.duplicate()),
            Symbol::Operator(operator) => Symbol::Operator(*operator),
            Symbol::BracketedSection(section) => {
                let copy = duplicate_symbols(section);
                proof {
                    lemma_section_view(copy);
                    lemma_section_view(*section);
                }
                Symbol::BracketedSection(copy)
            },
            Symbol::Indexer(applied_to, index) => {
                let applied = Box::new((**applied_to).duplicate());
                let copy = duplicate_symbols(index);
                proof {
                    lemma_indexer_view(applied, copy);
                    lemma_indexer_view(*applied_to, *index);
                }
                Symbol::Indexer(applied, copy)
            },
            Symbol::List(items) => {
                let copy = duplicate_lists(items);
                proof {
                    lemma_list_view(copy);
                    lemma_list_view(*items);
                }
                Symbol::List(copy)
            },
            Symbol::MethodCall(value, method, arguments) => {
                let copied = Box::new((**value).duplicate());
                let copy = duplicate_lists(arguments);
                let name = method.clone();
                proof {
                    lemma_method_call_view(copied, name, copy);
                    lemma_method_call_view(*value, *method, *arguments);
                }
                Symbol::MethodCall(copied, name, copy)
            },
            Symbol::Type(symbol) => Symbol::Type(*symbol),
            Symbol::Block(block) => Symbol::Block(*block),
            Symbol::Builtin(builtin) => Symbol::Builtin(*builtin),
            Symbol::Punctuation(punctuation) => Symbol::Punctuation(*punctuation),
            Symbol::Name(name) => Symbol::Name(duplicate_name(name)),
            Symbol::Keyword(keyword) => Symbol::Keyword(*keyword),
        }
    }
}

/// A method call is, as plain values, the value, the name of the method
/// and the arguments as plain values.
pub proof fn lemma_method_call_view(value: Box<Symbol>, method: String, arguments: Vec<Vec<Symbol>>)
    ensures
        Symbol::MethodCall(value, method, arguments)@ == SymbolView::MethodCall(
            Box::new((*value)@),
            method@,
            lists_view(arguments@),
        ),
{
    let left = Symbol::MethodCall(value, method, arguments)@->MethodCall_2;
    let right = lists_view(arguments@);
    assert(left.len() == right.len());
    assert forall|i: int| 0 <= i < left.len() implies left[i] == right[i] by {
        assert(left[i] =~= right[i]);
    }
    assert(left =~= right);
}

} // verus!
