//! Lines of symbols, and the files that they come from.
use vstd::prelude::*;
use crate::lexical_parsing::simple_line_error::{line_path, line_path_text};
use crate::lexical_parsing::symbols::{
    get_all_symbol, lemma_indexer_view, lemma_list_view, lemma_section_view, lists_view,
    symbol_of, symbols_view, Punctuation, Symbol, SymbolView, CHAR_DELIMITER,
    LIST_SEPARATOR_CHARACTER, STRING_DELIMITER,
};
use crate::lexical_parsing::symbols::literals::STRING_ESCAPE_CHAR;
use crate::lexical_parsing::symbols::Keyword;
use crate::util::{chars_of, join_file_name, joined_text, str_equal, string_from_chars};

verus! {

/// A line of a file as symbols.
pub struct Line {
    /// Which of the files read so far the line comes from.
    pub file_name_index: usize,
    /// The number of the line in its file, counted from 0.
    pub line_index: usize,
    /// The level of indentation.
    pub indentation: usize,
    pub symbols: Vec<Symbol>,
}

impl Line {
    pub fn new(file_name_index: usize, line_index: usize, indentation: usize, symbols: Vec<Symbol>)
        -> (line: Line)
        ensures
            line.file_name_index == file_name_index,
            line.line_index == line_index,
            line.indentation == indentation,
            line.symbols == symbols,
    {
        Line { file_name_index, line_index, indentation, symbols }
    }
}

/// The lines of a program, and the names of the files that they come from.
pub struct SymbolData {
    pub file_names: Vec<String>,
    pub lines: Vec<Line>,
}

impl SymbolData {
    /// True where the line `line_index` comes from a file that is known.
    pub open spec fn names_file(self, line_index: int) -> bool {
        0 <= line_index < self.lines@.len() && self.lines@[line_index].file_name_index
            < self.file_names@.len()
    }

    /// The place of the line `line_index` in messages.
    pub open spec fn error_path(self, line_index: int) -> Seq<char> {
        line_path(
            self.file_names@[self.lines@[line_index].file_name_index as int]@,
            self.lines@[line_index].line_index,
        )
    }

    /// No files and no lines.
    pub fn new() -> (data: SymbolData)
        ensures
            data.file_names@.len() == 0,
            data.lines@.len() == 0,
    {
        SymbolData { file_names: Vec::new(), lines: Vec::new() }
    }

    /// Adds a file. Returns its index.
    pub fn add_file_name(&mut self, file_name: String) -> (index: usize)
        ensures
            index == old(self).file_names@.len(),
            final(self).file_names@ == old(self).file_names@.push(file_name),
            final(self).lines == old(self).lines,
    {
        self.file_names.push(file_name);
        self.file_names.len() - 1
    }

    /// Adds a line.
    pub fn add_line(
        &mut self,
        file_name_index: usize,
        line_index: usize,
        indentation: usize,
        line: Vec<Symbol>,
    )
        ensures
            final(self).file_names == old(self).file_names,
            final(self).lines@ == old(self).lines@.push(
                Line { file_name_index, line_index, indentation, symbols: line },
            ),
    {
        self.lines.push(Line::new(file_name_index, line_index, indentation, line))
    }

    /// The place of the line `line_index` in messages.
    pub fn get_error_path(&self, line_index: usize) -> (path: String)
        requires
            self.names_file(line_index as int),
        ensures
            path@ == self.error_path(line_index as int),
    {
        line_path_text(
            self.file_names[self.lines[line_index].file_name_index].as_str(),
            self.lines[line_index].line_index,
        )
    }
}

pub const COMMENT_CHARACTER: char = '#';

pub const OPEN_BRACKET_CHARACTER: char = '(';

pub const CLOSE_BRACKET_CHARACTER: char = ')';

pub const OPEN_INDEXER_CHARACTER: char = '[';

pub const CLOSE_INDEXER_CHARACTER: char = ']';

/// True of the list separator.
pub open spec fn is_separator(symbol: SymbolView) -> bool {
    symbol matches SymbolView::Punctuation(Punctuation::ListSeparator)
}

/// True where a symbol from `from` on is a list separator.
pub open spec fn has_separator(symbols: Seq<SymbolView>, from: int) -> bool
    decreases symbols.len() - from,
{
    if from < 0 || from >= symbols.len() {
        false
    } else if is_separator(symbols[from]) {
        true
    } else {
        has_separator(symbols, from + 1)
    }
}

/// The items of a list from `from` on, where `item` is what has been read
/// of the current item. Separators end items; what follows the last
/// separator is an item unless it is empty.
pub open spec fn split_items(symbols: Seq<SymbolView>, from: int, item: Seq<SymbolView>) -> Seq<
    Seq<SymbolView>,
>
    decreases symbols.len() - from,
{
    if from < 0 || from >= symbols.len() {
        if item.len() == 0 {
            Seq::empty()
        } else {
            seq![item]
        }
    } else if is_separator(symbols[from]) {
        seq![item] + split_items(symbols, from + 1, Seq::empty())
    } else {
        split_items(symbols, from + 1, item.push(symbols[from]))
    }
}

/// What stood in brackets, as a symbol: an empty list for nothing, a list
/// of the items where there are separators, and a section otherwise.
pub open spec fn bracketed_of(symbols: Seq<SymbolView>) -> SymbolView {
    if symbols.len() == 0 {
        SymbolView::List(Seq::empty())
    } else if !has_separator(symbols, 0) {
        SymbolView::BracketedSection(symbols)
    } else {
        SymbolView::List(split_items(symbols, 0, Seq::empty()))
    }
}

fn separates(symbol: &Symbol) -> (separator: bool)
    ensures
        separator == is_separator(symbol@),
{
    match symbol {
        Symbol::Punctuation(Punctuation::ListSeparator) => true,
        _ => false,
    }
}

/// What stood in brackets, as a symbol.
#[verifier::loop_isolation(false)]
pub fn get_bracketed_symbols_type(symbols: Vec<Symbol>) -> (symbol: Symbol)
    ensures
        symbol@ == bracketed_of(symbols_view(symbols@)),
{
    let ghost all = symbols_view(symbols@);
    if symbols.len() == 0 {
        let items: Vec<Vec<Symbol>> = Vec::new();
        proof {
            lemma_list_view(items);
            assert(lists_view(items@) =~= Seq::<Seq<SymbolView>>::empty());
        }
        return Symbol::List(items);
    }
    let mut separated = false;
    let mut i: usize = 0;
    while i < symbols.len()
        invariant
            i <= symbols@.len(),
            !separated,
            has_separator(all, 0) == has_separator(all, i as int),
        decreases symbols@.len() - i,
    {
        if separates(&symbols[i]) {
            separated = true;
            break ;
        }
        i = i + 1;
    }
    if !separated {
        proof {
            lemma_section_view(symbols);
        }
        return Symbol::BracketedSection(symbols);
    }
    let mut rest = symbols;
    let mut list: Vec<Vec<Symbol>> = Vec::new();
    let mut item: Vec<Symbol> = Vec::new();
    let ghost mut consumed: int = 0;
    proof {
        assert(symbols_view(rest@) =~= all.subrange(0, all.len() as int));
        assert(symbols_view(item@) =~= Seq::<SymbolView>::empty());
        assert(lists_view(list@) =~= Seq::<Seq<SymbolView>>::empty());
        assert(lists_view(list@) + split_items(all, 0, Seq::empty()) =~= split_items(
            all,
            0,
            Seq::empty(),
        ));
    }
    while rest.len() > 0
        invariant
            0 <= consumed <= all.len(),
            symbols_view(rest@) == all.subrange(consumed, all.len() as int),
            split_items(all, 0, Seq::empty()) == lists_view(list@) + split_items(
                all,
                consumed,
                symbols_view(item@),
            ),
        decreases rest@.len(),
    {
        let ghost done = lists_view(list@);
        let ghost current = symbols_view(item@);
        let ghost remaining = symbols_view(rest@);
        let ghost longer = rest@;
        let next = rest.remove(0);
        proof {
            assert(remaining[0] == next@);
            assert(all[consumed] == remaining[0]);
            assert forall|k: int| 0 <= k < rest@.len() implies symbols_view(rest@)[k]
                == all.subrange(consumed + 1, all.len() as int)[k] by {
                assert(rest@[k] == longer[k + 1]);
                assert(remaining[k + 1] == longer[k + 1]@);
                assert(remaining[k + 1] == all[consumed + k + 1]);
            }
            assert(symbols_view(rest@) =~= all.subrange(consumed + 1, all.len() as int));
        }
        if separates(&next) {
            list.push(item);
            item = Vec::new();
            proof {
                assert(lists_view(list@) =~= done.push(current));
                assert(symbols_view(item@) =~= Seq::<SymbolView>::empty());
                assert(done + (seq![current] + split_items(all, consumed + 1, Seq::empty()))
                    =~= lists_view(list@) + split_items(all, consumed + 1, symbols_view(item@)));
            }
        } else {
            item.push(next);
            proof {
                assert(symbols_view(item@) =~= current.push(next@));
            }
        }
        proof {
            consumed = consumed + 1;
        }
    }
    let ghost done = lists_view(list@);
    if item.len() > 0 {
        list.push(item);
        proof {
            assert(lists_view(list@) =~= done + seq![symbols_view(item@)]);
        }
    } else {
        proof {
            assert(symbols_view(item@).len() == 0);
            assert(done + Seq::<Seq<SymbolView>>::empty() =~= done);
        }
    }
    proof {
        lemma_list_view(list);
    }
    Symbol::List(list)
}

/// What has been read of a line: the symbols so far, the characters of the
/// symbol that is being read, whether and in which quotes a string is being
/// read, whether a backslash stands right before, and how many brackets of
/// each kind are open.
pub struct LineState {
    pub symbols: Seq<SymbolView>,
    pub buffer: Seq<char>,
    pub in_string: Option<char>,
    pub escaped: bool,
    pub bracket_depth: nat,
    pub indexer_depth: nat,
}

pub open spec fn closing_bracket_message() -> Seq<char> {
    "Closing bracket found with no corresponding opening bracket"@
}

pub open spec fn closing_indexer_message() -> Seq<char> {
    "Closing indexing bracket found with no corresponding opening bracket"@
}

pub open spec fn indexer_alone_message() -> Seq<char> {
    "Indexers must be applied to something"@
}

pub open spec fn unclosed_string_message() -> Seq<char> {
    "Unclosed string"@
}

pub open spec fn unclosed_brackets_message() -> Seq<char> {
    "Unclosed brackets"@
}

pub open spec fn nested_too_long_message() -> Seq<char> {
    "Brackets hold more than the line"@
}

/// True of the characters that end a symbol outside brackets.
pub open spec fn ends_symbol(c: char) -> bool {
    c == ' ' || c == OPEN_BRACKET_CHARACTER || c == CLOSE_BRACKET_CHARACTER || c
        == OPEN_INDEXER_CHARACTER || c == CLOSE_INDEXER_CHARACTER || c
        == LIST_SEPARATOR_CHARACTER
}

/// The state after the characters read so far were taken as a symbol,
/// where there are any.
pub open spec fn flushed(state: LineState) -> Result<LineState, Seq<char>> {
    if state.buffer.len() == 0 {
        Ok(state)
    } else {
        match symbol_of(state.buffer) {
            Err(message) => Err(message),
            Ok(symbol) => Ok(
                LineState { symbols: state.symbols.push(symbol), buffer: Seq::empty(), ..state },
            ),
        }
    }
}

/// The state after one more character of `line`, which is no comment
/// character outside a string.
///
/// Inside a string every character is kept; the closing quote ends the
/// string, which is taken as a symbol at once, unless a backslash stands
/// before the quote. Outside brackets, a space, a bracket and a list
/// separator end the symbol that is being read. What stands between a round
/// bracket and its partner is read as a line of its own and becomes a
/// section or a list; what stands between square brackets is read likewise
/// and becomes the index of the symbol before.
pub open spec fn stepped(line: Seq<char>, state: LineState, c: char) -> Result<
    LineState,
    Seq<char>,
>
    decreases line.len(), 0nat, 0nat,
{
    match state.in_string {
        Some(delimiter) => if state.escaped {
            Ok(LineState { buffer: state.buffer.push(c), escaped: false, ..state })
        } else if c == STRING_ESCAPE_CHAR {
            Ok(LineState { buffer: state.buffer.push(c), escaped: true, ..state })
        } else if c == delimiter {
            flushed(LineState { buffer: state.buffer.push(c), in_string: None, ..state })
        } else {
            Ok(LineState { buffer: state.buffer.push(c), ..state })
        },
        None => if c == STRING_DELIMITER || c == CHAR_DELIMITER {
            Ok(LineState { buffer: state.buffer.push(c), in_string: Some(c), ..state })
        } else {
            let outside = state.bracket_depth == 0 && state.indexer_depth == 0;
            match (if outside && ends_symbol(c) {
                flushed(state)
            } else {
                Ok(state)
            }) {
                Err(message) => Err(message),
                Ok(ready) => if outside && c == ' ' {
                    Ok(ready)
                } else if c == OPEN_BRACKET_CHARACTER {
                    Ok(
                        LineState {
                            buffer: if ready.bracket_depth != 0 {
                                ready.buffer.push(c)
                            } else {
                                ready.buffer
                            },
                            bracket_depth: ready.bracket_depth + 1,
                            ..ready
                        },
                    )
                } else if c == OPEN_INDEXER_CHARACTER {
                    Ok(
                        LineState {
                            buffer: if ready.indexer_depth != 0 {
                                ready.buffer.push(c)
                            } else {
                                ready.buffer
                            },
                            indexer_depth: ready.indexer_depth + 1,
                            ..ready
                        },
                    )
                } else if c == CLOSE_BRACKET_CHARACTER {
                    if ready.bracket_depth == 0 {
                        Err(closing_bracket_message())
                    } else if ready.bracket_depth == 1 {
                        if ready.buffer.len() < line.len() {
                            match lexed(ready.buffer) {
                                Err(message) => Err(message),
                                Ok(inner) => Ok(
                                    LineState {
                                        symbols: ready.symbols.push(bracketed_of(inner)),
                                        buffer: Seq::empty(),
                                        bracket_depth: 0,
                                        ..ready
                                    },
                                ),
                            }
                        } else {
                            Err(nested_too_long_message())
                        }
                    } else {
                        Ok(
                            LineState {
                                buffer: ready.buffer.push(c),
                                bracket_depth: (ready.bracket_depth - 1) as nat,
                                ..ready
                            },
                        )
                    }
                } else if c == CLOSE_INDEXER_CHARACTER {
                    if ready.indexer_depth == 0 {
                        Err(closing_indexer_message())
                    } else if ready.indexer_depth == 1 {
                        if ready.symbols.len() == 0 {
                            Err(indexer_alone_message())
                        } else if ready.buffer.len() < line.len() {
                            match lexed(ready.buffer) {
                                Err(message) => Err(message),
                                Ok(index) => Ok(
                                    LineState {
                                        symbols: ready.symbols.drop_last().push(
                                            SymbolView::Indexer(
                                                Box::new(ready.symbols.last()),
                                                index,
                                            ),
                                        ),
                                        buffer: Seq::empty(),
                                        indexer_depth: 0,
                                        ..ready
                                    },
                                ),
                            }
                        } else {
                            Err(nested_too_long_message())
                        }
                    } else {
                        Ok(
                            LineState {
                                buffer: ready.buffer.push(c),
                                indexer_depth: (ready.indexer_depth - 1) as nat,
                                ..ready
                            },
                        )
                    }
                } else {
                    Ok(LineState { buffer: ready.buffer.push(c), ..ready })
                },
            }
        },
    }
}

/// The state after the characters of `line` from `from` on. A comment
/// character outside a string ends the line.
pub open spec fn scanned(line: Seq<char>, from: int, state: LineState) -> Result<
    LineState,
    Seq<char>,
>
    decreases line.len(), 1nat, line.len() - from,
{
    if from < 0 || from >= line.len() {
        Ok(state)
    } else if state.in_string is None && line[from] == COMMENT_CHARACTER {
        Ok(state)
    } else {
        match stepped(line, state, line[from]) {
            Err(message) => Err(message),
            Ok(next) => scanned(line, from + 1, next),
        }
    }
}

/// The state before any character has been read.
pub open spec fn initial_state() -> LineState {
    LineState {
        symbols: Seq::empty(),
        buffer: Seq::empty(),
        in_string: None,
        escaped: false,
        bracket_depth: 0,
        indexer_depth: 0,
    }
}

/// The symbols of a line of source text. Fails where a symbol is not
/// recognised, a string or a round bracket stays open, or a bracket closes
/// that was not opened.
pub open spec fn lexed(line: Seq<char>) -> Result<Seq<SymbolView>, Seq<char>>
    decreases line.len(), 2nat, 0nat,
{
    match scanned(line, 0, initial_state()) {
        Err(message) => Err(message),
        Ok(state) => if state.in_string is Some {
            Err(unclosed_string_message())
        } else if state.bracket_depth != 0 {
            Err(unclosed_brackets_message())
        } else {
            match flushed(state) {
                Err(message) => Err(message),
                Ok(done) => Ok(done.symbols),
            }
        },
    }
}

/// What has been read of a line.
pub struct LineReader {
    pub symbol_line: Vec<Symbol>,
    pub buffer: Vec<char>,
    pub in_string: Option<char>,
    pub next_character_escaped: bool,
    pub bracket_depth: usize,
    pub indexer_depth: usize,
}

impl View for LineReader {
    type V = LineState;

    open spec fn view(&self) -> LineState {
        LineState {
            symbols: symbols_view(self.symbol_line@),
            buffer: self.buffer@,
            in_string: self.in_string,
            escaped: self.next_character_escaped,
            bracket_depth: self.bracket_depth as nat,
            indexer_depth: self.indexer_depth as nat,
        }
    }
}

impl LineReader {
    /// True where no more has been kept than the `consumed` characters
    /// read, and less while a bracket is open: an opening bracket is not
    /// kept.
    pub open spec fn well_formed(self, consumed: nat) -> bool {
        &&& self.buffer@.len() <= consumed
        &&& self.bracket_depth <= consumed
        &&& self.indexer_depth <= consumed
        &&& self.bracket_depth > 0 || self.indexer_depth > 0 ==> self.buffer@.len() < consumed
    }

    fn process_buffer(&mut self, consumed: Ghost<nat>) -> (result: Result<(), String>)
        requires
            old(self).well_formed(consumed@),
        ensures
            match flushed(old(self)@) {
                Ok(state) => result is Ok && final(self)@ == state && final(self).well_formed(
                    consumed@,
                ),
                Err(message) => result is Err && result->Err_0@ == message,
            },
    {
        if self.buffer.len() == 0 {
            return Ok(());
        }
        let text = string_from_chars(&self.buffer);
        let symbol = match get_all_symbol(text.as_str()) {
            Ok(symbol) => symbol,
            Err(message) => {
                return Err(message);
            },
        };
        let ghost before = symbols_view(self.symbol_line@);
        self.symbol_line.push(symbol);
        self.buffer = Vec::new();
        assert(symbols_view(self.symbol_line@) =~= before.push(symbol@));
        Ok(())
    }

    fn step(&mut self, c: char, line: Ghost<Seq<char>>, consumed: Ghost<nat>) -> (result: Result<
        (),
        String,
    >)
        requires
            old(self).well_formed(consumed@),
            consumed@ < line@.len(),
            line@.len() <= usize::MAX,
            !(old(self).in_string is None && c == COMMENT_CHARACTER),
        ensures
            match stepped(line@, old(self)@, c) {
                Ok(state) => result is Ok && final(self)@ == state && final(self).well_formed(
                    consumed@ + 1,
                ),
                Err(message) => result is Err && result->Err_0@ == message,
            },
        decreases line@.len(), 0nat, 0nat,
    {
        if let Some(delimiter) = self.in_string {
            if self.next_character_escaped {
                self.buffer.push(c);
                self.next_character_escaped = false;
                return Ok(());
            }
            if c == STRING_ESCAPE_CHAR {
                self.buffer.push(c);
                self.next_character_escaped = true;
                return Ok(());
            }
            if delimiter == c {
                self.buffer.push(c);
                self.in_string = None;
                return self.process_buffer(Ghost((consumed@ + 1) as nat));
            }
            self.buffer.push(c);
            return Ok(());
        } else if c == STRING_DELIMITER || c == CHAR_DELIMITER {
            self.buffer.push(c);
            self.in_string = Some(c);
            return Ok(());
        }
        let outside = self.bracket_depth == 0 && self.indexer_depth == 0;
        if outside {
            if c == ' ' {
                return self.process_buffer(Ghost((consumed@ + 1) as nat));
            }
            if c == OPEN_BRACKET_CHARACTER || c == CLOSE_BRACKET_CHARACTER || c
                == OPEN_INDEXER_CHARACTER || c == CLOSE_INDEXER_CHARACTER || c
                == LIST_SEPARATOR_CHARACTER {
                match self.process_buffer(consumed) {
                    Ok(_) => {},
                    Err(message) => {
                        return Err(message);
                    },
                }
            }
        }
        if c == OPEN_BRACKET_CHARACTER {
            if self.bracket_depth != 0 {
                self.buffer.push(c);
            }
            self.bracket_depth = self.bracket_depth + 1;
            return Ok(());
        }
        if c == OPEN_INDEXER_CHARACTER {
            if self.indexer_depth != 0 {
                self.buffer.push(c);
            }
            self.indexer_depth = self.indexer_depth + 1;
            return Ok(());
        }
        if c == CLOSE_BRACKET_CHARACTER {
            if self.bracket_depth == 0 {
                return Err(
                    String::from_str("Closing bracket found with no corresponding opening bracket"),
                );
            }
            if self.bracket_depth == 1 {
                let inner = match read_symbols(&self.buffer) {
                    Ok(inner) => inner,
                    Err(message) => {
                        return Err(message);
                    },
                };
                let ghost before = symbols_view(self.symbol_line@);
                let bracketed = get_bracketed_symbols_type(inner);
                self.symbol_line.push(bracketed);
                self.buffer = Vec::new();
                self.bracket_depth = 0;
                assert(symbols_view(self.symbol_line@) =~= before.push(bracketed@));
                return Ok(());
            }
            self.bracket_depth = self.bracket_depth - 1;
            self.buffer.push(c);
            return Ok(());
        }
        if c == CLOSE_INDEXER_CHARACTER {
            if self.indexer_depth == 0 {
                return Err(
                    String::from_str(
                        "Closing indexing bracket found with no corresponding opening bracket",
                    ),
                );
            }
            if self.indexer_depth == 1 {
                if self.symbol_line.len() == 0 {
                    return Err(String::from_str("Indexers must be applied to something"));
                }
                let index = match read_symbols(&self.buffer) {
                    Ok(index) => index,
                    Err(message) => {
                        return Err(message);
                    },
                };
                let ghost before = symbols_view(self.symbol_line@);
                let applied_to = self.symbol_line.pop().unwrap();
                let applied = Box::new(applied_to);
                proof {
                    lemma_indexer_view(applied, index);
                    assert(before.last() == applied_to@);
                    assert(symbols_view(self.symbol_line@) =~= before.drop_last());
                }
                let indexer = Symbol::Indexer(applied, index);
                let ghost shorter = symbols_view(self.symbol_line@);
                self.symbol_line.push(indexer);
                self.buffer = Vec::new();
                self.indexer_depth = 0;
                assert(symbols_view(self.symbol_line@) =~= shorter.push(indexer@));
                return Ok(());
            }
            self.indexer_depth = self.indexer_depth - 1;
            self.buffer.push(c);
            return Ok(());
        }
        self.buffer.push(c);
        Ok(())
    }
}

/// The symbols of a line of source text, given as characters.
pub fn read_symbols(line: &Vec<char>) -> (symbols: Result<Vec<Symbol>, String>)
    ensures
        match lexed(line@) {
            Ok(expected) => symbols is Ok && symbols_view(symbols->Ok_0@) == expected,
            Err(message) => symbols is Err && symbols->Err_0@ == message,
        },
    decreases line@.len(), 2nat, 0nat,
{
    let mut reader = LineReader {
        symbol_line: Vec::new(),
        buffer: Vec::new(),
        in_string: None,
        next_character_escaped: false,
        bracket_depth: 0,
        indexer_depth: 0,
    };
    assert(reader@ =~= initial_state()) by {
        assert(symbols_view(reader.symbol_line@) =~= Seq::<SymbolView>::empty());
    }
    let length: usize = line.len();
    let mut i: usize = 0;
    while i < length && !(reader.in_string.is_none() && line[i] == COMMENT_CHARACTER)
        invariant
            i <= length,
            length == line@.len(),
            reader.well_formed(i as nat),
            scanned(line@, 0, initial_state()) == scanned(line@, i as int, reader@),
        decreases length - i,
    {
        let c = line[i];
        match reader.step(c, Ghost(line@), Ghost(i as nat)) {
            Ok(_) => {},
            Err(message) => {
                return Err(message);
            },
        }
        i = i + 1;
    }
    if reader.in_string.is_some() {
        return Err(String::from_str("Unclosed string"));
    }
    if reader.bracket_depth != 0 {
        return Err(String::from_str("Unclosed brackets"));
    }
    match reader.process_buffer(Ghost(i as nat)) {
        Ok(_) => Ok(reader.symbol_line),
        Err(message) => Err(message),
    }
}

/// Takes a line of code and returns its symbols.
pub fn get_symbols_from_line(line: &str) -> (symbols: Result<Vec<Symbol>, String>)
    ensures
        match lexed(line@) {
            Ok(expected) => symbols is Ok && symbols_view(symbols->Ok_0@) == expected,
            Err(message) => symbols is Err && symbols->Err_0@ == message,
        },
{
    let chars = chars_of(line);
    read_symbols(&chars)
}

/// The width of the white space that `line` starts with, from `from` on: 1
/// for a space and 4 for a tab.
pub open spec fn indentation_width(line: Seq<char>, from: int) -> nat
    decreases line.len() - from,
{
    if from < 0 || from >= line.len() {
        0
    } else if line[from] == ' ' {
        1 + indentation_width(line, from + 1)
    } else if line[from] == '\t' {
        4 + indentation_width(line, from + 1)
    } else {
        0
    }
}

/// The number of characters of white space that `line` starts with, from
/// `from` on.
pub open spec fn indentation_length(line: Seq<char>, from: int) -> nat
    decreases line.len() - from,
{
    if from < 0 || from >= line.len() {
        0
    } else if line[from] == ' ' || line[from] == '\t' {
        1 + indentation_length(line, from + 1)
    } else {
        0
    }
}

pub open spec fn indentation_multiple_message() -> Seq<char> {
    "Indentation must be a multiple of 4 spaces or single tabs"@
}

pub open spec fn import_indented_message() -> Seq<char> {
    "Import statements cannot be indented"@
}

pub open spec fn import_format_message() -> Seq<char> {
    "Import statements must be formatted import [file name]"@
}

pub open spec fn import_extension_message() -> Seq<char> {
    "File extension must be .why"@
}

/// What a line of a file holds.
pub enum FileLine {
    /// The line imports the file at the given path.
    Import(String),
    /// The line holds symbols at the given level of indentation.
    Code(usize, Vec<Symbol>),
}

/// What a line of a file holds, as plain values.
pub enum FileLineView {
    Import(Seq<char>),
    Code(nat, Seq<SymbolView>),
}

impl View for FileLine {
    type V = FileLineView;

    open spec fn view(&self) -> FileLineView {
        match self {
            FileLine::Import(path) => FileLineView::Import(path@),
            FileLine::Code(indentation, symbols) => FileLineView::Code(
                *indentation as nat,
                symbols_view(symbols@),
            ),
        }
    }
}

/// The path of the file that a line imports, where the line, given as
/// symbols with the width of its indentation, is an import: the line must
/// not be indented, and must hold `import` and a dotted name that ends in
/// `why`.
pub open spec fn import_of(symbols: Seq<SymbolView>, width: nat) -> Result<
    Option<Seq<char>>,
    Seq<char>,
> {
    if symbols.len() == 0 || !(symbols[0] matches SymbolView::Keyword(Keyword::Import)) {
        Ok(None)
    } else if width != 0 {
        Err(import_indented_message())
    } else if symbols.len() != 2 || !(symbols[1] is Name) {
        Err(import_format_message())
    } else {
        let name = symbols[1]->Name_0;
        if name.len() < 2 || name.last() != "why"@ {
            Err(import_extension_message())
        } else {
            Ok(Some(joined_text(name, name.len())))
        }
    }
}

/// What a line of a file holds: the indentation is counted, and must be a
/// multiple of 4; what follows it is read as symbols; a line that starts
/// with `import` names a file.
pub open spec fn file_line_of(line: Seq<char>) -> Result<FileLineView, Seq<char>> {
    let width = indentation_width(line, 0);
    if width % 4 != 0 {
        Err(indentation_multiple_message())
    } else {
        match lexed(line.subrange(indentation_length(line, 0) as int, line.len() as int)) {
            Err(message) => Err(message),
            Ok(symbols) => match import_of(symbols, width) {
                Err(message) => Err(message),
                Ok(Some(path)) => Ok(FileLineView::Import(path)),
                Ok(None) => Ok(FileLineView::Code(width / 4, symbols)),
            },
        }
    }
}

/// The path of the file that a line imports, where the line is an import.
pub fn get_import(symbols: &[Symbol], indented: bool) -> (import: Result<Option<String>, String>)
    ensures
        match import_of(
            symbols_view(symbols@),
            if indented {
                1nat
            } else {
                0nat
            },
        ) {
            Ok(Some(path)) => import is Ok && import->Ok_0 is Some && import->Ok_0->0@ == path,
            Ok(None) => import is Ok && import->Ok_0 is None,
            Err(message) => import is Err && import->Err_0@ == message,
        },
{
    if symbols.len() == 0 {
        return Ok(None);
    }
    assert(symbols_view(symbols@)[0] == symbols@[0]@);
    match &symbols[0] {
        Symbol::Keyword(Keyword::Import) => {},
        _ => {
            return Ok(None);
        },
    }
    if indented {
        return Err(String::from_str("Import statements cannot be indented"));
    }
    if symbols.len() != 2 {
        return Err(String::from_str("Import statements must be formatted import [file name]"));
    }
    assert(symbols_view(symbols@)[1] == symbols@[1]@);
    match &symbols[1] {
        Symbol::Name(name) => {
            if name.len() < 2 || !str_equal(name[name.len() - 1].as_str(), "why") {
                Err(String::from_str("File extension must be .why"))
            } else {
                Ok(Some(join_file_name(name.as_slice())))
            }
        },
        _ => Err(String::from_str("Import statements must be formatted import [file name]")),
    }
}

/// Reads a line of a file: counts its indentation and reads what follows as
/// symbols. For a line that is an import, returns the path of the file to
/// read in its place.
#[verifier::loop_isolation(false)]
pub fn read_file_line(line: &str) -> (contents: Result<FileLine, String>)
    ensures
        match file_line_of(line@) {
            Err(message) => contents is Err && contents->Err_0@ == message,
            Ok(expected) => contents is Ok && contents->Ok_0@ == expected,
        },
{
    let chars = chars_of(line);
    let length: usize = chars.len();
    let mut width: u128 = 0;
    let mut i: usize = 0;
    while i < length && (chars[i] == ' ' || chars[i] == '\t')
        invariant
            i <= length,
            width <= 4 * i,
            indentation_width(chars@, 0) == width + indentation_width(chars@, i as int),
            indentation_length(chars@, 0) == i + indentation_length(chars@, i as int),
        decreases length - i,
    {
        if chars[i] == ' ' {
            width = width + 1;
        } else {
            width = width + 4;
        }
        i = i + 1;
    }
    if width % 4 != 0 {
        return Err(String::from_str("Indentation must be a multiple of 4 spaces or single tabs"));
    }
    let mut rest: Vec<char> = Vec::new();
    let mut k: usize = i;
    while k < length
        invariant
            i <= k <= length,
            rest@ == chars@.subrange(i as int, k as int),
        decreases length - k,
    {
        rest.push(chars[k]);
        assert(rest@ =~= chars@.subrange(i as int, k + 1));
        k = k + 1;
    }
    let symbols = match read_symbols(&rest) {
        Ok(symbols) => symbols,
        Err(message) => {
            return Err(message);
        },
    };
    let level: usize = (width / 4) as usize;
    match get_import(symbols.as_slice(), width != 0) {
        Ok(Some(path)) => Ok(FileLine::Import(path)),
        Ok(None) => Ok(FileLine::Code(level, symbols)),
        Err(message) => Err(message),
    }
}

} // verus!
