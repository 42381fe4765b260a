//! Literal values.
use vstd::prelude::*;
use crate::lexical_parsing::symbols::types::TypeSymbol;
use crate::lexical_parsing::symbols::{Symbol, SymbolHandler};
use crate::util::{chars_of, spells, string_from_chars};

verus! {

/// The character that opens and closes a string literal.
pub const STRING_DELIMITER: char = '"';

/// The character that opens and closes a character literal.
pub const CHAR_DELIMITER: char = '\'';

/// The character that starts an escape code inside a literal.
pub const STRING_ESCAPE_CHAR: char = '\\';

/// A literal value of source text.
#[derive(PartialEq, Debug)]
pub enum Literal {
    String(String),
    Char(char),
    Int(i128),
    Bool(bool),
    ParameterList(Vec<(TypeSymbol, String)>),
    NoneValue,
}

impl Literal {
    /// The name of the kind of literal in messages.
    pub open spec fn name(self) -> Seq<char> {
        match self {
            Literal::String(_) => "String"@,
            Literal::Char(_) => "Char"@,
            Literal::Int(_) => "Int"@,
            Literal::Bool(_) => "Bool"@,
            Literal::ParameterList(_) => "ParameterList"@,
            Literal::NoneValue => "None"@,
        }
    }

    /// The name of the kind of literal in messages.
    pub fn get_name(&self) -> (name: &'static str)
        ensures
            name@ == self.name(),
    {
        match self {
            Literal::String(_) => "String",
            Literal::Char(_) => "Char",
            Literal::Int(_) => "Int",
            Literal::Bool(_) => "Bool",
            Literal::ParameterList(_) => "ParameterList",
            Literal::NoneValue => "None",
        }
    }
}

/// A literal value as plain values.
pub enum LiteralView {
    String(Seq<char>),
    Char(char),
    Int(i128),
    Bool(bool),
    ParameterList(Seq<(TypeSymbol, Seq<char>)>),
    NoneValue,
}

impl View for Literal {
    type V = LiteralView;

    open spec fn view(&self) -> LiteralView {
        match self {
            Literal::String(text) => LiteralView::String(text@),
            Literal::Char(c) => LiteralView::Char(*c),
            Literal::Int(value) => LiteralView::Int(*value),
            Literal::Bool(value) => LiteralView::Bool(*value),
            Literal::ParameterList(parameters) => LiteralView::ParameterList(
                Seq::new(parameters@.len(), |i: int| (parameters@[i].0, parameters@[i].1@)),
            ),
            Literal::NoneValue => LiteralView::NoneValue,
        }
    }
}

/// The character that an escape code stands for: the character after the
/// backslash decides.
pub open spec fn escape_value(code: char) -> Option<char> {
    if code == 'n' {
        Some('\n')
    } else if code == '\\' {
        Some('\\')
    } else if code == '0' {
        Some('\0')
    } else if code == '"' {
        Some('"')
    } else if code == '\'' {
        Some('\'')
    } else {
        None
    }
}

/// The text from `from` on with its escape codes replaced by what they
/// stand for. `escaped` says whether a backslash stands right before. A
/// backslash is dropped; the character after it is replaced where it is a
/// code, and kept as it is otherwise.
pub open spec fn unescaped(input: Seq<char>, from: int, escaped: bool) -> Seq<char>
    decreases input.len() - from,
{
    if from < 0 || from >= input.len() {
        Seq::empty()
    } else if escaped {
        seq![
            match escape_value(input[from]) {
                Some(value) => value,
                None => input[from],
            },
        ] + unescaped(input, from + 1, false)
    } else if input[from] == STRING_ESCAPE_CHAR {
        unescaped(input, from + 1, true)
    } else {
        seq![input[from]] + unescaped(input, from + 1, false)
    }
}

fn get_escape_value(code: char) -> (value: Option<char>)
    ensures
        value == escape_value(code),
{
    if code == 'n' {
        Some('\n')
    } else if code == '\\' {
        Some('\\')
    } else if code == '0' {
        Some('\0')
    } else if code == '"' {
        Some('"')
    } else if code == '\'' {
        Some('\'')
    } else {
        None
    }
}

/// The characters of `input` with the escape codes replaced.
pub fn unescape(input: &Vec<char>) -> (output: Vec<char>)
    ensures
        output@ == unescaped(input@, 0, false),
{
    let mut output: Vec<char> = Vec::new();
    let mut next = false;
    let mut i: usize = 0;
    while i < input.len()
        invariant
            i <= input@.len(),
            unescaped(input@, 0, false) == output@ + unescaped(input@, i as int, next),
        decreases input@.len() - i,
    {
        let c = input[i];
        let ghost before = output@;
        if next {
            next = false;
            match get_escape_value(c) {
                Some(value) => {
                    output.push(value);
                },
                None => {
                    output.push(c);
                },
            }
            assert(before + unescaped(input@, i as int, true) =~= output@ + unescaped(
                input@,
                i + 1,
                false,
            ));
        } else if c == STRING_ESCAPE_CHAR {
            next = true;
        } else {
            output.push(c);
            assert(before + unescaped(input@, i as int, false) =~= output@ + unescaped(
                input@,
                i + 1,
                false,
            ));
        }
        i = i + 1;
    }
    assert(output@ + Seq::<char>::empty() =~= output@);
    output
}

/// Takes an input string and replaces escape codes with their
/// corresponding values.
pub fn format_escape_codes(input: String) -> (output: String)
    ensures
        output@ == unescaped(input@, 0, false),
{
    let chars = chars_of(input.as_str());
    let formatted = unescape(&chars);
    string_from_chars(&formatted)
}

/// The value of a decimal digit.
pub open spec fn digit_of(c: char) -> Option<nat> {
    if c == '0' {
        Some(0)
    } else if c == '1' {
        Some(1)
    } else if c == '2' {
        Some(2)
    } else if c == '3' {
        Some(3)
    } else if c == '4' {
        Some(4)
    } else if c == '5' {
        Some(5)
    } else if c == '6' {
        Some(6)
    } else if c == '7' {
        Some(7)
    } else if c == '8' {
        Some(8)
    } else if c == '9' {
        Some(9)
    } else {
        None
    }
}

/// True where the first `count` characters are decimal digits.
pub open spec fn all_digits(digits: Seq<char>, count: nat) -> bool
    decreases count,
{
    if count == 0 {
        true
    } else {
        all_digits(digits, (count - 1) as nat) && digit_of(digits[count - 1]) is Some
    }
}

/// The number that the first `count` characters spell in decimal.
pub open spec fn digits_value(digits: Seq<char>, count: nat) -> nat
    decreases count,
{
    if count == 0 {
        0
    } else {
        digits_value(digits, (count - 1) as nat) * 10 + digit_of(digits[count - 1])->0
    }
}

/// The integer that a text spells in decimal: digits, after a sign where
/// there is one; none where the text is no such thing, or the integer does
/// not fit.
pub open spec fn integer_of(text: Seq<char>) -> Option<i128> {
    let signed = text.len() > 0 && (text[0] == '-' || text[0] == '+');
    let digits = if signed {
        text.drop_first()
    } else {
        text
    };
    if digits.len() == 0 || !all_digits(digits, digits.len()) {
        None
    } else {
        let magnitude = digits_value(digits, digits.len()) as int;
        let value = if text[0] == '-' {
            -magnitude
        } else {
            magnitude
        };
        if i128::MIN <= value <= i128::MAX {
            Some(value as i128)
        } else {
            None
        }
    }
}

fn get_digit(c: char) -> (digit: Option<u8>)
    ensures
        digit is Some == digit_of(c) is Some,
        digit matches Some(value) ==> value < 10 && digit_of(c) == Some(value as nat),
{
    if c == '0' {
        Some(0)
    } else if c == '1' {
        Some(1)
    } else if c == '2' {
        Some(2)
    } else if c == '3' {
        Some(3)
    } else if c == '4' {
        Some(4)
    } else if c == '5' {
        Some(5)
    } else if c == '6' {
        Some(6)
    } else if c == '7' {
        Some(7)
    } else if c == '8' {
        Some(8)
    } else if c == '9' {
        Some(9)
    } else {
        None
    }
}

/// The number that digits spell never gets smaller as digits are added.
pub proof fn lemma_digits_value_grows(digits: Seq<char>, shorter: nat, longer: nat)
    requires
        shorter <= longer,
    ensures
        digits_value(digits, shorter) <= digits_value(digits, longer),
    decreases longer,
{
    if shorter < longer {
        lemma_digits_value_grows(digits, shorter, (longer - 1) as nat);
    }
}

/// Where not all of the characters are digits, not all of more characters
/// are.
pub proof fn lemma_all_digits_shorter(digits: Seq<char>, shorter: nat, longer: nat)
    requires
        shorter <= longer,
        all_digits(digits, longer),
    ensures
        all_digits(digits, shorter),
    decreases longer,
{
    if shorter < longer {
        lemma_all_digits_shorter(digits, shorter, (longer - 1) as nat);
    }
}

/// The integer that a text spells in decimal.
#[verifier::loop_isolation(false)]
pub fn parse_integer(text: &Vec<char>) -> (value: Option<i128>)
    ensures
        value == integer_of(text@),
{
    let length: usize = text.len();
    let negative: bool = length > 0 && text[0] == '-';
    let start: usize = if length > 0 && (text[0] == '-' || text[0] == '+') {
        1
    } else {
        0
    };
    if start == length {
        return None;
    }
    let ghost digits = if start == 1 {
        text@.drop_first()
    } else {
        text@
    };
    let limit: u128 = if negative {
        0x8000_0000_0000_0000_0000_0000_0000_0000u128
    } else {
        0x7fff_ffff_ffff_ffff_ffff_ffff_ffff_ffffu128
    };
    let mut magnitude: u128 = 0;
    let mut i: usize = start;
    while i < length
        invariant
            start <= i <= length,
            length == text@.len(),
            digits.len() == length - start,
            forall|k: int| 0 <= k < digits.len() ==> digits[k] == text@[k + start],
            all_digits(digits, (i - start) as nat),
            magnitude == digits_value(digits, (i - start) as nat),
            magnitude <= limit,
            limit <= 0x8000_0000_0000_0000_0000_0000_0000_0000u128,
        decreases length - i,
    {
        let digit = match get_digit(text[i]) {
            Some(digit) => digit,
            None => {
                proof {
                    assert(digits[i - start] == text@[i as int]);
                    if all_digits(digits, digits.len()) {
                        lemma_all_digits_shorter(digits, (i - start + 1) as nat, digits.len());
                    }
                }
                return None;
            },
        };
        assert(digits[i - start] == text@[i as int]);
        if magnitude > (limit - digit as u128) / 10 {
            proof {
                lemma_digits_value_grows(digits, (i - start + 1) as nat, digits.len());
            }
            return None;
        }
        magnitude = magnitude * 10 + digit as u128;
        i = i + 1;
    }
    if negative {
        if magnitude == 0x8000_0000_0000_0000_0000_0000_0000_0000u128 {
            Some(i128::MIN)
        } else {
            Some(-(magnitude as i128))
        }
    } else {
        Some(magnitude as i128)
    }
}

pub open spec fn char_literal_message() -> Seq<char> {
    "Char literals cannot contain multiple chars"@
}

/// The literal that a text spells, if any: `true`, `false` and `none`;
/// text between double quotes, and a single character between single
/// quotes, with escape codes replaced; and integers in decimal.
pub open spec fn literal_of(text: Seq<char>) -> Result<Option<LiteralView>, Seq<char>> {
    if text == "true"@ {
        Ok(Some(LiteralView::Bool(true)))
    } else if text == "false"@ {
        Ok(Some(LiteralView::Bool(false)))
    } else if text == "none"@ {
        Ok(Some(LiteralView::NoneValue))
    } else if text.len() >= 2 && (text[0] == STRING_DELIMITER || text[0] == CHAR_DELIMITER)
        && text.last() == text[0] {
        let inner = unescaped(text.subrange(1, text.len() - 1), 0, false);
        if text[0] == CHAR_DELIMITER {
            if inner.len() != 1 {
                Err(char_literal_message())
            } else {
                Ok(Some(LiteralView::Char(inner[0])))
            }
        } else {
            Ok(Some(LiteralView::String(inner)))
        }
    } else {
        match integer_of(text) {
            Some(value) => Ok(Some(LiteralView::Int(value))),
            None => Ok(None),
        }
    }
}

/// The literal that a text spells, if any.
pub fn get_literal(word: &Vec<char>) -> (literal: Result<Option<Literal>, String>)
    ensures
        match literal_of(word@) {
            Ok(Some(found)) => literal is Ok && literal->Ok_0 is Some && literal->Ok_0->0@ == found,
            Ok(None) => literal is Ok && literal->Ok_0 is None,
            Err(message) => literal is Err && literal->Err_0@ == message,
        },
{
    if spells(word, "true") {
        return Ok(Some(Literal::Bool(true)));
    }
    if spells(word, "false") {
        return Ok(Some(Literal::Bool(false)));
    }
    if spells(word, "none") {
        return Ok(Some(Literal::NoneValue));
    }
    let length: usize = word.len();
    if length >= 2 && (word[0] == STRING_DELIMITER || word[0] == CHAR_DELIMITER) && word[length
        - 1] == word[0] {
        let mut inner: Vec<char> = Vec::new();
        let mut i: usize = 1;
        while i < length - 1
            invariant
                1 <= i <= length - 1,
                length == word@.len(),
                inner@ == word@.subrange(1, i as int),
            decreases length - i,
        {
            inner.push(word[i]);
            assert(inner@ =~= word@.subrange(1, i + 1));
            i = i + 1;
        }
        let formatted = unescape(&inner);
        if word[0] == CHAR_DELIMITER {
            if formatted.len() != 1 {
                return Err(String::from_str("Char literals cannot contain multiple chars"));
            }
            return Ok(Some(Literal::Char(formatted[0])));
        }
        return Ok(Some(Literal::String(string_from_chars(&formatted))));
    }
    match parse_integer(word) {
        Some(value) => Ok(Some(Literal::Int(value))),
        None => Ok(None),
    }
}

/// Recognises literals.
pub struct LiteralSymbolHandler {}

impl SymbolHandler for LiteralSymbolHandler {
    open spec fn recognised(string: Seq<char>, symbol: Result<Option<Symbol>, String>) -> bool {
        match literal_of(string) {
            Ok(Some(found)) => symbol matches Ok(Some(Symbol::Literal(literal))) && literal@
                == found,
            Ok(None) => symbol is Ok && symbol->Ok_0 is None,
            Err(message) => symbol is Err && symbol->Err_0@ == message,
        }
    }

    fn get_symbol(string: &str) -> (symbol: Result<Option<Symbol>, String>) {
        let word = chars_of(string);
        match get_literal(&word) {
            Ok(Some(literal)) => Ok(Some(Symbol::Literal(literal))),
            Ok(None) => Ok(None),
            Err(message) => Err(message),
        }
    }
}

} // verus!
