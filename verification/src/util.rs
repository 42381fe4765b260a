//! Machine words as little-endian bytes, decimal text, and the few text
//! conversions that the standard library has to perform.
use vstd::prelude::*;
use vstd::std_specs::iter::IteratorSpec;

pub mod ref_or_box;

verus! {

/// Number of bytes of a machine word on the platform the compiler runs on.
pub const USIZE_BYTES: usize = (usize::BITS / 8) as usize;

/// 256 to the power `exponent`.
pub open spec fn pow256(exponent: nat) -> nat
    decreases exponent,
{
    if exponent == 0 {
        1
    } else {
        256 * pow256((exponent - 1) as nat)
    }
}

/// The `count` least significant bytes of `value`, least significant first.
pub open spec fn le_bytes(value: nat, count: nat) -> Seq<u8>
    decreases count,
{
    if count == 0 {
        Seq::empty()
    } else {
        seq![(value % 256) as u8] + le_bytes(value / 256, (count - 1) as nat)
    }
}

/// The number that `bytes` spell, least significant byte first.
pub open spec fn le_value(bytes: Seq<u8>) -> nat
    decreases bytes.len(),
{
    if bytes.len() == 0 {
        0
    } else {
        bytes[0] as nat + 256 * le_value(bytes.drop_first())
    }
}

/// The platform-width little-endian form of a machine word.
pub open spec fn usize_bytes(value: usize) -> Seq<u8> {
    le_bytes(value as nat, USIZE_BYTES as nat)
}

/// The machine word at the front of `bytes`.
pub open spec fn usize_at(bytes: Seq<u8>, position: int) -> nat {
    le_value(bytes.subrange(position, position + USIZE_BYTES))
}

/// A machine word has four or eight bytes, and every word fits them exactly.
pub proof fn lemma_word_width()
    ensures
        USIZE_BYTES == 4 || USIZE_BYTES == 8,
        pow256(USIZE_BYTES as nat) == usize::MAX + 1,
{
    reveal_with_fuel(pow256, 9);
    assert(pow256(4) == 0x1_0000_0000);
    assert(pow256(8) == 0x1_0000_0000_0000_0000);
}

pub proof fn lemma_pow256_monotonic(low: nat, high: nat)
    requires
        low <= high,
    ensures
        1 <= pow256(low) <= pow256(high),
    decreases high,
{
    if high == 0 {
    } else if low == high {
        lemma_pow256_monotonic(0, (high - 1) as nat);
    } else {
        lemma_pow256_monotonic(low, (high - 1) as nat);
    }
}

pub proof fn lemma_le_bytes_len(value: nat, count: nat)
    ensures
        le_bytes(value, count).len() == count,
    decreases count,
{
    if count > 0 {
        lemma_le_bytes_len(value / 256, (count - 1) as nat);
    }
}

/// Reading back the bytes of a value that fits gives the value.
pub proof fn lemma_le_round_trip(value: nat, count: nat)
    requires
        value < pow256(count),
    ensures
        le_value(le_bytes(value, count)) == value,
    decreases count,
{
    if count > 0 {
        let rest = le_bytes(value / 256, (count - 1) as nat);
        let all = le_bytes(value, count);
        lemma_le_round_trip(value / 256, (count - 1) as nat);
        assert(all.drop_first() =~= rest);
        assert(all[0] == (value % 256) as u8);
    }
}

/// The bytes of a value read back determine the bytes.
pub proof fn lemma_le_bytes_of_value(bytes: Seq<u8>)
    ensures
        le_value(bytes) < pow256(bytes.len()),
        le_bytes(le_value(bytes), bytes.len()) == bytes,
    decreases bytes.len(),
{
    if bytes.len() > 0 {
        let rest = bytes.drop_first();
        lemma_le_bytes_of_value(rest);
        let value = le_value(bytes);
        assert(value / 256 == le_value(rest));
        assert(value % 256 == bytes[0] as nat);
        assert(le_bytes(value, bytes.len()) =~= bytes);
    } else {
        assert(le_bytes(le_value(bytes), 0) =~= bytes);
    }
}

/// A word written in platform width reads back as itself.
pub proof fn lemma_usize_round_trip(value: usize)
    ensures
        usize_bytes(value).len() == USIZE_BYTES,
        le_value(usize_bytes(value)) == value,
{
    lemma_word_width();
    lemma_le_bytes_len(value as nat, USIZE_BYTES as nat);
    lemma_le_round_trip(value as nat, USIZE_BYTES as nat);
}

/// Writes a machine word as platform-width little-endian bytes.
pub fn usize_to_bytes(value: usize) -> (bytes: Vec<u8>)
    ensures
        bytes@ == usize_bytes(value),
        bytes@.len() == USIZE_BYTES,
{
    let mut bytes: Vec<u8> = Vec::new();
    let mut rest: usize = value;
    let mut i: usize = 0;
    while i < USIZE_BYTES
        invariant
            i <= USIZE_BYTES,
            bytes@.len() == i,
            usize_bytes(value) == bytes@ + le_bytes(rest as nat, (USIZE_BYTES - i) as nat),
        decreases USIZE_BYTES - i,
    {
        let ghost before = bytes@;
        bytes.push((rest % 256) as u8);
        proof {
            let tail = le_bytes((rest / 256) as nat, (USIZE_BYTES - i - 1) as nat);
            assert(le_bytes(rest as nat, (USIZE_BYTES - i) as nat) == seq![(rest % 256) as u8]
                + tail);
            assert(bytes@ + tail =~= before + (seq![(rest % 256) as u8] + tail));
        }
        rest = rest / 256;
        i = i + 1;
    }
    proof {
        assert(bytes@ + Seq::<u8>::empty() =~= bytes@);
    }
    bytes
}

/// Reads the machine word at the front of `data`.
pub fn read_usize(data: &[u8]) -> (value: usize)
    requires
        data@.len() >= USIZE_BYTES,
    ensures
        value == usize_at(data@, 0),
{
    let ghost word = data@.subrange(0, USIZE_BYTES as int);
    let mut value: usize = 0;
    let mut i: usize = USIZE_BYTES;
    proof {
        lemma_word_width();
        assert(word.subrange(USIZE_BYTES as int, USIZE_BYTES as int) =~= Seq::<u8>::empty());
    }
    while i > 0
        invariant
            i <= USIZE_BYTES,
            data@.len() >= USIZE_BYTES,
            word == data@.subrange(0, USIZE_BYTES as int),
            value == le_value(word.subrange(i as int, USIZE_BYTES as int)),
            value < pow256((USIZE_BYTES - i) as nat),
            pow256(USIZE_BYTES as nat) == usize::MAX + 1,
        decreases i,
    {
        i = i - 1;
        proof {
            let here = word.subrange(i as int, USIZE_BYTES as int);
            assert(here.drop_first() =~= word.subrange(i + 1, USIZE_BYTES as int));
            assert(here[0] == data@[i as int]);
            lemma_pow256_monotonic((USIZE_BYTES - i) as nat, USIZE_BYTES as nat);
            assert(pow256((USIZE_BYTES - i) as nat) == 256 * pow256((USIZE_BYTES - i - 1) as nat));
        }
        value = value * 256 + data[i] as usize;
    }
    proof {
        assert(word.subrange(0, USIZE_BYTES as int) =~= word);
    }
    value
}

/// The separator that follows the part at `index` of a file name of `count`
/// parts: a slash between directories, a dot before the extension, nothing
/// after the extension.
pub open spec fn separator_after(index: int, count: int) -> Seq<char> {
    if index + 2 < count {
        seq!['/']
    } else if index + 2 == count {
        seq!['.']
    } else {
        Seq::empty()
    }
}

/// The first `count` parts of a file name, each followed by its separator.
pub open spec fn joined_text(name: Seq<Seq<char>>, count: nat) -> Seq<char>
    decreases count,
{
    if count == 0 {
        Seq::empty()
    } else {
        joined_text(name, (count - 1) as nat) + name[count - 1] + separator_after(
            count - 1,
            name.len() as int,
        )
    }
}

/// The first `count` parts of a file name, each followed by its separator.
pub open spec fn joined_parts(name: Seq<String>, count: nat) -> Seq<char> {
    joined_text(Seq::new(name.len(), |i: int| name[i]@), count)
}

/// Joins the parts of a dotted name into a path: `a.b.why` names `a/b.why`.
pub fn join_file_name(name: &[String]) -> (joined: String)
    requires
        name@.len() != 1,
    ensures
        joined@ == joined_parts(name@, name@.len()),
{
    let ghost texts = Seq::new(name@.len(), |i: int| name@[i]@);
    let mut joined = String::new();
    let mut i: usize = 0;
    while i < name.len()
        invariant
            i <= name@.len(),
            name@.len() != 1,
            texts == Seq::new(name@.len(), |i: int| name@[i]@),
            joined@ == joined_text(texts, i as nat),
        decreases name@.len() - i,
    {
        let ghost before = joined@;
        joined.append(name[i].as_str());
        assert(texts[i as int] == name@[i as int]@);
        if i < name.len() - 2 {
            joined.append("/");
            proof {
                reveal_strlit("/");
                assert("/"@ =~= seq!['/']);
            }
        } else if i == name.len() - 2 {
            joined.append(".");
            proof {
                reveal_strlit(".");
                assert("."@ =~= seq!['.']);
            }
        } else {
            assert(joined@ =~= before + name@[i as int]@ + Seq::<char>::empty());
        }
        i = i + 1;
    }
    joined
}

/// The character of a decimal digit.
pub open spec fn digit_char(digit: nat) -> char {
    if digit == 0 {
        '0'
    } else if digit == 1 {
        '1'
    } else if digit == 2 {
        '2'
    } else if digit == 3 {
        '3'
    } else if digit == 4 {
        '4'
    } else if digit == 5 {
        '5'
    } else if digit == 6 {
        '6'
    } else if digit == 7 {
        '7'
    } else if digit == 8 {
        '8'
    } else {
        '9'
    }
}

/// The decimal digits of a natural number, without leading zeros.
pub open spec fn decimal_digits(value: nat) -> Seq<char>
    decreases value,
{
    if value < 10 {
        seq![digit_char(value)]
    } else {
        decimal_digits(value / 10).push(digit_char(value % 10))
    }
}

/// The decimal text of an integer, with a minus sign where it is negative.
pub open spec fn decimal_text(value: int) -> Seq<char> {
    if value < 0 {
        seq!['-'] + decimal_digits((-value) as nat)
    } else {
        decimal_digits(value as nat)
    }
}

fn digit_to_char(digit: u8) -> (c: char)
    requires
        digit < 10,
    ensures
        c == digit_char(digit as nat),
{
    if digit == 0 {
        '0'
    } else if digit == 1 {
        '1'
    } else if digit == 2 {
        '2'
    } else if digit == 3 {
        '3'
    } else if digit == 4 {
        '4'
    } else if digit == 5 {
        '5'
    } else if digit == 6 {
        '6'
    } else if digit == 7 {
        '7'
    } else if digit == 8 {
        '8'
    } else {
        '9'
    }
}

fn push_decimal_digits(value: u128, text: &mut Vec<char>)
    ensures
        final(text)@ == old(text)@ + decimal_digits(value as nat),
    decreases value,
{
    if value >= 10 {
        push_decimal_digits(value / 10, text);
    }
    let ghost before = text@;
    text.push(digit_to_char((value % 10) as u8));
    proof {
        if value >= 10 {
            assert(text@ =~= old(text)@ + decimal_digits(value as nat));
        } else {
            assert(text@ =~= old(text)@ + decimal_digits(value as nat));
        }
    }
}

/// The text of `chars` as a `String`.
///
/// Trusted: `String::from_iter` makes a string of the characters that it is
/// given, in their order.
#[verifier::external_body]
pub(crate) fn string_from_chars(chars: &Vec<char>) -> (text: String)
    ensures
        text@ == chars@,
{
    String::from_iter(chars)
}

/// The characters of `text`, in order.
pub fn chars_of(text: &str) -> (chars: Vec<char>)
    ensures
        chars@ == text@,
{
    let mut chars: Vec<char> = Vec::new();
    for c in it: text.chars()
        invariant
            chars@.len() == it.index(),
            it.seq() == text@,
            forall|j: int| 0 <= j < chars@.len() ==> chars@[j] == it.seq()[j],
    {
        chars.push(c);
    }
    assert(chars@ =~= text@);
    chars
}

/// True where the two texts are the same.
pub fn chars_equal(left: &Vec<char>, right: &Vec<char>) -> (same: bool)
    ensures
        same == (left@ == right@),
{
    if left.len() != right.len() {
        return false;
    }
    let mut i: usize = 0;
    while i < left.len()
        invariant
            i <= left@.len(),
            left@.len() == right@.len(),
            left@.subrange(0, i as int) == right@.subrange(0, i as int),
        decreases left@.len() - i,
    {
        if left[i] != right[i] {
            assert(left@[i as int] != right@[i as int]);
            return false;
        }
        assert(left@.subrange(0, i + 1) =~= left@.subrange(0, i as int).push(left@[i as int]));
        assert(right@.subrange(0, i + 1) =~= right@.subrange(0, i as int).push(
            right@[i as int],
        ));
        i = i + 1;
    }
    assert(left@ =~= left@.subrange(0, left@.len() as int));
    assert(right@ =~= right@.subrange(0, right@.len() as int));
    true
}

/// True where `word` spells `text`.
pub fn spells(word: &Vec<char>, text: &str) -> (same: bool)
    ensures
        same == (word@ == text@),
{
    let other = chars_of(text);
    chars_equal(word, &other)
}

/// True where the two texts are the same.
pub fn str_equal(left: &str, right: &str) -> (same: bool)
    ensures
        same == (left@ == right@),
{
    let word = chars_of(left);
    spells(&word, right)
}

/// What a fallible step came to, with the message of a failure as plain text.
pub open spec fn outcome<T>(result: Result<T, String>) -> Result<T, Seq<char>> {
    match result {
        Ok(value) => Ok(value),
        Err(message) => Err(message@),
    }
}

/// The decimal text of a machine word.
pub fn usize_to_decimal(value: usize) -> (text: String)
    ensures
        text@ == decimal_text(value as int),
{
    let mut chars: Vec<char> = Vec::new();
    push_decimal_digits(value as u128, &mut chars);
    assert(chars@ =~= decimal_digits(value as nat));
    string_from_chars(&chars)
}

/// The decimal text of a natural number.
pub fn nat_to_decimal(value: u128) -> (text: String)
    ensures
        text@ == decimal_text(value as int),
{
    let mut chars: Vec<char> = Vec::new();
    push_decimal_digits(value, &mut chars);
    assert(chars@ =~= decimal_digits(value as nat));
    string_from_chars(&chars)
}

/// The decimal text of a signed integer.
pub fn int_to_decimal(value: i128) -> (text: String)
    ensures
        text@ == decimal_text(value as int),
{
    let mut chars: Vec<char> = Vec::new();
    if value < 0 {
        chars.push('-');
        let magnitude: u128 = if value == i128::MIN {
            0x8000_0000_0000_0000_0000_0000_0000_0000u128
        } else {
            (-value) as u128
        };
        push_decimal_digits(magnitude, &mut chars);
        assert(chars@ =~= seq!['-'] + decimal_digits((-value) as nat));
    } else {
        push_decimal_digits(value as u128, &mut chars);
        assert(chars@ =~= decimal_digits(value as nat));
    }
    string_from_chars(&chars)
}

/// A copy of a name, part by part.
pub fn clone_name(name: &Vec<String>) -> (copy: Vec<String>)
    ensures
        copy@ == name@,
{
    let mut copy: Vec<String> = Vec::new();
    let mut i: usize = 0;
    while i < name.len()
        invariant
            i <= name@.len(),
            copy@ == name@.subrange(0, i as int),
        decreases name@.len() - i,
    {
        copy.push(name[i].clone());
        assert(copy@ =~= name@.subrange(0, i + 1));
        i = i + 1;
    }
    assert(name@.subrange(0, name@.len() as int) =~= name@);
    copy
}

} // verus!
