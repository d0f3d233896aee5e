//! Text forms: Latin-1 strings and upper-case hexadecimal.

use vstd::prelude::*;
use vstd::string::*;

verus! {

/// `String::push` appends one character.
pub assume_specification[ String::push ](s: &mut String, c: char)
    ensures
        final(s)@ == old(s)@.push(c),
;

/// The upper-case hexadecimal digit of a value below sixteen.
pub open spec fn hex_digit(v: int) -> char {
    if v == 0 { '0' }
    else if v == 1 { '1' }
    else if v == 2 { '2' }
    else if v == 3 { '3' }
    else if v == 4 { '4' }
    else if v == 5 { '5' }
    else if v == 6 { '6' }
    else if v == 7 { '7' }
    else if v == 8 { '8' }
    else if v == 9 { '9' }
    else if v == 10 { 'A' }
    else if v == 11 { 'B' }
    else if v == 12 { 'C' }
    else if v == 13 { 'D' }
    else if v == 14 { 'E' }
    else { 'F' }
}

fn hex_digit_char(v: u8) -> (c: char)
    requires
        v < 16,
    ensures
        c == hex_digit(v as int),
{
    if v == 0 { '0' }
    else if v == 1 { '1' }
    else if v == 2 { '2' }
    else if v == 3 { '3' }
    else if v == 4 { '4' }
    else if v == 5 { '5' }
    else if v == 6 { '6' }
    else if v == 7 { '7' }
    else if v == 8 { '8' }
    else if v == 9 { '9' }
    else if v == 10 { 'A' }
    else if v == 11 { 'B' }
    else if v == 12 { 'C' }
    else if v == 13 { 'D' }
    else if v == 14 { 'E' }
    else { 'F' }
}

/// Whether a character is one of the sixteen upper-case hexadecimal digits.
pub open spec fn is_upper_hex(c: char) -> bool {
    exists|v: int| 0 <= v < 16 && c == #[trigger] hex_digit(v)
}

/// `value` in upper-case hexadecimal, cut or zero-padded to `digits` digits.
pub open spec fn hex_upper(value: nat, digits: nat) -> Seq<char>
    decreases digits,
{
    if digits == 0 {
        Seq::empty()
    } else {
        hex_upper(value / 16, (digits - 1) as nat).push(hex_digit((value % 16) as int))
    }
}

/// A run of hexadecimal digits has as many characters as were asked for, and
/// each of them is an upper-case hexadecimal digit.
pub proof fn lemma_hex_upper_shape(value: nat, digits: nat)
    ensures
        hex_upper(value, digits).len() == digits,
        forall|i: int| 0 <= i < digits ==> is_upper_hex(#[trigger] hex_upper(value, digits)[i]),
    decreases digits,
{
    if digits > 0 {
        lemma_hex_upper_shape(value / 16, (digits - 1) as nat);
        let d = (value % 16) as int;
        assert(is_upper_hex(hex_digit(d)));
    }
}

/// Appends `value` to `s` as `digits` upper-case hexadecimal digits.
pub fn push_hex(s: &mut String, value: u64, digits: usize)
    ensures
        final(s)@ == old(s)@ + hex_upper(value as nat, digits as nat),
    decreases digits,
{
    if digits > 0 {
        push_hex(s, value / 16, digits - 1);
        s.push(hex_digit_char((value % 16) as u8));
        assert(s@ =~= old(s)@ + hex_upper(value as nat, digits as nat));
    } else {
        assert(s@ =~= old(s)@ + hex_upper(value as nat, digits as nat));
    }
}

/// The canonical text of a 64-bit rolling hash: sixteen upper-case
/// hexadecimal digits, the highest first.
pub fn hex_u64(value: u64) -> (s: String)
    ensures
        s@ == hex_upper(value as nat, 16),
        s@.len() == 16,
        forall|i: int| 0 <= i < 16 ==> is_upper_hex(#[trigger] s@[i]),
{
    let mut s = String::new();
    push_hex(&mut s, value, 16);
    proof {
        lemma_hex_upper_shape(value as nat, 16);
        assert(s@ =~= hex_upper(value as nat, 16));
    }
    s
}

/// Two upper-case hexadecimal digits for each byte, the high half first.
pub open spec fn hex_bytes(data: Seq<u8>) -> Seq<char> {
    Seq::new(
        2 * data.len(),
        |i: int|
            if i % 2 == 0 {
                hex_digit(data[i / 2] as int / 16)
            } else {
                hex_digit(data[i / 2] as int % 16)
            },
    )
}

/// The text of a run of bytes has two characters for each byte, and each of
/// them is an upper-case hexadecimal digit.
pub proof fn lemma_hex_bytes_shape(data: Seq<u8>)
    ensures
        hex_bytes(data).len() == 2 * data.len(),
        forall|i: int|
            0 <= i < 2 * data.len() ==> is_upper_hex(#[trigger] hex_bytes(data)[i]),
{
    assert forall|i: int| 0 <= i < 2 * data.len() implies is_upper_hex(
        #[trigger] hex_bytes(data)[i],
    ) by {
        let b = data[i / 2] as int;
        if i % 2 == 0 {
            assert(is_upper_hex(hex_digit(b / 16)));
        } else {
            assert(is_upper_hex(hex_digit(b % 16)));
        }
    }
}

/// `hex::encode_upper` on a byte slice: for each byte its two hexadecimal
/// digits in upper case, the high half first, in the order of the bytes.
/// The text is twice as long as the input; `requires` leaves out the inputs
/// whose text would not fit a string on every machine.
#[verifier::external_body]
pub(crate) fn encode_upper(data: &[u8]) -> (s: String)
    requires
        data@.len() <= 0x3FFF_FFFF,
    ensures
        s@ == hex_bytes(data@),
{
    hex::encode_upper(data)
}

/// The value of an upper-case hexadecimal digit.
pub open spec fn hex_value(c: char) -> Option<int> {
    if c == '0' { Some(0) }
    else if c == '1' { Some(1) }
    else if c == '2' { Some(2) }
    else if c == '3' { Some(3) }
    else if c == '4' { Some(4) }
    else if c == '5' { Some(5) }
    else if c == '6' { Some(6) }
    else if c == '7' { Some(7) }
    else if c == '8' { Some(8) }
    else if c == '9' { Some(9) }
    else if c == 'A' { Some(10) }
    else if c == 'B' { Some(11) }
    else if c == 'C' { Some(12) }
    else if c == 'D' { Some(13) }
    else if c == 'E' { Some(14) }
    else if c == 'F' { Some(15) }
    else { None }
}

/// The value of a character that is an upper-case hexadecimal digit.
pub fn hex_value_of(c: char) -> (v: Option<u8>)
    ensures
        match v {
            Some(d) => hex_value(c) == Some(d as int) && d < 16,
            None => hex_value(c) is None,
        },
{
    if c == '0' { Some(0) }
    else if c == '1' { Some(1) }
    else if c == '2' { Some(2) }
    else if c == '3' { Some(3) }
    else if c == '4' { Some(4) }
    else if c == '5' { Some(5) }
    else if c == '6' { Some(6) }
    else if c == '7' { Some(7) }
    else if c == '8' { Some(8) }
    else if c == '9' { Some(9) }
    else if c == 'A' { Some(10) }
    else if c == 'B' { Some(11) }
    else if c == 'C' { Some(12) }
    else if c == 'D' { Some(13) }
    else if c == 'E' { Some(14) }
    else if c == 'F' { Some(15) }
    else { None }
}

/// The number that a run of upper-case hexadecimal digits writes, the highest
/// digit first; nothing where a character is no such digit.
pub open spec fn parse_hex(s: Seq<char>) -> Option<nat>
    decreases s.len(),
{
    if s.len() == 0 {
        Some(0)
    } else {
        match (parse_hex(s.drop_last()), hex_value(s.last())) {
            (Some(high), Some(d)) => Some((16 * high + d) as nat),
            _ => None,
        }
    }
}

/// Sixteen to the power of `n`.
pub open spec fn pow16(n: nat) -> nat
    decreases n,
{
    if n == 0 {
        1
    } else {
        16 * pow16((n - 1) as nat)
    }
}

/// Reading back what was written gives the number that was written, where
/// the digits were enough to hold it.
pub proof fn lemma_parse_hex_of_hex_upper(value: nat, digits: nat)
    requires
        value < pow16(digits),
    ensures
        parse_hex(hex_upper(value, digits)) == Some(value),
    decreases digits,
{
    if digits > 0 {
        let text = hex_upper(value, digits);
        let high = hex_upper(value / 16, (digits - 1) as nat);
        assert(text.drop_last() =~= high);
        assert(text.last() == hex_digit((value % 16) as int));
        lemma_parse_hex_of_hex_upper(value / 16, (digits - 1) as nat);
    }
}

/// A number below one hundred as two decimal digits, a larger one as three.
pub open spec fn two_digit(value: u8) -> Seq<char> {
    if value < 100 {
        seq![hex_digit(value as int / 10), hex_digit(value as int % 10)]
    } else {
        seq![
            hex_digit(value as int / 100),
            hex_digit(value as int / 10 % 10),
            hex_digit(value as int % 10),
        ]
    }
}

/// Appends a number in decimal, zero-padded to two digits.
pub fn push_two_digit(s: &mut String, value: u8)
    ensures
        final(s)@ == old(s)@ + two_digit(value),
{
    if value >= 100 {
        s.push(hex_digit_char(value / 100));
    }
    s.push(hex_digit_char(value / 10 % 10));
    s.push(hex_digit_char(value % 10));
    assert(s@ =~= old(s)@ + two_digit(value));
}

/// The text in which each byte stands for the character of the same number.
pub open spec fn latin1(bytes: Seq<u8>) -> Seq<char> {
    Seq::new(bytes.len(), |i: int| bytes[i] as char)
}

/// The text of a run of bytes, each byte one character.
pub fn string_from_latin1(bytes: &[u8]) -> (s: String)
    ensures
        s@ == latin1(bytes@),
{
    let mut s = String::new();
    let mut i: usize = 0;
    while i < bytes.len()
        invariant
            i <= bytes.len(),
            s@ == latin1(bytes@.subrange(0, i as int)),
        decreases bytes.len() - i,
    {
        s.push(bytes[i] as char);
        i += 1;
        assert(s@ =~= latin1(bytes@.subrange(0, i as int)));
    }
    assert(bytes@.subrange(0, i as int) =~= bytes@);
    s
}

} // verus!
