//! Text that the pipeline writes and reads: decimal numbers, and bytes taken as UTF-8.

use vstd::prelude::*;
use vstd::string::StringExecFns;
use vstd::utf8::{decode_utf8, valid_utf8};
use crate::bytes::copy_range;

verus! {

/// The character of a decimal digit.
pub open spec fn digit_char(digit: int) -> char {
    if digit == 0 {
        '0'
    } else if digit == 1 {
        '1'
    } else if digit == 2 {
        '2'
    } else if digit == 3 {
        '3'
    } else if digit == 4 {
        '4'
    } else if digit == 5 {
        '5'
    } else if digit == 6 {
        '6'
    } else if digit == 7 {
        '7'
    } else if digit == 8 {
        '8'
    } else {
        '9'
    }
}

/// The decimal digits of a number, without leading zeros.
pub open spec fn decimal(n: nat) -> Seq<char>
    decreases n,
{
    if n < 10 {
        seq![digit_char(n as int)]
    } else {
        decimal(n / 10).push(digit_char((n % 10) as int))
    }
}

/// The number that a character stands for as a decimal digit.
pub open spec fn digit_value(c: char) -> nat {
    if c == '1' {
        1
    } else if c == '2' {
        2
    } else if c == '3' {
        3
    } else if c == '4' {
        4
    } else if c == '5' {
        5
    } else if c == '6' {
        6
    } else if c == '7' {
        7
    } else if c == '8' {
        8
    } else if c == '9' {
        9
    } else {
        0
    }
}

/// The number that a sequence of decimal digits spells.
pub open spec fn decimal_value(digits: Seq<char>) -> nat
    decreases digits.len(),
{
    if digits.len() == 0 {
        0
    } else {
        decimal_value(digits.drop_last()) * 10 + digit_value(digits.last())
    }
}

/// The digits of a number spell the number.
pub proof fn lemma_decimal_value(n: nat)
    ensures
        decimal_value(decimal(n)) == n,
        decimal(n).len() > 0,
    decreases n,
{
    if n < 10 {
        let digits = decimal(n);
        assert(digits.drop_last() =~= Seq::<char>::empty());
        assert(decimal_value(digits.drop_last()) == 0);
        assert(digits.last() == digit_char(n as int));
    } else {
        lemma_decimal_value(n / 10);
        let digits = decimal(n);
        assert(digits.drop_last() =~= decimal(n / 10));
        assert(digits.last() == digit_char((n % 10) as int));
    }
}

/// Different numbers have different digits.
pub proof fn lemma_decimal_injective(a: nat, b: nat)
    requires
        decimal(a) == decimal(b),
    ensures
        a == b,
{
    lemma_decimal_value(a);
    lemma_decimal_value(b);
}

/// The text of one decimal digit.
fn digit_text(digit: u64) -> (text: &'static str)
    requires
        digit < 10,
    ensures
        text@ == seq![digit_char(digit as int)],
{
    proof {
        reveal_strlit("0");
        reveal_strlit("1");
        reveal_strlit("2");
        reveal_strlit("3");
        reveal_strlit("4");
        reveal_strlit("5");
        reveal_strlit("6");
        reveal_strlit("7");
        reveal_strlit("8");
        reveal_strlit("9");
    }
    let text = if digit == 0 {
        "0"
    } else if digit == 1 {
        "1"
    } else if digit == 2 {
        "2"
    } else if digit == 3 {
        "3"
    } else if digit == 4 {
        "4"
    } else if digit == 5 {
        "5"
    } else if digit == 6 {
        "6"
    } else if digit == 7 {
        "7"
    } else if digit == 8 {
        "8"
    } else {
        "9"
    };
    text
}

/// Appends the decimal digits of `n` to `out`.
pub fn push_decimal(out: &mut String, n: u64)
    ensures
        final(out)@ == old(out)@ + decimal(n as nat),
    decreases n,
{
    if n >= 10 {
        push_decimal(out, n / 10);
    }
    out.append(digit_text(n % 10));
}

/// The decimal digits of `n` as text.
pub fn decimal_text(n: u64) -> (text: String)
    ensures
        text@ == decimal(n as nat),
{
    let mut text = String::new();
    push_decimal(&mut text, n);
    text
}

/// ASCII white space: tab, line feed, vertical tab, form feed, carriage return and space.
pub open spec fn is_ascii_space(byte: u8) -> bool {
    (9 <= byte <= 13) || byte == 32
}

/// White space: the ASCII kind, and with `wide` also the bytes of next line and no-break
/// space, by which a byte is a character of its own number.
pub open spec fn is_space_in(byte: u8, wide: bool) -> bool {
    is_ascii_space(byte) || (wide && (byte == 0x85 || byte == 0xA0))
}

/// `bytes` without the white space at its start.
pub open spec fn trim_start_in(bytes: Seq<u8>, wide: bool) -> Seq<u8>
    decreases bytes.len(),
{
    if bytes.len() > 0 && is_space_in(bytes[0], wide) {
        trim_start_in(bytes.drop_first(), wide)
    } else {
        bytes
    }
}

/// `bytes` without the white space at its end.
pub open spec fn trim_end_in(bytes: Seq<u8>, wide: bool) -> Seq<u8>
    decreases bytes.len(),
{
    if bytes.len() > 0 && is_space_in(bytes.last(), wide) {
        trim_end_in(bytes.drop_last(), wide)
    } else {
        bytes
    }
}

/// `bytes` without the white space at either end.
pub open spec fn trimmed_in(bytes: Seq<u8>, wide: bool) -> Seq<u8> {
    trim_end_in(trim_start_in(bytes, wide), wide)
}

/// The contents of a text file without the ASCII white space at either end.
pub open spec fn trimmed_ascii(bytes: Seq<u8>) -> Seq<u8> {
    trimmed_in(bytes, false)
}

/// Tells whether a byte is white space.
pub fn space_in(byte: u8, wide: bool) -> (yes: bool)
    ensures
        yes == is_space_in(byte, wide),
{
    (9 <= byte && byte <= 13) || byte == 32 || (wide && (byte == 0x85 || byte == 0xA0))
}

/// Trimming the part of `bytes` from `from` on equals trimming all of it, where only
/// white space stands before `from`.
proof fn lemma_trim_start_skip(bytes: Seq<u8>, wide: bool, from: int)
    requires
        0 <= from <= bytes.len(),
        forall|k: int| 0 <= k < from ==> is_space_in(#[trigger] bytes[k], wide),
    ensures
        trim_start_in(bytes, wide) == trim_start_in(bytes.skip(from), wide),
    decreases from,
{
    if from == 0 {
        assert(bytes.skip(0) =~= bytes);
    } else {
        assert(is_space_in(bytes[0], wide));
        let tail = bytes.drop_first();
        assert forall|k: int| 0 <= k < from - 1 implies is_space_in(#[trigger] tail[k], wide) by {
            assert(tail[k] == bytes[k + 1]);
        }
        lemma_trim_start_skip(tail, wide, from - 1);
        assert(tail.skip(from - 1) =~= bytes.skip(from));
    }
}

/// Trimming the part of `bytes` up to `to` equals trimming all of it, where only white
/// space stands from `to` on.
proof fn lemma_trim_end_take(bytes: Seq<u8>, wide: bool, to: int)
    requires
        0 <= to <= bytes.len(),
        forall|k: int| to <= k < bytes.len() ==> is_space_in(#[trigger] bytes[k], wide),
    ensures
        trim_end_in(bytes, wide) == trim_end_in(bytes.take(to), wide),
    decreases bytes.len() - to,
{
    if to == bytes.len() {
        assert(bytes.take(to) =~= bytes);
    } else {
        assert(is_space_in(bytes.last(), wide));
        let front = bytes.drop_last();
        lemma_trim_end_take(front, wide, to);
        assert(front.take(to) =~= bytes.take(to));
    }
}

/// Removes the white space at both ends of `bytes`.
pub fn trim_in(bytes: &[u8], wide: bool) -> (out: Vec<u8>)
    ensures
        out@ == trimmed_in(bytes@, wide),
{
    let mut from: usize = 0;
    while from < bytes.len() && space_in(bytes[from], wide)
        invariant
            from <= bytes@.len(),
            forall|k: int| 0 <= k < from ==> is_space_in(#[trigger] bytes@[k], wide),
        decreases bytes@.len() - from,
    {
        from = from + 1;
    }
    let mut to: usize = bytes.len();
    while to > from && space_in(bytes[to - 1], wide)
        invariant
            from <= to <= bytes@.len(),
            forall|k: int| to <= k < bytes@.len() ==> is_space_in(#[trigger] bytes@[k], wide),
        decreases to,
    {
        to = to - 1;
    }
    proof {
        let tail = bytes@.skip(from as int);
        lemma_trim_start_skip(bytes@, wide, from as int);
        assert forall|k: int| to - from <= k < tail.len() implies is_space_in(
            #[trigger] tail[k],
            wide,
        ) by {
            assert(tail[k] == bytes@[k + from]);
        }
        lemma_trim_end_take(tail, wide, to - from);
        let kept = tail.take(to - from);
        assert(trim_end_in(kept, wide) == kept) by {
            if kept.len() > 0 {
                assert(kept.last() == bytes@[to - 1]);
            }
        }
    }
    copy_range(bytes, from, to)
}

/// Removes the ASCII white space at both ends of the contents of a text file.
pub fn trim_ascii(bytes: &[u8]) -> (out: Vec<u8>)
    ensures
        out@ == trimmed_ascii(bytes@),
{
    trim_in(bytes, false)
}

/// Calls `String::from_utf8` of std.
///
/// The contract claims what std documents: the call succeeds exactly on valid UTF-8, and
/// the text holds the characters that the bytes encode.
#[verifier::external_body]
pub(crate) fn string_from_utf8(bytes: Vec<u8>) -> (res: Option<String>)
    ensures
        res is Some <==> valid_utf8(bytes@),
        res matches Some(text) ==> text@ == decode_utf8(bytes@),
{
    String::from_utf8(bytes).ok()
}

} // verus!
