//! Reading one side of the image from a line of text.
//!
//! A line gives a side if, between white space at its two ends, it spells a
//! positive number in decimal digits that fits 32 bits; a plus sign may
//! stand before the digits. Every other line has to be asked for again.

use vstd::prelude::*;

verus! {

/// Whether `c` is white space: a character with the Unicode property
/// White_Space.
pub open spec fn is_white_space(c: char) -> bool {
    let code = c as u32;
    ||| 0x09 <= code <= 0x0D
    ||| code == 0x20
    ||| code == 0x85
    ||| code == 0xA0
    ||| code == 0x1680
    ||| 0x2000 <= code <= 0x200A
    ||| code == 0x2028
    ||| code == 0x2029
    ||| code == 0x202F
    ||| code == 0x205F
    ||| code == 0x3000
}

/// Whether `c` is one of the digits `0` to `9`.
pub open spec fn is_digit(c: char) -> bool {
    0x30 <= c as u32 <= 0x39
}

/// The value of a digit.
pub open spec fn digit_value(c: char) -> nat {
    (c as u32 - 0x30) as nat
}

/// The text without the white space at its start.
pub open spec fn trim_start(text: Seq<char>) -> Seq<char>
    decreases text.len(),
{
    if text.len() > 0 && is_white_space(text.first()) {
        trim_start(text.drop_first())
    } else {
        text
    }
}

/// The text without the white space at its end.
pub open spec fn trim_end(text: Seq<char>) -> Seq<char>
    decreases text.len(),
{
    if text.len() > 0 && is_white_space(text.last()) {
        trim_end(text.drop_last())
    } else {
        text
    }
}

/// The text without the white space at its two ends.
pub open spec fn trim(text: Seq<char>) -> Seq<char> {
    trim_end(trim_start(text))
}

/// Whether every character of `text` is a digit.
pub open spec fn all_digits(text: Seq<char>) -> bool {
    forall|i: int| 0 <= i < text.len() ==> is_digit(#[trigger] text[i])
}

/// The number that a text of digits spells in base ten; the empty text
/// spells zero.
pub open spec fn decimal_value(digits: Seq<char>) -> nat
    decreases digits.len(),
{
    if digits.len() == 0 {
        0
    } else {
        decimal_value(digits.drop_last()) * 10 + digit_value(digits.last())
    }
}

/// The text after its plus sign, if it starts with one.
pub open spec fn unsigned_part(text: Seq<char>) -> Seq<char> {
    if text.len() > 0 && text.first() == '+' {
        text.drop_first()
    } else {
        text
    }
}

/// The number that a text spells: an optional plus sign, then at least one
/// digit and nothing but digits, with a value that fits 32 bits.
pub open spec fn spec_number(text: Seq<char>) -> Option<u32> {
    let digits = unsigned_part(text);
    if digits.len() > 0 && all_digits(digits) && decimal_value(digits) <= u32::MAX {
        Some(decimal_value(digits) as u32)
    } else {
        None
    }
}

/// The side of an image that a line of input gives: the number between the
/// white space at its ends, if there is one and it is positive.
pub open spec fn spec_read_side(line: Seq<char>) -> Option<u32> {
    match spec_number(trim(line)) {
        Some(value) => if value > 0 {
            Some(value)
        } else {
            None
        },
        None => None,
    }
}

/// Whether `c` is white space.
pub fn white_space(c: char) -> (yes: bool)
    ensures
        yes == is_white_space(c),
{
    let code: u32 = c as u32;
    (0x09 <= code && code <= 0x0D) || code == 0x20 || code == 0x85 || code == 0xA0 || code
        == 0x1680 || (0x2000 <= code && code <= 0x200A) || code == 0x2028 || code == 0x2029
        || code == 0x202F || code == 0x205F || code == 0x3000
}

/// A longer text of digits spells no smaller a number than its beginning.
pub proof fn lemma_decimal_value_grows(digits: Seq<char>, count: int)
    requires
        0 <= count <= digits.len(),
    ensures
        decimal_value(digits.take(count)) <= decimal_value(digits),
    decreases digits.len() - count,
{
    if count == digits.len() {
        assert(digits.take(count) =~= digits);
    } else {
        lemma_decimal_value_grows(digits, count + 1);
        assert(digits.take(count + 1).drop_last() =~= digits.take(count));
    }
}

/// The number spelled by the characters of `line` from `from` up to `to`.
fn number_between(line: &str, from: usize, to: usize) -> (number: Option<u32>)
    requires
        from <= to <= line@.len(),
    ensures
        number == spec_number(line@.subrange(from as int, to as int)),
{
    let mut at: usize = from;
    if from < to && line.get_char(from) == '+' {
        at = from + 1;
    }
    let ghost digits = line@.subrange(at as int, to as int);
    if at == to {
        return None;
    }
    let first: usize = at;
    let mut value: u64 = 0;
    while at < to
        invariant
            from <= first <= at <= to <= line@.len(),
            first < to,
            digits == line@.subrange(first as int, to as int),
            digits == unsigned_part(line@.subrange(from as int, to as int)),
            all_digits(digits.take(at - first)),
            value == decimal_value(digits.take(at - first)),
            value <= u32::MAX,
        decreases to - at,
    {
        let c: char = line.get_char(at);
        let code: u32 = c as u32;
        proof {
            assert(digits.take(at - first + 1).drop_last() =~= digits.take(at - first));
            assert(digits.take(at - first + 1).last() == c);
        }
        if code < 0x30 || code > 0x39 {
            return None;
        }
        let next: u64 = value * 10 + (code - 0x30) as u64;
        if next > u32::MAX as u64 {
            proof {
                lemma_decimal_value_grows(digits, at - first + 1);
            }
            return None;
        }
        proof {
            assert forall|i: int| 0 <= i < at - first + 1 implies is_digit(
                #[trigger] digits.take(at - first + 1)[i],
            ) by {}
        }
        value = next;
        at = at + 1;
    }
    proof {
        assert(digits.take(to - first) =~= digits);
    }
    Some(value as u32)
}

/// Reads the side of an image from one line of input: white space around
/// the number is ignored, and the number must be positive. `None` means
/// that the line has to be asked for again.
pub fn read_side(line: &str) -> (side: Option<u32>)
    ensures
        side == spec_read_side(line@),
{
    let length: usize = line.unicode_len();
    let mut from: usize = 0;
    proof {
        assert(line@.subrange(0, length as int) =~= line@);
    }
    while from < length && white_space(line.get_char(from))
        invariant
            from <= length == line@.len(),
            trim_start(line@) == trim_start(line@.subrange(from as int, length as int)),
        decreases length - from,
    {
        proof {
            let rest = line@.subrange(from as int, length as int);
            assert(rest.drop_first() =~= line@.subrange(from + 1, length as int));
        }
        from = from + 1;
    }
    let mut to: usize = length;
    while from < to && white_space(line.get_char(to - 1))
        invariant
            from <= to <= length == line@.len(),
            trim(line@) == trim_end(line@.subrange(from as int, to as int)),
        decreases to - from,
    {
        proof {
            let rest = line@.subrange(from as int, to as int);
            assert(rest.drop_last() =~= line@.subrange(from as int, to - 1));
        }
        to = to - 1;
    }
    match number_between(line, from, to) {
        Some(value) => if value > 0 {
            Some(value)
        } else {
            None
        },
        None => None,
    }
}

} // verus!
