//! The number that a line of input holds.
//!
//! A line holds a number when, with the white space at both ends taken off,
//! it is one or more decimal digits, with or without a plus sign before them,
//! and their value fits in a `u32`.

use vstd::prelude::*;

verus! {

/// Whether `c` is white space: one of the characters that Unicode lists under
/// the property White_Space.
pub open spec fn is_space(c: char) -> bool {
    let n = c as u32;
    ||| 0x09 <= n <= 0x0D
    ||| n == 0x20
    ||| n == 0x85
    ||| n == 0xA0
    ||| n == 0x1680
    ||| 0x2000 <= n <= 0x200A
    ||| n == 0x2028
    ||| n == 0x2029
    ||| n == 0x202F
    ||| n == 0x205F
    ||| n == 0x3000
}

/// Whether `c` is one of the digits `0` to `9`.
pub open spec fn is_digit(c: char) -> bool {
    0x30 <= c as u32 <= 0x39
}

/// The value of the digit `c`.
pub open spec fn digit_value(c: char) -> nat {
    (c as u32 - 0x30) as nat
}

/// The value of a sequence of digits read as a decimal number.
pub open spec fn decimal(digits: Seq<char>) -> nat
    decreases digits.len(),
{
    if digits.len() == 0 {
        0
    } else {
        10 * decimal(digits.drop_last()) + digit_value(digits.last())
    }
}

/// The text without the white space at its start.
pub open spec fn trim_start(text: Seq<char>) -> Seq<char>
    decreases text.len(),
{
    if text.len() > 0 && is_space(text.first()) {
        trim_start(text.drop_first())
    } else {
        text
    }
}

/// The text without the white space at its end.
pub open spec fn trim_end(text: Seq<char>) -> Seq<char>
    decreases text.len(),
{
    if text.len() > 0 && is_space(text.last()) {
        trim_end(text.drop_last())
    } else {
        text
    }
}

/// The text without the white space at both ends.
pub open spec fn trimmed(text: Seq<char>) -> Seq<char> {
    trim_end(trim_start(text))
}

/// Whether every character of the text is a digit.
pub open spec fn all_digits(text: Seq<char>) -> bool {
    forall|i: int| 0 <= i < text.len() ==> is_digit(#[trigger] text[i])
}

/// The digits of a token: the token without a plus sign at its start.
pub open spec fn unsigned(token: Seq<char>) -> Seq<char> {
    if token.len() > 0 && token[0] == '+' {
        token.drop_first()
    } else {
        token
    }
}

/// The number that a token is, if it is one: at least one digit and nothing
/// but digits after an optional plus sign, with a value that a `u32` holds.
pub open spec fn number_of(token: Seq<char>) -> Option<u32> {
    let digits = unsigned(token);
    if digits.len() > 0 && all_digits(digits) && decimal(digits) <= u32::MAX {
        Some(decimal(digits) as u32)
    } else {
        None
    }
}

/// The number that a line of input holds, if it holds one.
pub open spec fn number_in(line: Seq<char>) -> Option<u32> {
    number_of(trimmed(line))
}

/// Whether `c` is white space.
pub fn is_space_char(c: char) -> (yes: bool)
    ensures
        yes == is_space(c),
{
    let n = c as u32;
    (0x09 <= n && n <= 0x0D) || n == 0x20 || n == 0x85 || n == 0xA0 || n == 0x1680 || (0x2000 <= n
        && n <= 0x200A) || n == 0x2028 || n == 0x2029 || n == 0x202F || n == 0x205F || n == 0x3000
}

/// The characters of the text, one by one.
pub fn chars_of(text: &str) -> (chars: Vec<char>)
    ensures
        chars@ == text@,
{
    let mut chars: Vec<char> = Vec::new();
    for c in it: text.chars()
        invariant
            it.seq() == text@,
            chars@ == it.seq().take(it.index() as int),
    {
        chars.push(c);
    }
    assert(chars@ =~= text@);
    chars
}

/// The value of the digits before a place is at most the value of all of them.
pub proof fn lemma_decimal_prefix(digits: Seq<char>, k: int)
    requires
        0 <= k <= digits.len(),
    ensures
        decimal(digits.take(k)) <= decimal(digits),
    decreases digits.len(),
{
    if k == digits.len() {
        assert(digits.take(k) =~= digits);
    } else {
        lemma_decimal_prefix(digits.drop_last(), k);
        assert(digits.drop_last().take(k) =~= digits.take(k));
    }
}

/// The number that the characters from `from` up to `to` are, if they are one.
fn number_between(chars: &Vec<char>, from: usize, to: usize) -> (number: Option<u32>)
    requires
        from <= to <= chars.len(),
    ensures
        number == number_of(chars@.subrange(from as int, to as int)),
{
    let ghost token = chars@.subrange(from as int, to as int);
    let start = if from < to && chars[from] == '+' {
        from + 1
    } else {
        from
    };
    let ghost digits = chars@.subrange(start as int, to as int);
    assert(digits =~= unsigned(token));
    if start == to {
        return None;
    }
    let mut value: u32 = 0;
    let mut k: usize = start;
    assert(digits.take(0) =~= Seq::<char>::empty());
    while k < to
        invariant
            from <= start <= k <= to <= chars.len(),
            digits == chars@.subrange(start as int, to as int),
            digits == unsigned(chars@.subrange(from as int, to as int)),
            all_digits(digits.take(k - start)),
            value == decimal(digits.take(k - start)),
        decreases to - k,
    {
        let n = chars[k] as u32;
        let ghost read = digits.take(k - start);
        let ghost more = digits.take(k - start + 1);
        assert(more.drop_last() =~= read);
        assert(more.last() == chars@[k as int]);
        if n < 0x30 || n > 0x39 {
            assert(!is_digit(digits[k - start]));
            return None;
        }
        let longer: u64 = (value as u64) * 10 + ((n - 0x30) as u64);
        if longer > u32::MAX as u64 {
            proof {
                lemma_decimal_prefix(digits, k - start + 1);
            }
            return None;
        }
        value = longer as u32;
        k += 1;
    }
    assert(digits.take(k - start) =~= digits);
    Some(value)
}

/// The number that a line of input holds: `None` where it holds none. White
/// space at both ends of the line is passed over, a line end too.
pub fn read_number(line: &str) -> (number: Option<u32>)
    ensures
        number == number_in(line@),
{
    let chars = chars_of(line);
    let n = chars.len();
    let mut from: usize = 0;
    assert(chars@.subrange(0, n as int) =~= chars@);
    while from < n && is_space_char(chars[from])
        invariant
            from <= n == chars.len(),
            trim_start(chars@) == trim_start(chars@.subrange(from as int, n as int)),
        decreases n - from,
    {
        assert(chars@.subrange(from as int, n as int).drop_first() =~= chars@.subrange(
            from as int + 1,
            n as int,
        ));
        from += 1;
    }
    assert(trim_start(chars@) == chars@.subrange(from as int, n as int));
    let mut to: usize = n;
    while to > from && is_space_char(chars[to - 1])
        invariant
            from <= to <= n == chars.len(),
            trimmed(chars@) == trim_end(chars@.subrange(from as int, to as int)),
        decreases to,
    {
        assert(chars@.subrange(from as int, to as int).drop_last() =~= chars@.subrange(
            from as int,
            to as int - 1,
        ));
        to -= 1;
    }
    assert(trimmed(chars@) == chars@.subrange(from as int, to as int));
    number_between(&chars, from, to)
}

} // verus!
