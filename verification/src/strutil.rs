//! Character-level string building and decimal formatting.

use vstd::prelude::*;

verus! {

/// Relies on `String::push`: appends the given character to the end of the
/// string, and does nothing else.
#[verifier::external_body]
pub(crate) fn push_char(s: &mut String, c: char)
    ensures
        final(s)@ == old(s)@.push(c),
{
    s.push(c);
}

/// The character for decimal digit `d`.
pub open spec fn digit_char(d: int) -> char {
    if d == 0 {
        '0'
    } else if d == 1 {
        '1'
    } else if d == 2 {
        '2'
    } else if d == 3 {
        '3'
    } else if d == 4 {
        '4'
    } else if d == 5 {
        '5'
    } else if d == 6 {
        '6'
    } else if d == 7 {
        '7'
    } else if d == 8 {
        '8'
    } else {
        '9'
    }
}

/// The decimal representation of `n >= 0`, most significant digit first,
/// with no leading zeros (the representation of 0 is "0").
pub open spec fn dec_digits(n: int) -> Seq<char>
    decreases n,
    when n >= 0
{
    if n < 10 {
        seq![digit_char(n)]
    } else {
        dec_digits(n / 10).push(digit_char(n % 10))
    }
}

/// The two-character, zero-padded decimal representation of `n`, for
/// `0 <= n <= 99`.
pub open spec fn two_digits(n: int) -> Seq<char> {
    seq![digit_char(n / 10), digit_char(n % 10)]
}

fn digit(d: u32) -> (r: char)
    requires
        d <= 9,
    ensures
        r == digit_char(d as int),
{
    if d == 0 {
        '0'
    } else if d == 1 {
        '1'
    } else if d == 2 {
        '2'
    } else if d == 3 {
        '3'
    } else if d == 4 {
        '4'
    } else if d == 5 {
        '5'
    } else if d == 6 {
        '6'
    } else if d == 7 {
        '7'
    } else if d == 8 {
        '8'
    } else {
        '9'
    }
}

/// Appends the decimal representation of `n` to `s`.
pub fn append_decimal(s: &mut String, n: u32)
    ensures
        final(s)@ == old(s)@ + dec_digits(n as int),
    decreases n,
{
    if n < 10 {
        push_char(s, digit(n));
    } else {
        append_decimal(s, n / 10);
        push_char(s, digit(n % 10));
        assert(s@ =~= old(s)@ + dec_digits(n as int));
    }
}

/// Appends the two-digit, zero-padded decimal representation of `n` to `s`.
pub fn append_two_digits(s: &mut String, n: u32)
    requires
        n <= 99,
    ensures
        final(s)@ == old(s)@ + two_digits(n as int),
{
    push_char(s, digit(n / 10));
    push_char(s, digit(n % 10));
    assert(s@ =~= old(s)@ + two_digits(n as int));
}

} // verus!
