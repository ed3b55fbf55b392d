//! Building the lines of text that the walkthroughs print.

use vstd::prelude::*;

verus! {

/// Taken on trust from the documentation of `String::push`: it appends the
/// one character at the end of the text and leaves what was there before in
/// place.
pub assume_specification[ String::push ](text: &mut String, ch: char)
    ensures
        final(text)@ == old(text)@.push(ch),
;

/// The character for a single decimal digit.
pub open spec fn digit_of(d: nat) -> char
    recommends
        d < 10,
{
    ('0' as int + d) as char
}

/// The decimal digits of `n`, most significant first, without leading zeros.
pub open spec fn digits_of(n: nat) -> Seq<char>
    decreases n,
{
    if n < 10 {
        seq![digit_of(n)]
    } else {
        digits_of(n / 10).push(digit_of(n % 10))
    }
}

/// How an integer is written out: a minus sign for a negative number, then
/// the digits of its magnitude.
pub open spec fn decimal_text(n: int) -> Seq<char> {
    if n < 0 {
        seq!['-'] + digits_of((-n) as nat)
    } else {
        digits_of(n as nat)
    }
}

fn digit_char(d: u32) -> (c: char)
    requires
        d < 10,
    ensures
        c == digit_of(d as nat),
{
    ('0' as u8 + d as u8) as char
}

fn push_digits(text: &mut String, n: u32)
    ensures
        final(text)@ == old(text)@ + digits_of(n as nat),
    decreases n,
{
    if n >= 10 {
        push_digits(text, n / 10);
    }
    text.push(digit_char(n % 10));
}

fn magnitude(n: i32) -> (m: u32)
    ensures
        m == if n < 0 { -(n as int) } else { n as int },
{
    if n < 0 {
        let wide: i64 = n as i64;
        (0 - wide) as u32
    } else {
        n as u32
    }
}

/// Writes `n` out in decimal.
pub fn decimal(n: i32) -> (text: String)
    ensures
        text@ == decimal_text(n as int),
{
    let mut text = String::new();
    if n < 0 {
        text.push('-');
    }
    push_digits(&mut text, magnitude(n));
    text
}

/// Puts `prefix` in front of `value`.
pub fn with_prefix(prefix: &str, value: &str) -> (line: String)
    ensures
        line@ == prefix@ + value@,
{
    let mut line = String::from_str(prefix);
    line.append(value);
    line
}

} // verus!
