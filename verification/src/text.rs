//! Text for reports: durations in groups of three digits, and bytes in
//! hexadecimal.

use vstd::prelude::*;

verus! {

/// `String::push` of std: appends one character to the string.
#[verifier::external_body]
fn string_push(s: &mut String, c: char)
    ensures
        final(s)@ == old(s)@.push(c),
{
    s.push(c);
}

/// The character of the decimal digit `d`.
pub open spec fn digit(d: int) -> char {
    (48 + d) as char
}

/// `v`, below 1000, as three digits.
pub open spec fn zero_padded(v: int) -> Seq<char> {
    seq![digit(v / 100), digit(v / 10 % 10), digit(v % 10)]
}

/// `v`, below 1000, right-aligned in three columns.
pub open spec fn space_padded(v: int) -> Seq<char> {
    seq![
        if v >= 100 {
            digit(v / 100)
        } else {
            ' '
        },
        if v >= 10 {
            digit(v / 10 % 10)
        } else {
            ' '
        },
        digit(v % 10),
    ]
}

/// A duration in nanoseconds as groups of three digits, separated by
/// commas: nanoseconds and microseconds always, milliseconds and seconds
/// where there are any. Leading groups that are zero are left out, the first
/// group shown is padded with spaces, and whole thousands of seconds are
/// dropped.
pub open spec fn fmt_time_spec(time: u128) -> Seq<char> {
    let ns = time % 1000;
    let us = time % 1000000 / 1000;
    let ms = time % 1000000000 / 1000000;
    let s = time % 1000000000000 / 1000000000;
    if s == 0 && ms == 0 {
        space_padded(us as int) + seq![','] + zero_padded(ns as int)
    } else if s == 0 {
        space_padded(ms as int) + seq![','] + zero_padded(us as int) + seq![','] + zero_padded(
            ns as int,
        )
    } else {
        space_padded(s as int) + seq![','] + zero_padded(ms as int) + seq![','] + zero_padded(
            us as int,
        ) + seq![','] + zero_padded(ns as int)
    }
}

/// The character of the hexadecimal digit `d`, in upper case.
pub open spec fn hex_digit(d: int) -> char {
    if d < 10 {
        (48 + d) as char
    } else {
        (55 + d) as char
    }
}

/// The bytes `data` in hexadecimal, two upper-case digits for each byte.
pub open spec fn hex_spec(data: Seq<u8>) -> Seq<char> {
    Seq::new(
        2 * data.len(),
        |i: int|
            if i % 2 == 0 {
                hex_digit(data[i / 2] as int / 16)
            } else {
                hex_digit(data[i / 2] as int % 16)
            },
    )
}

/// The character of a digit below ten.
fn digit_char(d: u8) -> (c: char)
    requires
        d < 10,
    ensures
        c == digit(d as int),
{
    (48u8 + d) as char
}

/// The character of a digit below sixteen.
fn hex_char(d: u8) -> (c: char)
    requires
        d < 16,
    ensures
        c == hex_digit(d as int),
{
    if d < 10 {
        (48u8 + d) as char
    } else {
        (55u8 + d) as char
    }
}

/// Appends `v`, below 1000, as three digits.
fn push_zero_padded(out: &mut String, v: u128)
    requires
        v < 1000,
    ensures
        final(out)@ == old(out)@ + zero_padded(v as int),
{
    let hundreds: u8 = (v / 100) as u8;
    let tens: u8 = (v / 10 % 10) as u8;
    let ones: u8 = (v % 10) as u8;
    string_push(out, digit_char(hundreds));
    string_push(out, digit_char(tens));
    string_push(out, digit_char(ones));
}

/// Appends `v`, below 1000, right-aligned in three columns.
fn push_space_padded(out: &mut String, v: u128)
    requires
        v < 1000,
    ensures
        final(out)@ == old(out)@ + space_padded(v as int),
{
    let hundreds: u8 = (v / 100) as u8;
    let tens: u8 = (v / 10 % 10) as u8;
    let ones: u8 = (v % 10) as u8;
    if v >= 100 {
        string_push(out, digit_char(hundreds));
    } else {
        string_push(out, ' ');
    }
    if v >= 10 {
        string_push(out, digit_char(tens));
    } else {
        string_push(out, ' ');
    }
    string_push(out, digit_char(ones));
}

/// Formats a duration in nanoseconds in groups of three digits.
pub fn fmt_time(time: &u128) -> (text: String)
    ensures
        text@ == fmt_time_spec(*time),
{
    let t: u128 = *time;
    let ns: u128 = t % 1000;
    let us: u128 = t % 1000000 / 1000;
    let ms: u128 = t % 1000000000 / 1000000;
    let s: u128 = t % 1000000000000 / 1000000000;
    let mut text = String::new();
    if s == 0 && ms == 0 {
        push_space_padded(&mut text, us);
    } else if s == 0 {
        push_space_padded(&mut text, ms);
        string_push(&mut text, ',');
        push_zero_padded(&mut text, us);
    } else {
        push_space_padded(&mut text, s);
        string_push(&mut text, ',');
        push_zero_padded(&mut text, ms);
        string_push(&mut text, ',');
        push_zero_padded(&mut text, us);
    }
    string_push(&mut text, ',');
    push_zero_padded(&mut text, ns);
    text
}

/// Writes bytes in hexadecimal, two upper-case digits for each byte.
pub fn hex_upper(array: &[u8]) -> (text: String)
    ensures
        text@ == hex_spec(array@),
{
    let mut text = String::new();
    let mut i: usize = 0;
    while i < array.len()
        invariant
            i <= array@.len(),
            text@.len() == 2 * i,
            forall|j: int| 0 <= j < 2 * i ==> text@[j] == #[trigger] hex_spec(array@)[j],
        decreases array@.len() - i,
    {
        let b: u8 = array[i];
        string_push(&mut text, hex_char(b / 16));
        string_push(&mut text, hex_char(b % 16));
        i = i + 1;
    }
    text
}

} // verus!
