//! Humanized presentation of an entry's age: the stored age in seconds
//! reduced to seconds, minutes, hours or days, and its textual form.

use vstd::prelude::*;

verus! {

/// The decimal digit character for `d`.
pub open spec fn digit_char(d: int) -> char {
    if d == 0 {
        '0'
    } else if d == 1 {
        '1'
    } else if d == 2 {
        '2'
    } else if d == 3 {
        '3'
    } else if d == 4 {
        '4'
    } else if d == 5 {
        '5'
    } else if d == 6 {
        '6'
    } else if d == 7 {
        '7'
    } else if d == 8 {
        '8'
    } else {
        '9'
    }
}

/// The decimal digits of a non-negative number, most significant first.
pub open spec fn dec_digits(n: int) -> Seq<char>
    decreases n,
{
    if n < 10 {
        seq![digit_char(n)]
    } else {
        dec_digits(n / 10).push(digit_char(n % 10))
    }
}

/// The decimal text of a number, with a leading minus sign when
/// negative.
pub open spec fn dec_str(v: int) -> Seq<char> {
    if v < 0 {
        seq!['-'] + dec_digits(-v)
    } else {
        dec_digits(v)
    }
}

/// The humanized text of an age in seconds: the age under a minute in
/// seconds, under an hour in minutes, under a day in hours, and in days
/// beyond that, each with its unit letter.
pub open spec fn spec_format_duration(s: int) -> Seq<char> {
    if s < 60 {
        dec_str(s).push('s')
    } else if s < 3600 {
        dec_digits(s / 60).push('m')
    } else if s < 86400 {
        dec_digits(s / 3600).push('h')
    } else {
        dec_digits(s / 86400).push('d')
    }
}

/// The humanized magnitude of an age in seconds, without its unit.
pub open spec fn spec_get_age(s: int) -> int {
    if s < 60 {
        s
    } else if s < 3600 {
        s / 60
    } else if s < 86400 {
        s / 3600
    } else {
        s / 86400
    }
}

/// The decimal digit character for `d`, executable form.
fn digit_char_of(d: u64) -> (r: char)
    requires
        d < 10,
    ensures
        r == digit_char(d as int),
{
    match d {
        0 => '0',
        1 => '1',
        2 => '2',
        3 => '3',
        4 => '4',
        5 => '5',
        6 => '6',
        7 => '7',
        8 => '8',
        _ => '9',
    }
}

/// Relies on String::push: appends the one character to the string.
#[verifier::external_body]
fn push_char(s: &mut String, c: char)
    ensures
        final(s)@ == old(s)@.push(c),
{
    s.push(c);
}

/// Appends the decimal digits of `n`.
fn push_dec_digits(n: u64, out: &mut String)
    ensures
        final(out)@ == old(out)@ + dec_digits(n as int),
    decreases n,
{
    if n < 10 {
        push_char(out, digit_char_of(n));
        assert(old(out)@.push(digit_char(n as int)) =~= old(out)@ + dec_digits(n as int));
    } else {
        push_dec_digits(n / 10, out);
        push_char(out, digit_char_of(n % 10));
        assert((old(out)@ + dec_digits(n as int / 10)).push(digit_char(n as int % 10)) =~= old(
            out,
        )@ + dec_digits(n as int));
    }
}

/// The humanized text of an age in seconds, e.g. seconds under a
/// minute, minutes under an hour, hours under a day, days beyond.
pub fn format_duration(seconds: i64) -> (r: String)
    ensures
        r@ == spec_format_duration(seconds as int),
{
    let mut out: String = String::new();
    if seconds < 60 {
        if seconds < 0 {
            push_char(&mut out, '-');
            let mag: u64 = (-(seconds as i128)) as u64;
            assert(mag as int == -(seconds as int));
            push_dec_digits(mag, &mut out);
            push_char(&mut out, 's');
            assert(out@ =~= spec_format_duration(seconds as int));
        } else {
            push_dec_digits(seconds as u64, &mut out);
            push_char(&mut out, 's');
            assert(out@ =~= spec_format_duration(seconds as int));
        }
    } else if seconds < 3600 {
        push_dec_digits((seconds as u64) / 60, &mut out);
        push_char(&mut out, 'm');
        assert(out@ =~= spec_format_duration(seconds as int));
    } else if seconds < 86400 {
        push_dec_digits((seconds as u64) / 3600, &mut out);
        push_char(&mut out, 'h');
        assert(out@ =~= spec_format_duration(seconds as int));
    } else {
        push_dec_digits((seconds as u64) / 86400, &mut out);
        push_char(&mut out, 'd');
        assert(out@ =~= spec_format_duration(seconds as int));
    }
    out
}

/// The humanized magnitude of an age in seconds: the number shown next
/// to the unit `format_duration` picks.
pub fn get_age(seconds: i64) -> (r: i64)
    ensures
        r == spec_get_age(seconds as int),
{
    if seconds < 60 {
        seconds
    } else if seconds < 3600 {
        ((seconds as u64) / 60) as i64
    } else if seconds < 86400 {
        ((seconds as u64) / 3600) as i64
    } else {
        ((seconds as u64) / 86400) as i64
    }
}

} // verus!
