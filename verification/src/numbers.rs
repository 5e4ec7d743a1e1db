//! Decimal rendering of numbers and the duration labels built from it.
use vstd::prelude::*;

use crate::text::{extend_all, string_of};

verus! {

/// The ASCII digit for `d < 10`.
pub open spec fn digit_char(d: nat) -> char {
    ((48 + d) as u32) as char
}

/// The decimal digits of `n`, without leading zeros (`n.to_string()`).
pub open spec fn decimal_text(n: nat) -> Seq<char>
    decreases n,
{
    if n < 10 {
        seq![digit_char(n)]
    } else {
        decimal_text(n / 10).push(digit_char(n % 10))
    }
}

/// The ASCII digit for `d`.
fn digit(d: u64) -> (c: char)
    requires
        d < 10,
    ensures
        c == digit_char(d as nat),
{
    match d {
        0 => '0',
        1 => '1',
        2 => '2',
        3 => '3',
        4 => '4',
        5 => '5',
        6 => '6',
        7 => '7',
        8 => '8',
        _ => '9',
    }
}

/// The decimal digits of `n`.
pub fn decimal_chars(n: u64) -> (v: Vec<char>)
    ensures
        v@ == decimal_text(n as nat),
    decreases n,
{
    if n < 10 {
        let mut v: Vec<char> = Vec::new();
        v.push(digit(n));
        assert(v@ =~= seq![digit_char(n as nat)]);
        v
    } else {
        let mut v = decimal_chars(n / 10);
        v.push(digit(n % 10));
        v
    }
}

/// `n` written in decimal.
pub fn decimal_string(n: u64) -> (s: String)
    ensures
        s@ == decimal_text(n as nat),
{
    string_of(&decimal_chars(n))
}

/// The uptime label for `seconds`: `{d}d {h}h {m}m` from one day on,
/// `{h}h {m}m` from one hour on, else `{m}m`; leftover seconds are dropped.
pub open spec fn duration_text(seconds: nat) -> Seq<char> {
    let days = seconds / 86_400;
    let hours = (seconds % 86_400) / 3_600;
    let minutes = (seconds % 3_600) / 60;
    if days > 0 {
        decimal_text(days) + seq!['d', ' '] + decimal_text(hours) + seq!['h', ' '] + decimal_text(
            minutes,
        ) + seq!['m']
    } else if hours > 0 {
        decimal_text(hours) + seq!['h', ' '] + decimal_text(minutes) + seq!['m']
    } else {
        decimal_text(minutes) + seq!['m']
    }
}

/// Formats an uptime given in seconds.
pub fn format_duration(seconds: u64) -> (s: String)
    ensures
        s@ == duration_text(seconds as nat),
{
    let days = seconds / 86_400;
    let hours = (seconds % 86_400) / 3_600;
    let minutes = (seconds % 3_600) / 60;
    let mut out: Vec<char> = Vec::new();
    if days > 0 {
        extend_all(&mut out, &decimal_chars(days));
        extend_all(&mut out, &['d', ' ']);
        extend_all(&mut out, &decimal_chars(hours));
        extend_all(&mut out, &['h', ' ']);
    } else if hours > 0 {
        extend_all(&mut out, &decimal_chars(hours));
        extend_all(&mut out, &['h', ' ']);
    }
    extend_all(&mut out, &decimal_chars(minutes));
    out.push('m');
    assert(out@ =~= duration_text(seconds as nat));
    string_of(&out)
}

} // verus!
