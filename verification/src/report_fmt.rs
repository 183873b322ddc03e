//! Rendering a duration as a human-readable "HH:MM:SS" string.

use vstd::prelude::*;
use vstd::string::StringExecFns;

verus! {

/// The decimal digit character for `d` in `0..10`.
pub open spec fn digit_char(d: int) -> char {
    if d == 0 {
        '0'
    } else if d == 1 {
        '1'
    } else if d == 2 {
        '2'
    } else if d == 3 {
        '3'
    } else if d == 4 {
        '4'
    } else if d == 5 {
        '5'
    } else if d == 6 {
        '6'
    } else if d == 7 {
        '7'
    } else if d == 8 {
        '8'
    } else {
        '9'
    }
}

/// `n` written in decimal, most significant digit first, no leading zeros.
pub open spec fn spec_decimal_chars(n: nat) -> Seq<char>
    decreases n,
{
    if n < 10 {
        seq![digit_char(n as int)]
    } else {
        spec_decimal_chars(n / 10) + seq![digit_char((n % 10) as int)]
    }
}

/// `n` written in decimal, zero-padded on the left to at least two digits.
pub open spec fn spec_pad2(n: nat) -> Seq<char> {
    if n < 10 {
        seq!['0'] + spec_decimal_chars(n)
    } else {
        spec_decimal_chars(n)
    }
}

/// A duration of `millis` milliseconds as "HH:MM:SS": whole seconds split
/// into hours, minutes and seconds, each zero-padded to two digits, with no
/// day rollover, so the hour field grows beyond two digits when it must.
pub open spec fn spec_hms(millis: u128) -> Seq<char> {
    let secs = (millis as nat) / 1000;
    let hours = secs / 3600;
    let minutes = (secs % 3600) / 60;
    let seconds = secs % 60;
    spec_pad2(hours) + seq![':'] + spec_pad2(minutes) + seq![':'] + spec_pad2(seconds)
}

/// The one-character string for the decimal digit `d`.
fn digit_str(d: u128) -> (r: &'static str)
    requires
        d < 10,
    ensures
        r@ == seq![digit_char(d as int)],
{
    proof {
        reveal_strlit("0");
        reveal_strlit("1");
        reveal_strlit("2");
        reveal_strlit("3");
        reveal_strlit("4");
        reveal_strlit("5");
        reveal_strlit("6");
        reveal_strlit("7");
        reveal_strlit("8");
        reveal_strlit("9");
    }
    match d {
        0 => "0",
        1 => "1",
        2 => "2",
        3 => "3",
        4 => "4",
        5 => "5",
        6 => "6",
        7 => "7",
        8 => "8",
        _ => "9",
    }
}

/// Appends `n` in decimal.
fn push_decimal(out: &mut String, n: u128)
    ensures
        final(out)@ == old(out)@ + spec_decimal_chars(n as nat),
    decreases n,
{
    if n >= 10 {
        push_decimal(out, n / 10);
        out.append(digit_str(n % 10));
        proof {
            assert(out@ =~= old(out)@ + spec_decimal_chars(n as nat));
        }
    } else {
        out.append(digit_str(n));
        proof {
            assert(out@ =~= old(out)@ + spec_decimal_chars(n as nat));
        }
    }
}

/// Appends `n` in decimal, zero-padded to at least two digits.
fn push_pad2(out: &mut String, n: u128)
    ensures
        final(out)@ == old(out)@ + spec_pad2(n as nat),
{
    if n < 10 {
        out.append("0");
        proof {
            reveal_strlit("0");
        }
    }
    push_decimal(out, n);
    proof {
        assert(out@ =~= old(out)@ + spec_pad2(n as nat));
    }
}

/// Renders durations as zero-padded "HH:MM:SS".
#[derive(Debug, Clone, Copy, PartialEq, Eq, Structural)]
pub struct HMSFormatter;

impl Default for HMSFormatter {
    fn default() -> (f: Self)
        ensures
            f == (HMSFormatter {  }),
    {
        HMSFormatter {  }
    }
}

impl HMSFormatter {
    /// The duration of `duration_millis` milliseconds as "HH:MM:SS"; the
    /// sub-second remainder truncates.
    pub fn format(&self, duration_millis: u128) -> (r: String)
        ensures
            r@ == spec_hms(duration_millis),
    {
        let secs = duration_millis / 1000;
        let hours = secs / 3600;
        let minutes = (secs % 3600) / 60;
        let seconds = secs % 60;
        let mut out = String::new();
        push_pad2(&mut out, hours);
        out.append(":");
        push_pad2(&mut out, minutes);
        out.append(":");
        push_pad2(&mut out, seconds);
        proof {
            reveal_strlit(":");
            assert(out@ =~= spec_hms(duration_millis));
        }
        out
    }
}

} // verus!
