//! Human-readable byte counts and uptimes, as shown in the footer, the file
//! tables and the detail panel.
use vstd::prelude::*;
use vstd::arithmetic::div_mod::lemma_div_denominator;
use crate::text::{dec, digit_char, push_char, push_decimal};

verus! {

/// `2^n`.
pub open spec fn pow2(n: nat) -> nat
    decreases n,
{
    if n == 0 {
        1
    } else {
        2 * pow2((n - 1) as nat)
    }
}

/// How many low bits of `b` a double cannot hold: `b` is kept to 53
/// significant bits.
pub open spec fn excess_bits(b: nat) -> nat
    decreases b,
{
    if b < 9007199254740992 {
        0
    } else {
        1 + excess_bits(b / 2)
    }
}

/// `q` rounded by the remainder `r` out of `unit`: to nearest, ties to even.
pub open spec fn round_half_even(q: nat, r: nat, unit: nat) -> nat {
    if 2 * r > unit || (2 * r == unit && q % 2 == 1) {
        q + 1
    } else {
        q
    }
}

/// The value of `b as f64`: `b` rounded to 53 significant bits, to nearest
/// with ties to even.
pub open spec fn f64_value(b: nat) -> nat {
    let u = pow2(excess_bits(b));
    round_half_even(b / u, b % u, u) * u
}

/// `v / div` in hundredths, rounded to nearest with ties to even (what
/// `{:.2}` prints for the exact quotient).
pub open spec fn hundredths(v: nat, div: nat) -> nat {
    round_half_even((v * 100) / div, (v * 100) % div, div)
}

/// A number of hundredths written with two decimals.
pub open spec fn two_decimals(h: nat) -> Seq<char> {
    dec(h / 100) + seq!['.', digit_char((h % 100) / 10), digit_char(h % 10)]
}

/// `format_bytes` as text: below 1024 bytes the whole number of bytes, else
/// the value in the largest binary unit (KiB to TiB) it reaches, with two
/// decimals.
pub open spec fn bytes_text(b: nat) -> Seq<char> {
    let v = f64_value(b);
    if v >= pow2(40) {
        two_decimals(hundredths(v, pow2(40))) + seq![' ', 'T', 'i', 'B']
    } else if v >= pow2(30) {
        two_decimals(hundredths(v, pow2(30))) + seq![' ', 'G', 'i', 'B']
    } else if v >= pow2(20) {
        two_decimals(hundredths(v, pow2(20))) + seq![' ', 'M', 'i', 'B']
    } else if v >= pow2(10) {
        two_decimals(hundredths(v, pow2(10))) + seq![' ', 'K', 'i', 'B']
    } else {
        dec(v) + seq![' ', 'B']
    }
}

/// `format_uptime` as text.
pub open spec fn uptime_text(s: nat) -> Seq<char> {
    let days = s / 86400;
    let hours = (s % 86400) / 3600;
    let minutes = (s % 3600) / 60;
    let secs = s % 60;
    if days > 0 {
        dec(days) + seq!['d', ' '] + dec(hours) + seq!['h', ' '] + dec(minutes) + seq!['m']
    } else if hours > 0 {
        dec(hours) + seq!['h', ' '] + dec(minutes) + seq!['m', ' '] + dec(secs) + seq!['s']
    } else if minutes > 0 {
        dec(minutes) + seq!['m', ' '] + dec(secs) + seq!['s']
    } else {
        dec(secs) + seq!['s']
    }
}

proof fn lemma_pow2_facts()
    ensures
        pow2(10) == 1024,
        pow2(20) == 1048576,
        pow2(30) == 1073741824,
        pow2(40) == 1099511627776,
        pow2(53) == 9007199254740992,
{
    reveal_with_fuel(pow2, 54);
}

/// The value `b as f64` takes, as an exact integer.
fn f64_of(b: u64) -> (v: u128)
    ensures
        v == f64_value(b as nat),
        v <= 18446744073709555712,
        (b as nat) < pow2(53) ==> v == b,
{
    proof {
        lemma_pow2_facts();
    }
    let mut cur: u64 = b;
    let mut unit: u128 = 1;
    let ghost mut shift: nat = 0;
    while cur >= 9007199254740992u64
        invariant
            unit == pow2(shift),
            cur as nat == (b as nat) / (unit as nat),
            excess_bits(b as nat) == shift + excess_bits(cur as nat),
            1 <= unit <= 4096,
            pow2(53) == 9007199254740992,
            (unit as nat) * (cur as nat) <= b as nat,
            (b as nat) < pow2(53) ==> unit == 1,
        decreases cur,
    {
        proof {
            lemma_div_denominator(b as int, unit as int, 2);
            assert(excess_bits(cur as nat) == 1 + excess_bits((cur / 2) as nat));
            assert(unit * 9007199254740992 <= unit * cur) by (nonlinear_arith)
                requires
                    cur >= 9007199254740992,
                    unit >= 1,
            ;
            assert(unit <= 2047) by (nonlinear_arith)
                requires
                    unit * 9007199254740992 <= b,
                    b <= 18446744073709551615,
            ;
            assert(2 * (cur / 2) <= cur);
            assert((unit * 2) * (cur / 2) <= unit * cur) by (nonlinear_arith)
                requires
                    2 * (cur / 2) <= cur,
                    unit >= 1,
            ;
        }
        cur = cur / 2;
        unit = unit * 2;
        proof {
            shift = shift + 1;
            assert(unit == pow2(shift));
        }
    }
    let r: u128 = (b as u128) % unit;
    let q: u128 = cur as u128;
    let up: bool = 2 * r > unit || (2 * r == unit && q % 2 == 1);
    let rounded: u128 = if up { q + 1 } else { q };
    proof {
        assert((b as nat) % (unit as nat) == r);
        assert(rounded as nat == round_half_even(q as nat, r as nat, unit as nat));
        assert(rounded * unit <= 18446744073709555712) by (nonlinear_arith)
            requires
                rounded <= q + 1,
                q * unit <= b,
                b <= 18446744073709551615,
                unit <= 4096,
                unit >= 1,
        ;
        if (b as nat) < pow2(53) {
            assert(excess_bits(b as nat) == 0);
            assert(unit == 1);
            assert(r == 0);
        }
    }
    rounded * unit
}

/// `v / div` in hundredths, rounded half to even.
fn hundredths_of(v: u128, div: u128) -> (h: u128)
    requires
        0 < div <= 1099511627776,
        v <= 18446744073709555712,
    ensures
        h == hundredths(v as nat, div as nat),
        h <= (v as nat) * 100 / (div as nat) + 1,
{
    let n: u128 = v * 100;
    let q: u128 = n / div;
    let r: u128 = n % div;
    if 2 * r > div || (2 * r == div && q % 2 == 1) {
        q + 1
    } else {
        q
    }
}

/// Appends a number of hundredths with two decimals.
fn push_two_decimals(out: &mut String, h: u64)
    ensures
        final(out)@ == old(out)@ + two_decimals(h as nat),
{
    push_decimal(out, (h / 100) as u128);
    push_char(out, '.');
    let tens: u8 = ((h % 100) / 10) as u8;
    let ones: u8 = (h % 10) as u8;
    push_char(out, (48u8 + tens) as char);
    push_char(out, (48u8 + ones) as char);
    proof {
        assert(final(out)@ =~= old(out)@ + two_decimals(h as nat));
    }
}

/// Appends the letters of a binary unit ("TiB", ...) after a space.
fn push_unit(out: &mut String, prefix: char)
    ensures
        final(out)@ == old(out)@ + seq![' ', prefix, 'i', 'B'],
{
    push_char(out, ' ');
    push_char(out, prefix);
    push_char(out, 'i');
    push_char(out, 'B');
    proof {
        assert(final(out)@ =~= old(out)@ + seq![' ', prefix, 'i', 'B']);
    }
}

/// Format a byte count in human-readable form (binary units).
pub fn format_bytes(bytes: u64) -> (r: String)
    ensures
        r@ == bytes_text(bytes as nat),
{
    proof {
        lemma_pow2_facts();
    }
    let v: u128 = f64_of(bytes);
    let mut out = String::new();
    let (div, prefix): (u128, char) = if v >= 1099511627776u128 {
        (1099511627776u128, 'T')
    } else if v >= 1073741824u128 {
        (1073741824u128, 'G')
    } else if v >= 1048576u128 {
        (1048576u128, 'M')
    } else if v >= 1024u128 {
        (1024u128, 'K')
    } else {
        push_decimal(&mut out, v);
        push_char(&mut out, ' ');
        push_char(&mut out, 'B');
        proof {
            assert(out@ =~= bytes_text(bytes as nat));
        }
        return out;
    };
    let h: u128 = hundredths_of(v, div);
    proof {
        assert((v as nat) * 100 / (div as nat) <= (v as nat) * 100) by (nonlinear_arith)
            requires
                div >= 1,
        ;
        assert((v as nat) * 100 / (div as nat) <= 1844674407370955571200);
    }
    push_two_decimals(&mut out, h as u64);
    push_unit(&mut out, prefix);
    proof {
        assert(out@ =~= bytes_text(bytes as nat));
    }
    out
}

/// Format a duration in seconds as a compact human-readable uptime string.
pub fn format_uptime(seconds: u64) -> (r: String)
    ensures
        r@ == uptime_text(seconds as nat),
{
    let days = seconds / 86400;
    let hours = (seconds % 86400) / 3600;
    let minutes = (seconds % 3600) / 60;
    let secs = seconds % 60;
    let mut out = String::new();
    if days > 0 {
        push_decimal(&mut out, days as u128);
        push_char(&mut out, 'd');
        push_char(&mut out, ' ');
        push_decimal(&mut out, hours as u128);
        push_char(&mut out, 'h');
        push_char(&mut out, ' ');
        push_decimal(&mut out, minutes as u128);
        push_char(&mut out, 'm');
    } else if hours > 0 {
        push_decimal(&mut out, hours as u128);
        push_char(&mut out, 'h');
        push_char(&mut out, ' ');
        push_decimal(&mut out, minutes as u128);
        push_char(&mut out, 'm');
        push_char(&mut out, ' ');
        push_decimal(&mut out, secs as u128);
        push_char(&mut out, 's');
    } else if minutes > 0 {
        push_decimal(&mut out, minutes as u128);
        push_char(&mut out, 'm');
        push_char(&mut out, ' ');
        push_decimal(&mut out, secs as u128);
        push_char(&mut out, 's');
    } else {
        push_decimal(&mut out, secs as u128);
        push_char(&mut out, 's');
    }
    proof {
        assert(out@ =~= uptime_text(seconds as nat));
    }
    out
}

/// Whole days of an uptime of `s` seconds.
pub open spec fn uptime_days(s: nat) -> nat {
    s / 86400
}

/// Hours past the whole days.
pub open spec fn uptime_hours(s: nat) -> nat {
    (s % 86400) / 3600
}

/// Minutes past the whole hours.
pub open spec fn uptime_minutes(s: nat) -> nat {
    (s % 3600) / 60
}

/// Seconds past the whole minutes.
pub open spec fn uptime_seconds(s: nat) -> nat {
    s % 60
}

/// The numbers `format_uptime` prints recompose the uptime: days, hours,
/// minutes and seconds add up to it (seconds are left out once days are
/// shown), every part after the first is below its bound, and the first part
/// shown is positive unless the text is `0s`.
pub proof fn law_uptime_parts_recompose(s: nat)
    ensures
        uptime_days(s) * 86400 + uptime_hours(s) * 3600 + uptime_minutes(s) * 60 + uptime_seconds(s)
            == s,
        uptime_hours(s) < 24,
        uptime_minutes(s) < 60,
        uptime_seconds(s) < 60,
        uptime_days(s) > 0 ==> uptime_text(s) == dec(uptime_days(s)) + seq!['d', ' '] + dec(
            uptime_hours(s),
        ) + seq!['h', ' '] + dec(uptime_minutes(s)) + seq!['m'],
        uptime_days(s) == 0 && uptime_hours(s) > 0 ==> uptime_text(s) == dec(uptime_hours(s))
            + seq!['h', ' '] + dec(uptime_minutes(s)) + seq!['m', ' '] + dec(uptime_seconds(s))
            + seq!['s'],
        uptime_days(s) == 0 && uptime_hours(s) == 0 && uptime_minutes(s) > 0 ==> uptime_text(s)
            == dec(uptime_minutes(s)) + seq!['m', ' '] + dec(uptime_seconds(s)) + seq!['s'],
        uptime_days(s) == 0 && uptime_hours(s) == 0 && uptime_minutes(s) == 0 ==> uptime_text(s)
            == dec(uptime_seconds(s)) + seq!['s'] && uptime_seconds(s) == s,
{
    let r = s % 86400;
    assert(s == (s / 86400) * 86400 + r);
    assert(r == (r / 3600) * 3600 + r % 3600);
    assert(s % 3600 == r % 3600) by {
        vstd::arithmetic::div_mod::lemma_mod_mod(s as int, 3600, 24);
    }
    assert(s % 3600 == ((s % 3600) / 60) * 60 + s % 60) by {
        vstd::arithmetic::div_mod::lemma_mod_mod(s as int, 60, 60);
    }
}

} // verus!
