//! Human-readable file sizes, computed exactly in integers.
//!
//! A size is shown as a byte count converted to a double, divided by a
//! power of 1024, and printed with a fixed number of decimals. Every step
//! is exact on dyadic rationals: the conversion rounds to 53 significant
//! bits (ties to even), division by 1024 only moves the exponent, and the
//! printed digits are the value rounded to the given number of decimals
//! (ties to even).
use vstd::prelude::*;
use crate::text::{dec, push_str, push_dec, string_from_chars, digit, digit_char};

verus! {

pub const TWO_POW_53: u128 = 9007199254740992u128;

/// `n / d` rounded to the nearest integer, ties to the even neighbour.
pub open spec fn round_half_even(n: nat, d: nat) -> nat {
    let q = n / d;
    let r = n % d;
    if 2 * r > d || (2 * r == d && q % 2 == 1) {
        q + 1
    } else {
        q
    }
}

fn round_half_even_exec(n: u128, d: u128) -> (r: u128)
    requires
        d > 0,
        n < 0x1_0000_0000_0000_0000_0000_0000u128,
    ensures
        r == round_half_even(n as nat, d as nat),
{
    let q = n / d;
    let r = n % d;
    assert(q <= n) by (nonlinear_arith)
        requires
            q == n / d,
            d > 0,
    ;
    if r > d - r || (r == d - r && q % 2 == 1) {
        q + 1
    } else {
        q
    }
}

/// Halve `x` (doubling `pw`) until it has at most 53 significant bits.
pub open spec fn scale_down(x: nat, pw: nat) -> (nat, nat)
    decreases x,
{
    if x < TWO_POW_53 {
        (x, pw)
    } else {
        scale_down(x / 2, pw * 2)
    }
}

/// The exact value of `b as f64`: `b` rounded to 53 significant bits.
pub open spec fn f64_value(b: nat) -> nat {
    let pw = scale_down(b, 1).1;
    round_half_even(b, pw) * pw
}


/// The exact value of `b as f64`.
fn f64_value_exec(b: u64) -> (r: u128)
    ensures
        r == f64_value(b as nat),
        r <= 0x2_0000_0000_0000_0000u128,
{
    let mut x: u128 = b as u128;
    let mut pw: u128 = 1;
    while x >= TWO_POW_53
        invariant
            pw >= 1,
            pw == 1 || pw <= b,
            pw > 1 ==> x >= TWO_POW_53 / 2,
            x == (b as nat) / (pw as nat),
            scale_down(b as nat, 1) == scale_down(x as nat, pw as nat),
        decreases x,
    {
        assert(x / 2 == (b as nat) / ((pw * 2) as nat)) by {
            vstd::arithmetic::div_mod::lemma_div_denominator(b as int, pw as int, 2);
        }
        assert(pw * 2 <= b) by (nonlinear_arith)
            requires
                x == (b as nat) / (pw as nat),
                x >= 2,
                pw >= 1,
        ;
        x = x / 2;
        pw = pw * 2;
    }
    let m = round_half_even_exec(b as u128, pw);
    assert(((b as u128) as nat) == (b as nat));
    assert(round_half_even(b as nat, pw as nat) <= (b as nat) / (pw as nat) + 1);
    assert(m <= (b as nat) / (pw as nat) + 1);
    assert(m <= x + 1);
    proof {
        vstd::arithmetic::div_mod::lemma_fundamental_div_mod(b as int, pw as int);
        assert(x * pw <= b);
        if pw > 1 {
            assert(pw < 4096) by (nonlinear_arith)
                requires
                    x * pw <= b,
                    x >= TWO_POW_53 / 2,
                    b < 0x1_0000_0000_0000_0000u128,
            ;
        }
        assert(m * pw <= 0x2_0000_0000_0000_0000u128) by (nonlinear_arith)
            requires
                m <= x + 1,
                x < TWO_POW_53,
                pw == 1 ==> x <= b,
                pw == 1 || pw < 4096,
                b < 0x1_0000_0000_0000_0000u128,
                pw >= 1,
        ;
    }
    m * pw
}

/// `n / d` with `places` decimals, rounded ties to even, as `{:.places}`
/// prints it.
pub open spec fn fixed_decimal(n: nat, d: nat, places: nat) -> Seq<char> {
    let scale: nat = if places == 1 { 10 } else { 100 };
    let q = round_half_even(n * scale, d);
    let frac = q % scale;
    dec(q / scale) + seq!['.'] + if places == 1 {
        seq![digit(frac)]
    } else {
        seq![digit(frac / 10), digit(frac % 10)]
    }
}

fn push_dec_u128(out: &mut Vec<char>, n: u128)
    requires
        n < 0x1_0000_0000_0000_0000u128,
    ensures
        final(out)@ == old(out)@ + dec(n as nat),
{
    push_dec(out, n as u64);
}

fn push_fixed(out: &mut Vec<char>, n: u128, d: u128, places: u32)
    requires
        d >= 1024,
        places == 1 || places == 2,
        n <= 0x2_0000_0000_0000_0000u128,
    ensures
        final(out)@ == old(out)@ + fixed_decimal(n as nat, d as nat, places as nat),
{
    let scale: u128 = if places == 1 { 10 } else { 100 };
    let q = round_half_even_exec(n * scale, d);
    let ghost ns: int = n * scale;
    assert(q / scale < 0x1_0000_0000_0000_0000u128) by (nonlinear_arith)
        requires
            q <= ns / (d as int) + 1,
            d >= 1024,
            0 <= ns <= 100 * 0x2_0000_0000_0000_0000u128,
            scale >= 10,
    {
        assert(ns / (d as int) <= ns / 1024);
        assert(q / scale <= q);
    }
    let frac = q % scale;
    push_dec_u128(out, q / scale);
    out.push('.');
    if places == 1 {
        out.push(digit_char(frac as u64));
    } else {
        out.push(digit_char((frac / 10) as u64));
        out.push(digit_char((frac % 10) as u64));
    }
    assert(out@ =~= old(out)@ + fixed_decimal(n as nat, d as nat, places as nat));
}

/// A size in the host listing style: `{n}B` below 1 KiB, then one decimal
/// in KB below 1 MiB, and in MB above.
pub open spec fn human_size(bytes: nat) -> Seq<char> {
    if bytes < 1024 {
        dec(bytes) + seq!['B']
    } else if bytes < 1024 * 1024 {
        fixed_decimal(bytes, 1024, 1) + "KB"@
    } else {
        fixed_decimal(f64_value(bytes), 1024 * 1024, 1) + "MB"@
    }
}

/// Format file size in the host listDirectory style (`8B`, `8.0KB`, `16.1MB`).
pub fn format_human_size(bytes: u64) -> (r: String)
    ensures
        r@ == human_size(bytes as nat),
{
    let mut out: Vec<char> = Vec::new();
    if bytes < 1024 {
        push_dec(&mut out, bytes);
        out.push('B');
    } else if bytes < 1024 * 1024 {
        push_fixed(&mut out, bytes as u128, 1024, 1);
        push_str(&mut out, "KB");
    } else {
        let f = f64_value_exec(bytes);
        push_fixed(&mut out, f, 1024 * 1024, 1);
        push_str(&mut out, "MB");
    }
    assert(out@ =~= human_size(bytes as nat));
    string_from_chars(out.as_slice())
}

/// The unit a size is shown in: how many times its double value can be
/// divided by 1024 while staying at least 1024, at most four times.
pub open spec fn unit_index(f: nat) -> nat {
    if f < 1024 {
        0
    } else if f < 1024 * 1024 {
        1
    } else if f < 1024 * 1024 * 1024 {
        2
    } else if f < 1024 * 1024 * 1024 * 1024 {
        3
    } else {
        4
    }
}

pub open spec fn unit_name(i: nat) -> Seq<char> {
    if i == 0 { "B"@ } else if i == 1 { "KB"@ } else if i == 2 { "MB"@ } else if i == 3 { "GB"@ } else { "TB"@ }
}

pub open spec fn unit_divisor(i: nat) -> nat {
    if i == 0 { 1 } else if i == 1 { 1024 } else if i == 2 { 1024 * 1024 } else if i == 3 { 1024 * 1024 * 1024 } else { 1024 * 1024 * 1024 * 1024 }
}

/// A file size with two decimals in the largest unit (B to TB) in which it
/// is at least 1, whole bytes below 1 KiB.
pub open spec fn file_size_text(bytes: nat) -> Seq<char> {
    let f = f64_value(bytes);
    let i = unit_index(f);
    if i == 0 {
        dec(bytes) + " B"@
    } else {
        fixed_decimal(f, unit_divisor(i), 2) + seq![' '] + unit_name(i)
    }
}

/// Format file size in bytes to human-readable format (B, KB, MB, GB, TB).
pub fn format_file_size(bytes: u64) -> (r: String)
    ensures
        r@ == file_size_text(bytes as nat),
{
    let f = f64_value_exec(bytes);
    let mut out: Vec<char> = Vec::new();
    let (i, d, unit): (u32, u128, &str) = if f < 1024 {
        (0, 1, "B")
    } else if f < 1024 * 1024 {
        (1, 1024, "KB")
    } else if f < 1024 * 1024 * 1024 {
        (2, 1024 * 1024, "MB")
    } else if f < 1024 * 1024 * 1024 * 1024 {
        (3, 1024 * 1024 * 1024, "GB")
    } else {
        (4, 1024 * 1024 * 1024 * 1024, "TB")
    };
    if i == 0 {
        push_dec(&mut out, bytes);
        push_str(&mut out, " B");
    } else {
        push_fixed(&mut out, f, d, 2);
        out.push(' ');
        push_str(&mut out, unit);
    }
    assert(out@ =~= file_size_text(bytes as nat));
    string_from_chars(out.as_slice())
}

} // verus!
