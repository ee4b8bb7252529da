//! Sizes as the summary of a trim shows them.

use vstd::prelude::*;
use vstd::string::{StrSliceExecFns, StringExecFns};

verus! {

/// `numerator / denominator`, rounded to the nearest whole number; a tie
/// goes to the even one.
pub open spec fn round_half_even(numerator: nat, denominator: nat) -> nat
    recommends
        denominator > 0,
{
    let quotient = numerator / denominator;
    let rest = numerator % denominator;
    if 2 * rest > denominator || (2 * rest == denominator && quotient % 2 == 1) {
        quotient + 1
    } else {
        quotient
    }
}

/// The distance between neighbouring double-precision numbers at the size
/// of `n`: 1 below 2^53, and twice as much for each further bit.
pub open spec fn double_step(n: nat) -> nat
    decreases n,
{
    if n < 0x20_0000_0000_0000 {
        1
    } else {
        2 * double_step(n / 2)
    }
}

/// `n` as a double-precision number holds it: rounded to 53 significant bits.
pub open spec fn as_double(n: nat) -> nat {
    round_half_even(n, double_step(n)) * double_step(n)
}

/// A size in hundredths of a mebibyte, as arithmetic in double precision
/// gives it.
pub open spec fn mb_hundredths(bytes: nat) -> nat {
    round_half_even(as_double(bytes) * 100, 0x10_0000)
}

/// The decimal digit of `d`.
pub open spec fn digit(d: nat) -> char
    recommends
        d < 10,
{
    "0123456789"@[d as int]
}

/// `n` in decimal digits, without leading zeros.
pub open spec fn decimal(n: nat) -> Seq<char>
    decreases n,
{
    if n < 10 {
        seq![digit(n)]
    } else {
        decimal(n / 10).push(digit(n % 10))
    }
}

/// A size as the summary shows it: in mebibytes with two decimals, then ` MB`.
pub open spec fn mb_text(bytes: nat) -> Seq<char> {
    let hundredths = mb_hundredths(bytes);
    decimal(hundredths / 100) + "."@ + seq![
        digit(hundredths % 100 / 10),
        digit(hundredths % 10),
    ] + " MB"@
}

/// Computes [`round_half_even`].
fn divide_half_even(numerator: u128, denominator: u128) -> (rounded: u128)
    requires
        0 < denominator <= 0x10_0000,
        numerator < 0x1_0000_0000_0000_0000_0000,
    ensures
        rounded == round_half_even(numerator as nat, denominator as nat),
        rounded <= numerator / denominator + 1,
{
    let quotient: u128 = numerator / denominator;
    let rest: u128 = numerator % denominator;
    if 2 * rest > denominator || (2 * rest == denominator && quotient % 2 == 1) {
        quotient + 1
    } else {
        quotient
    }
}

/// Computes [`double_step`].
fn step_of(n: u64) -> (step: u64)
    ensures
        step == double_step(n as nat),
        1 <= step < 0x1000,
        step == 1 || step * 0x10_0000_0000_0000 <= n,
    decreases n,
{
    if n < 0x20_0000_0000_0000 {
        1
    } else {
        let half = step_of(n / 2);
        2 * half
    }
}

/// Appends the digit of `d` to `text`.
fn push_digit(text: String, d: u64) -> (longer: String)
    requires
        d < 10,
    ensures
        longer@ == text@.push(digit(d as nat)),
{
    proof {
        reveal_strlit("0123456789");
    }
    let one = "0123456789".substring_char(d as usize, d as usize + 1);
    text.concat(one)
}

/// Appends `n` in decimal digits to `text`.
fn push_decimal(text: String, n: u64) -> (longer: String)
    ensures
        longer@ == text@ + decimal(n as nat),
    decreases n,
{
    if n < 10 {
        push_digit(text, n)
    } else {
        let front = push_decimal(text, n / 10);
        push_digit(front, n % 10)
    }
}

/// Writes a size in mebibytes with two decimals, as `12.34 MB`.
///
/// The size is divided in double precision, so a size of 2^53 bytes or
/// more is first rounded to 53 significant bits.
pub fn format_mb(bytes: u64) -> (text: String)
    ensures
        text@ == mb_text(bytes as nat),
{
    let step: u64 = step_of(bytes);
    let units: u128 = divide_half_even(bytes as u128, step as u128);
    assert(units * step <= 0x1_0000_0000_0000_1000) by (nonlinear_arith)
        requires
            units <= bytes / step + 1,
            0 < step < 0x1000,
            bytes <= 0xffff_ffff_ffff_ffff,
    ;
    let double: u128 = units * (step as u128);
    let hundredths: u128 = divide_half_even(double * 100, 0x10_0000);
    let whole: u64 = (hundredths / 100) as u64;
    let tenths: u64 = (hundredths % 100 / 10) as u64;
    let last: u64 = (hundredths % 10) as u64;
    let text = push_decimal(String::new(), whole);
    let text = text.concat(".");
    let text = push_digit(text, tenths);
    let text = push_digit(text, last);
    text.concat(" MB")
}

/// By how many bytes the trim made the archive smaller; 0 where it did not.
pub fn size_reduction(original_size: u64, trimmed_size: u64) -> (saved: u64)
    ensures
        saved == if original_size >= trimmed_size {
            original_size - trimmed_size
        } else {
            0
        },
{
    if original_size >= trimmed_size {
        original_size - trimmed_size
    } else {
        0
    }
}

} // verus!
