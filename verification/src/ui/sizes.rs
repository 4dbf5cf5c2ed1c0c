//! File sizes as they are shown, with the precision of double-precision numbers.

use vstd::prelude::*;

use crate::text::{decimal, push_decimal, push_text};

verus! {

/// The quotient rounded to the nearest whole number, a half to the even one.
pub open spec fn half_even(value: nat, unit: nat) -> nat {
    let whole = value / unit;
    let rest = value % unit;
    if 2 * rest > unit || (2 * rest == unit && whole % 2 == 1) {
        whole + 1
    } else {
        whole
    }
}

fn round_half_even(value: u128, unit: u128) -> (result: u128)
    requires
        0 < unit <= 0x1_0000_0000,
        value <= 0xff_ffff_ffff_ffff_ffff,
    ensures
        result == half_even(value as nat, unit as nat),
        result <= value + 1,
{
    let whole: u128 = value / unit;
    let rest: u128 = value % unit;
    assert(whole <= value) by (nonlinear_arith)
        requires
            unit > 0,
            whole == value / unit,
    ;
    if 2 * rest > unit || (2 * rest == unit && whole % 2 == 1) {
        whole + 1
    } else {
        whole
    }
}

/// What the last of 53 binary digits of a number counts.
pub open spec fn last_digit(bytes: u64) -> nat {
    if bytes < 0x20_0000_0000_0000 {
        1
    } else if bytes < 0x40_0000_0000_0000 {
        2
    } else if bytes < 0x80_0000_0000_0000 {
        4
    } else if bytes < 0x100_0000_0000_0000 {
        8
    } else if bytes < 0x200_0000_0000_0000 {
        16
    } else if bytes < 0x400_0000_0000_0000 {
        32
    } else if bytes < 0x800_0000_0000_0000 {
        64
    } else if bytes < 0x1000_0000_0000_0000 {
        128
    } else if bytes < 0x2000_0000_0000_0000 {
        256
    } else if bytes < 0x4000_0000_0000_0000 {
        512
    } else if bytes < 0x8000_0000_0000_0000 {
        1_024
    } else {
        2_048
    }
}

/// The double-precision number next to a size.
pub open spec fn as_double(bytes: u64) -> nat {
    half_even(bytes as nat, last_digit(bytes)) * last_digit(bytes)
}

fn nearest_double(bytes: u64) -> (result: u128)
    ensures
        result == as_double(bytes),
        result <= 0x1_0000_0000_0000_1000,
{
    let unit: u128 = if bytes < 0x20_0000_0000_0000 {
        1
    } else if bytes < 0x40_0000_0000_0000 {
        2
    } else if bytes < 0x80_0000_0000_0000 {
        4
    } else if bytes < 0x100_0000_0000_0000 {
        8
    } else if bytes < 0x200_0000_0000_0000 {
        16
    } else if bytes < 0x400_0000_0000_0000 {
        32
    } else if bytes < 0x800_0000_0000_0000 {
        64
    } else if bytes < 0x1000_0000_0000_0000 {
        128
    } else if bytes < 0x2000_0000_0000_0000 {
        256
    } else if bytes < 0x4000_0000_0000_0000 {
        512
    } else if bytes < 0x8000_0000_0000_0000 {
        1_024
    } else {
        2_048
    };
    let rounded = round_half_even(bytes as u128, unit);
    assert(rounded <= bytes as int / unit as int + 1);
    assert(rounded * unit <= bytes + unit) by (nonlinear_arith)
        requires
            unit > 0,
            rounded <= bytes as int / unit as int + 1,
    ;
    assert(rounded * unit <= 0x1_0000_0000_0000_1000);
    rounded * unit
}

/// A number with one digit behind the point, given in tenths.
pub open spec fn tenths_text(tenths: nat) -> Seq<char> {
    decimal(tenths / 10) + seq!['.'] + decimal(tenths % 10)
}

/// A size in gigabytes, to one digit behind the point.
pub open spec fn gigabytes(bytes: u64) -> Seq<char> {
    tenths_text(half_even(as_double(bytes) * 10, 0x4000_0000)) + " GB"@
}

/// A size in gigabytes, or in megabytes where it is less than one.
pub open spec fn short_size(bytes: u64) -> Seq<char> {
    if as_double(bytes) >= 0x4000_0000 {
        gigabytes(bytes)
    } else {
        decimal(half_even(as_double(bytes), 0x10_0000)) + " MB"@
    }
}

/// A size in gigabytes, to one digit behind the point.
pub fn format_bytes(bytes: u64) -> (result: String)
    ensures
        result@ == gigabytes(bytes),
{
    let size = nearest_double(bytes);
    let tenths = round_half_even(size * 10, 0x4000_0000);
    assert(half_even((size * 10) as nat, 0x4000_0000) <= size * 10 / 0x4000_0000 + 1);
    let mut text = String::new();
    push_decimal(&mut text, (tenths / 10) as u64);
    text.push('.');
    push_decimal(&mut text, (tenths % 10) as u64);
    push_text(&mut text, " GB");
    assert(text@ =~= gigabytes(bytes));
    text
}

/// A size in gigabytes, or in megabytes where it is less than one.
pub fn format_short_size(bytes: u64) -> (result: String)
    ensures
        result@ == short_size(bytes),
{
    let size = nearest_double(bytes);
    if size >= 0x4000_0000 {
        return format_bytes(bytes);
    }
    let megabytes = round_half_even(size, 0x10_0000);
    let mut text = String::new();
    push_decimal(&mut text, megabytes as u64);
    push_text(&mut text, " MB");
    assert(text@ =~= short_size(bytes));
    text
}

} // verus!
