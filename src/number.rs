use vstd::prelude::*;

use rustc_apfloat::ieee::Double;
use rustc_apfloat::Float;

use crate::generic::Operator;

verus! {

// A number of the languages is an IEEE-754 double, held here as its bit pattern.

pub const SIGN_MASK: u64 = 0x8000_0000_0000_0000;

pub const EXPONENT_MASK: u64 = 0x7ff0_0000_0000_0000;

pub const FRACTION_MASK: u64 = 0x000f_ffff_ffff_ffff;

/// The IEEE-754 sum of two doubles, rounded to nearest, ties to even.
pub uninterp spec fn double_sum(a: u64, b: u64) -> u64;

/// The IEEE-754 difference of two doubles, rounded to nearest, ties to even.
pub uninterp spec fn double_difference(a: u64, b: u64) -> u64;

/// The IEEE-754 product of two doubles, rounded to nearest, ties to even.
pub uninterp spec fn double_product(a: u64, b: u64) -> u64;

/// The IEEE-754 quotient of two doubles, rounded to nearest, ties to even.
pub uninterp spec fn double_quotient(a: u64, b: u64) -> u64;

/// The remainder of a truncated division of two doubles (C's `fmod`).
pub uninterp spec fn double_remainder(a: u64, b: u64) -> u64;

/// The double nearest to a decimal literal.
pub uninterp spec fn double_of_decimal(text: Seq<char>) -> u64;

/// Relies on `Add` of `rustc_apfloat::ieee::Double`, which adds under
/// round-to-nearest-ties-to-even.
#[verifier::external_body]
pub(crate) fn add_doubles(a: u64, b: u64) -> (r: u64)
    ensures
        r == double_sum(a, b),
{
    (Double::from_bits(a as u128) + Double::from_bits(b as u128)).value.to_bits() as u64
}

/// Relies on `Sub` of `rustc_apfloat::ieee::Double`, which subtracts under
/// round-to-nearest-ties-to-even.
#[verifier::external_body]
pub(crate) fn sub_doubles(a: u64, b: u64) -> (r: u64)
    ensures
        r == double_difference(a, b),
{
    (Double::from_bits(a as u128) - Double::from_bits(b as u128)).value.to_bits() as u64
}

/// Relies on `Mul` of `rustc_apfloat::ieee::Double`, which multiplies under
/// round-to-nearest-ties-to-even.
#[verifier::external_body]
pub(crate) fn mul_doubles(a: u64, b: u64) -> (r: u64)
    ensures
        r == double_product(a, b),
{
    (Double::from_bits(a as u128) * Double::from_bits(b as u128)).value.to_bits() as u64
}

/// Relies on `Div` of `rustc_apfloat::ieee::Double`, which divides under
/// round-to-nearest-ties-to-even.
#[verifier::external_body]
pub(crate) fn div_doubles(a: u64, b: u64) -> (r: u64)
    ensures
        r == double_quotient(a, b),
{
    (Double::from_bits(a as u128) / Double::from_bits(b as u128)).value.to_bits() as u64
}

/// Relies on `Rem` of `rustc_apfloat::ieee::Double`, which is `c_fmod`.
#[verifier::external_body]
pub(crate) fn rem_doubles(a: u64, b: u64) -> (r: u64)
    ensures
        r == double_remainder(a, b),
{
    (Double::from_bits(a as u128) % Double::from_bits(b as u128)).value.to_bits() as u64
}

pub open spec fn is_digit(c: char) -> bool {
    '0' <= c && c <= '9'
}

/// Whether a text is decimal digits with at most one dot, which stands
/// between two digits.
pub open spec fn is_decimal_literal(t: Seq<char>) -> bool {
    &&& t.len() > 0
    &&& is_digit(t[0])
    &&& is_digit(t[t.len() - 1])
    &&& forall|k: int|
        0 <= k < t.len() ==> is_digit(#[trigger] t[k]) || (t[k] == '.' && forall|m: int|
            0 <= m < t.len() && m != k ==> t[m] != '.')
}

/// Relies on `FromStr` of `rustc_apfloat::ieee::Double`, which rounds a
/// decimal string to the nearest double; `None` where it reports an error,
/// which it does not for digits with at most one dot between digits.
#[verifier::external_body]
pub(crate) fn double_from_decimal(text: &str) -> (r: Option<u64>)
    ensures
        r matches Some(b) ==> b == double_of_decimal(text@),
        is_decimal_literal(text@) ==> r is Some,
{
    text.parse::<Double>().ok().map(|d| d.to_bits() as u64)
}

/// Whether a bit pattern is a NaN.
pub open spec fn is_nan(b: u64) -> bool {
    (b & EXPONENT_MASK) == EXPONENT_MASK && (b & FRACTION_MASK) != 0
}

/// A key that orders the doubles that are not NaN by value; both zeros map to 0.
pub open spec fn order_key(b: u64) -> int {
    if b & SIGN_MASK != 0 {
        -((b & !SIGN_MASK) as int)
    } else {
        b as int
    }
}

/// The negation of a double: its sign bit flipped.
pub open spec fn negated(b: u64) -> u64 {
    b ^ SIGN_MASK
}

/// The result of a comparison operator on two doubles; a comparison with a
/// NaN holds only for `Neq`.
pub open spec fn compare_doubles(op: Operator, a: u64, b: u64) -> bool {
    let ordered = !is_nan(a) && !is_nan(b);
    let (x, y) = (order_key(a), order_key(b));
    match op {
        Operator::Eq => ordered && x == y,
        Operator::Neq => !(ordered && x == y),
        Operator::Lt => ordered && x < y,
        Operator::Gt => ordered && x > y,
        Operator::Lte => ordered && x <= y,
        Operator::Gte => ordered && x >= y,
        _ => false,
    }
}

/// Whether an operator compares two numbers.
pub open spec fn is_comparison(op: Operator) -> bool {
    op == Operator::Eq || op == Operator::Neq || op == Operator::Lt || op == Operator::Gt
        || op == Operator::Lte || op == Operator::Gte
}

/// A double converted to a 64-bit unsigned integer as Rust's `as` does it:
/// truncated toward zero, NaN and negative values to 0, large values to the maximum.
pub open spec fn truncated_index(b: u64) -> u64 {
    let e = (b >> 52u64) & 0x7ffu64;
    let m = (b & FRACTION_MASK) | 0x0010_0000_0000_0000u64;
    if is_nan(b) || b & SIGN_MASK != 0 || e < 1023 {
        0
    } else if e >= 1087 {
        0xffff_ffff_ffff_ffffu64
    } else if e >= 1075 {
        m << ((e - 1075) as u64)
    } else {
        m >> ((1075 - e) as u64)
    }
}

pub fn nan_bits(b: u64) -> (r: bool)
    ensures
        r == is_nan(b),
{
    (b & EXPONENT_MASK) == EXPONENT_MASK && (b & FRACTION_MASK) != 0
}

pub fn key_of(b: u64) -> (r: i128)
    ensures
        r as int == order_key(b),
{
    if b & SIGN_MASK != 0 {
        -((b & !SIGN_MASK) as i128)
    } else {
        b as i128
    }
}

pub fn negate_double(b: u64) -> (r: u64)
    ensures
        r == negated(b),
{
    b ^ SIGN_MASK
}

pub fn compare(op: Operator, a: u64, b: u64) -> (r: bool)
    requires
        is_comparison(op),
    ensures
        r == compare_doubles(op, a, b),
{
    let ordered = !nan_bits(a) && !nan_bits(b);
    let x = key_of(a);
    let y = key_of(b);
    match op {
        Operator::Eq => ordered && x == y,
        Operator::Neq => !(ordered && x == y),
        Operator::Lt => ordered && x < y,
        Operator::Gt => ordered && x > y,
        Operator::Lte => ordered && x <= y,
        _ => ordered && x >= y,
    }
}

pub fn to_index(b: u64) -> (r: u64)
    ensures
        r == truncated_index(b),
{
    let e = (b >> 52u64) & 0x7ffu64;
    let m = (b & FRACTION_MASK) | 0x0010_0000_0000_0000u64;
    if nan_bits(b) || b & SIGN_MASK != 0 || e < 1023 {
        0
    } else if e >= 1087 {
        0xffff_ffff_ffff_ffffu64
    } else if e >= 1075 {
        m << (e - 1075)
    } else {
        m >> (1075 - e)
    }
}

} // verus!
