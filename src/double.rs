//! IEEE 754 double-precision arithmetic, on the bit patterns of the values.
//!
//! The library holds a double as its 64 bits; the arithmetic itself is done
//! by `rustc_apfloat`, in round-to-nearest-even, as hardware doubles do it.
use vstd::prelude::*;
use rustc_apfloat::ieee::Double;
use std::cmp::Ordering;

verus! {

/// The bit that holds the sign of a double.
pub const SIGN_BIT: u64 = 0x8000_0000_0000_0000;

/// The bits of `+0.0`.
pub const POSITIVE_ZERO: u64 = 0;

/// The double nearest to a decimal text, if the text is a number.
pub uninterp spec fn double_from_text(s: Seq<char>) -> Option<u64>;

/// The double nearest to an integer.
pub uninterp spec fn double_from_int(v: int) -> u64;

/// The rounded sum of two doubles.
pub uninterp spec fn double_sum(a: u64, b: u64) -> u64;

/// The rounded difference of two doubles.
pub uninterp spec fn double_difference(a: u64, b: u64) -> u64;

/// The rounded product of two doubles.
pub uninterp spec fn double_product(a: u64, b: u64) -> u64;

/// The rounded quotient of two doubles.
pub uninterp spec fn double_quotient(a: u64, b: u64) -> u64;

/// The remainder of two doubles, truncated as C's `fmod` truncates it.
pub uninterp spec fn double_remainder(a: u64, b: u64) -> u64;

/// How two doubles compare; none when either is a NaN.
pub uninterp spec fn double_order(a: u64, b: u64) -> Option<Ordering>;

/// Relies on `<Double as FromStr>::from_str`: the nearest double, or an
/// error for text that is not a number.
#[verifier::external_body]
pub(crate) fn parse_double(s: &str) -> (r: Option<u64>)
    ensures
        r == double_from_text(s@),
{
    match s.parse::<Double>() {
        Ok(d) => Some(rustc_apfloat::Float::to_bits(d) as u64),
        Err(_) => None,
    }
}

/// Relies on `Double::from_i128`: the nearest double to an integer.
#[verifier::external_body]
pub(crate) fn double_of_int(v: i64) -> (r: u64)
    ensures
        r == double_from_int(v as int),
{
    let d: Double = rustc_apfloat::Float::from_i128(v as i128).value;
    rustc_apfloat::Float::to_bits(d) as u64
}

/// Relies on `<Double as Add>::add`.
#[verifier::external_body]
pub(crate) fn double_add(a: u64, b: u64) -> (r: u64)
    ensures
        r == double_sum(a, b),
{
    let x: Double = rustc_apfloat::Float::from_bits(a as u128);
    let y: Double = rustc_apfloat::Float::from_bits(b as u128);
    rustc_apfloat::Float::to_bits((x + y).value) as u64
}

/// Relies on `<Double as Sub>::sub`.
#[verifier::external_body]
pub(crate) fn double_sub(a: u64, b: u64) -> (r: u64)
    ensures
        r == double_difference(a, b),
{
    let x: Double = rustc_apfloat::Float::from_bits(a as u128);
    let y: Double = rustc_apfloat::Float::from_bits(b as u128);
    rustc_apfloat::Float::to_bits((x - y).value) as u64
}

/// Relies on `<Double as Mul>::mul`.
#[verifier::external_body]
pub(crate) fn double_mul(a: u64, b: u64) -> (r: u64)
    ensures
        r == double_product(a, b),
{
    let x: Double = rustc_apfloat::Float::from_bits(a as u128);
    let y: Double = rustc_apfloat::Float::from_bits(b as u128);
    rustc_apfloat::Float::to_bits((x * y).value) as u64
}

/// Relies on `<Double as Div>::div`: IEEE division, so a zero divisor gives
/// an infinity or a NaN.
#[verifier::external_body]
pub(crate) fn double_div(a: u64, b: u64) -> (r: u64)
    ensures
        r == double_quotient(a, b),
{
    let x: Double = rustc_apfloat::Float::from_bits(a as u128);
    let y: Double = rustc_apfloat::Float::from_bits(b as u128);
    rustc_apfloat::Float::to_bits((x / y).value) as u64
}

/// Relies on `<Double as Rem>::rem`, which is `c_fmod`.
#[verifier::external_body]
pub(crate) fn double_rem(a: u64, b: u64) -> (r: u64)
    ensures
        r == double_remainder(a, b),
{
    let x: Double = rustc_apfloat::Float::from_bits(a as u128);
    let y: Double = rustc_apfloat::Float::from_bits(b as u128);
    rustc_apfloat::Float::to_bits((x % y).value) as u64
}

/// Relies on `<Double as PartialOrd>::partial_cmp`.
#[verifier::external_body]
pub(crate) fn double_cmp(a: u64, b: u64) -> (r: Option<Ordering>)
    ensures
        r == double_order(a, b),
{
    let x: Double = rustc_apfloat::Float::from_bits(a as u128);
    let y: Double = rustc_apfloat::Float::from_bits(b as u128);
    x.partial_cmp(&y)
}

/// The negation of a double: the same bits with the sign flipped.
pub fn double_neg(a: u64) -> (r: u64)
    ensures
        r == a ^ SIGN_BIT,
{
    a ^ SIGN_BIT
}

} // verus!
