//! The bridge to IEEE-754 double-precision arithmetic.
//!
//! The value model stores a double as its 64-bit interchange pattern, so the
//! verified code can hold, move and compare such values while the arithmetic
//! itself is done by `rustc_apfloat` (a bit-exact software implementation of
//! IEEE-754, the one used by the Rust compiler for constant evaluation) and,
//! for the transcendental functions, by `num_bigfloat` (a 40-digit decimal
//! arbitrary-precision library). Each outside computation is named by an
//! uninterpreted spec function of the argument bits; contracts elsewhere in
//! the crate speak of those names.
//!
//! The module also holds the evaluator's two draws from the thread-local
//! random generator and the generic string-to-value conversion, the other
//! calls that leave the verified code.

use vstd::prelude::*;

use core::str::FromStr;
use rustc_apfloat::Float;
use rustc_apfloat::ieee::Double;

verus! {

/// Bit pattern of +1.0.
pub const ONE_BITS: u64 = 0x3FF0000000000000;

/// Bit pattern of the double closest to pi.
pub const PI_BITS: u64 = 0x400921FB54442D18;

/// Bit pattern of the canonical quiet NaN.
pub const QNAN_BITS: u64 = 0x7FF8000000000000;

/// Bit pattern of positive infinity.
pub const INF_BITS: u64 = 0x7FF0000000000000;

/// Bit pattern of negative infinity.
pub const NEG_INF_BITS: u64 = 0xFFF0000000000000;

/// The double nearest to the 64-bit integer `i` (round to nearest, ties to even).
pub uninterp spec fn f_widen(i: i64) -> u64;

/// IEEE-754 addition of two doubles given as bit patterns.
pub uninterp spec fn f_add(a: u64, b: u64) -> u64;

/// IEEE-754 multiplication.
pub uninterp spec fn f_mul(a: u64, b: u64) -> u64;

/// IEEE-754 division.
pub uninterp spec fn f_div(a: u64, b: u64) -> u64;

/// Floating-point remainder with the semantics of C `fmod`.
pub uninterp spec fn f_fmod(a: u64, b: u64) -> u64;

/// The double rounded toward negative infinity to an integral value.
pub uninterp spec fn f_floor(a: u64) -> u64;

/// `e` raised to the given double.
pub uninterp spec fn f_exp(a: u64) -> u64;

/// Natural logarithm of the given double.
pub uninterp spec fn f_ln(a: u64) -> u64;

/// `a` raised to the (not necessarily integral) power `b`.
pub uninterp spec fn f_powf(a: u64, b: u64) -> u64;

/// The double denoted by a decimal literal, as a sequence of bytes;
/// `None` when the bytes are not a recognized literal.
pub uninterp spec fn f_of_decimal(s: Seq<u8>) -> Option<u64>;

/// The decimal rendering of a double.
pub uninterp spec fn f_decimal_of(b: u64) -> Seq<char>;

/// The exact conversion of a double to `usize`: `Some` exactly when the
/// value is integral and within the range of `usize`.
pub uninterp spec fn f_to_usize(b: u64) -> Option<usize>;

/// Relies on `rustc_apfloat::ieee::Double::from_i128` (round to nearest,
/// ties to even — the rounding Rust's own integer-to-double cast uses).
/// Every 64-bit integer rounds to a finite double, so the result is never
/// a NaN or infinity pattern (its exponent field is never all ones).
#[verifier::external_body]
pub fn widen_bits(i: i64) -> (r: u64)
    ensures
        r == f_widen(i),
        r & 0x7FFFFFFFFFFFFFFF < 0x7FF0000000000000,
{
    Double::from_i128(i as i128).value.to_bits() as u64
}

/// Relies on `rustc_apfloat`'s `Add` impl for `Double`: IEEE-754 addition,
/// round to nearest, ties to even.
#[verifier::external_body]
pub fn add_bits(a: u64, b: u64) -> (r: u64)
    ensures
        r == f_add(a, b),
{
    (Double::from_bits(a as u128) + Double::from_bits(b as u128)).value.to_bits() as u64
}

/// Relies on `rustc_apfloat`'s `Mul` impl for `Double`.
#[verifier::external_body]
pub fn mul_bits(a: u64, b: u64) -> (r: u64)
    ensures
        r == f_mul(a, b),
{
    (Double::from_bits(a as u128) * Double::from_bits(b as u128)).value.to_bits() as u64
}

/// Relies on `rustc_apfloat`'s `Div` impl for `Double`. Division by zero
/// yields an infinity or NaN, never a failure.
#[verifier::external_body]
pub fn div_bits(a: u64, b: u64) -> (r: u64)
    ensures
        r == f_div(a, b),
{
    (Double::from_bits(a as u128) / Double::from_bits(b as u128)).value.to_bits() as u64
}

/// Relies on `rustc_apfloat`'s `Rem` impl for `Double`, which is C `fmod` —
/// the same operation Rust's `%` performs on doubles.
#[verifier::external_body]
pub fn fmod_bits(a: u64, b: u64) -> (r: u64)
    ensures
        r == f_fmod(a, b),
{
    (Double::from_bits(a as u128) % Double::from_bits(b as u128)).value.to_bits() as u64
}

/// Relies on `rustc_apfloat::Float::round_to_integral` with rounding toward
/// negative infinity. The result is an integral value (or the unchanged
/// input for NaN and the infinities), and rounding an integral value changes
/// nothing, so a second application returns the first result unchanged.
#[verifier::external_body]
pub fn floor_bits(a: u64) -> (r: u64)
    ensures
        r == f_floor(a),
        f_floor(r) == r,
{
    Double::from_bits(a as u128)
        .round_to_integral(rustc_apfloat::Round::TowardNegative)
        .value
        .to_bits() as u64
}

/// Relies on `rustc_apfloat::Float::to_u128_r` rounding toward zero: the
/// conversion is exact (status `OK`) iff the double is integral, not
/// negative, and fits the width.
#[verifier::external_body]
pub fn bits_to_usize(b: u64) -> (r: Option<usize>)
    ensures
        r == f_to_usize(b),
{
    let mut is_exact = false;
    let conv = Double::from_bits(b as u128).to_u128_r(
        usize::BITS as usize,
        rustc_apfloat::Round::TowardZero,
        &mut is_exact,
    );
    if conv.status == rustc_apfloat::Status::OK {
        usize::try_from(conv.value).ok()
    } else {
        None
    }
}

/// Relies on `rustc_apfloat`'s `FromStr` impl for `Double`: correctly
/// rounded conversion of a decimal literal.
#[verifier::external_body]
pub fn parse_bits(s: &[u8]) -> (r: Option<u64>)
    ensures
        r == f_of_decimal(s@),
{
    match core::str::from_utf8(s) {
        Ok(t) => match Double::from_str(t) {
            Ok(d) => Some(d.to_bits() as u64),
            Err(_) => None,
        },
        Err(_) => None,
    }
}

/// Relies on `rustc_apfloat`'s `Display` impl for `Double`: a decimal
/// rendering of the value ("0.125", "5.5", "4", "NaN", "+Inf").
#[verifier::external_body]
pub fn bits_to_string(b: u64) -> (r: String)
    ensures
        r@ == f_decimal_of(b),
{
    format!("{}", Double::from_bits(b as u128))
}

/// Relies on `num_bigfloat::BigFloat::exp`, computed in 40-digit decimal
/// precision and then rounded to the nearest double; the bits travel to and
/// from the computation as decimal strings rendered by `rustc_apfloat`.
#[verifier::external_body]
pub fn exp_bits(a: u64) -> (r: u64)
    ensures
        r == f_exp(a),
{
    let s = format!("{:#}", Double::from_bits(a as u128)).to_lowercase();
    let x = num_bigfloat::BigFloat::from_str(&s).unwrap_or(num_bigfloat::NAN);
    let e = x.exp();
    if e.is_inf_pos() {
        return INF_BITS;
    }
    if e.is_inf_neg() {
        return NEG_INF_BITS;
    }
    match Double::from_str(&format!("{}", e)) {
        Ok(d) => d.to_bits() as u64,
        Err(_) => QNAN_BITS,
    }
}

/// Relies on `num_bigfloat::BigFloat::ln`, carried over decimal strings as
/// in `exp_bits`.
#[verifier::external_body]
pub fn ln_bits(a: u64) -> (r: u64)
    ensures
        r == f_ln(a),
{
    let s = format!("{:#}", Double::from_bits(a as u128)).to_lowercase();
    let x = num_bigfloat::BigFloat::from_str(&s).unwrap_or(num_bigfloat::NAN);
    let e = x.ln();
    if e.is_inf_pos() {
        return INF_BITS;
    }
    if e.is_inf_neg() {
        return NEG_INF_BITS;
    }
    match Double::from_str(&format!("{}", e)) {
        Ok(d) => d.to_bits() as u64,
        Err(_) => QNAN_BITS,
    }
}

/// Relies on `num_bigfloat::BigFloat::pow`, carried over decimal strings as
/// in `exp_bits`.
#[verifier::external_body]
pub fn powf_bits(a: u64, b: u64) -> (r: u64)
    ensures
        r == f_powf(a, b),
{
    let s = format!("{:#}", Double::from_bits(a as u128)).to_lowercase();
    let t = format!("{:#}", Double::from_bits(b as u128)).to_lowercase();
    let x = num_bigfloat::BigFloat::from_str(&s).unwrap_or(num_bigfloat::NAN);
    let y = num_bigfloat::BigFloat::from_str(&t).unwrap_or(num_bigfloat::NAN);
    let e = x.pow(&y);
    if e.is_inf_pos() {
        return INF_BITS;
    }
    if e.is_inf_neg() {
        return NEG_INF_BITS;
    }
    match Double::from_str(&format!("{}", e)) {
        Ok(d) => d.to_bits() as u64,
        Err(_) => QNAN_BITS,
    }
}

/// Relies on `str::parse` through the result type's `FromStr` impl;
/// nothing is promised of the outcome.
#[verifier::external_body]
pub fn parse_str_value<T: core::str::FromStr>(s: &str) -> Option<T> {
    s.parse::<T>().ok()
}

/// Relies on `rand::random`: a draw from the thread-local generator, uniform
/// over the whole 64-bit range. Nothing is promised of the outcome.
#[verifier::external_body]
pub fn random_i64() -> i64 {
    rand::random::<i64>()
}

/// Relies on `rand::random_range` over `0..=n`: a uniform draw from that
/// range. The range is never empty because `n` is not negative.
#[verifier::external_body]
pub fn random_i64_up_to(n: i64) -> (r: i64)
    requires
        n >= 0,
    ensures
        0 <= r <= n,
{
    rand::random_range(0..=n)
}

} // verus!
