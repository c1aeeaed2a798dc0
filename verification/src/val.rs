//! The value model: a tagged numeric scalar.
//!
//! A `Val` is either a signed 64-bit integer or an IEEE-754 double carried as
//! its 64-bit bit pattern (see `fbits`). Dyadic arithmetic between mismatched
//! tags first promotes the integer side to a double; checked operations
//! return `None` on 64-bit integer overflow and never fail on doubles.
//! The comparison methods implement the total order of the language: NaN is
//! equal to NaN and below every other value, the two zeros are equal, and
//! mixed comparisons promote the integer side.

use vstd::prelude::*;

use crate::fbits::{
    add_bits, bits_to_usize, div_bits, f_add, f_div, f_fmod, f_ln, f_mul, f_to_usize, f_widen,
    fmod_bits, ln_bits, mul_bits, widen_bits, ONE_BITS,
};

verus! {

/// Sign bit of a double's interchange pattern.
pub const SIGN_MASK: u64 = 0x8000000000000000;

/// All bits of a double's pattern except the sign.
pub const ABS_MASK: u64 = 0x7FFFFFFFFFFFFFFF;

/// Exponent field of a double's pattern, all ones (the infinities and NaN).
pub const EXP_MASK: u64 = 0x7FF0000000000000;

/// A numeric scalar: a double given by its bit pattern, or a 64-bit integer.
#[derive(Clone, Copy, Debug)]
pub enum Val {
    Float(u64),
    Integer(i64),
}

// ---------------------------------------------------------------------------
// Bit-level views of a double. These are sign and mask operations on the
// interchange pattern, so they are defined and verified here; no outside
// arithmetic is involved.
// ---------------------------------------------------------------------------

/// The pattern is one of the NaNs.
pub open spec fn fb_is_nan(b: u64) -> bool {
    b & ABS_MASK > EXP_MASK
}

/// The pattern is one of the two zeros.
pub open spec fn fb_is_zero(b: u64) -> bool {
    b & ABS_MASK == 0
}

/// The sign bit is set.
pub open spec fn fb_is_neg(b: u64) -> bool {
    b & SIGN_MASK != 0
}

/// IEEE-754 negation: the sign bit flipped.
pub open spec fn fb_neg(b: u64) -> u64 {
    b ^ SIGN_MASK
}

/// IEEE-754 absolute value: the sign bit cleared.
pub open spec fn fb_abs(b: u64) -> u64 {
    b & ABS_MASK
}

/// The value is strictly positive (so neither NaN nor a zero).
pub open spec fn fb_is_pos(b: u64) -> bool {
    !fb_is_nan(b) && !fb_is_zero(b) && !fb_is_neg(b)
}

/// Strict order on doubles: every NaN below everything else, the two zeros
/// equal, and otherwise the numeric order, which on patterns of equal sign
/// is the order of the patterns as sign-magnitude integers.
pub open spec fn fb_lt(a: u64, b: u64) -> bool {
    if fb_is_nan(a) {
        !fb_is_nan(b)
    } else if fb_is_nan(b) {
        false
    } else if fb_is_zero(a) && fb_is_zero(b) {
        false
    } else if fb_is_neg(a) != fb_is_neg(b) {
        fb_is_neg(a)
    } else if !fb_is_neg(a) {
        a < b
    } else {
        a > b
    }
}

/// Equality under the total order: NaN equals NaN, the zeros are equal,
/// every other value equals only its own pattern.
pub open spec fn fb_eq(a: u64, b: u64) -> bool {
    if fb_is_nan(a) || fb_is_nan(b) {
        fb_is_nan(a) && fb_is_nan(b)
    } else if fb_is_zero(a) && fb_is_zero(b) {
        true
    } else {
        a == b
    }
}

pub open spec fn fb_le(a: u64, b: u64) -> bool {
    fb_lt(a, b) || fb_eq(a, b)
}

// ---------------------------------------------------------------------------
// The order and equality of the language, over promoted values.
// ---------------------------------------------------------------------------

/// The promotion of a pair: mixed tags widen the integer side to a double.
pub open spec fn promote_spec(a: Val, b: Val) -> (Val, Val) {
    match (a, b) {
        (Val::Integer(i), Val::Integer(j)) => (Val::Integer(i), Val::Integer(j)),
        (Val::Float(x), Val::Float(y)) => (Val::Float(x), Val::Float(y)),
        (Val::Integer(i), Val::Float(y)) => (Val::Float(f_widen(i)), Val::Float(y)),
        (Val::Float(x), Val::Integer(j)) => (Val::Float(x), Val::Float(f_widen(j))),
    }
}

/// Strict order on scalars after promotion. A widened integer is always a
/// finite double, so against an integer a NaN is below and never equal.
pub open spec fn val_lt(a: Val, b: Val) -> bool {
    match (a, b) {
        (Val::Integer(i), Val::Integer(j)) => i < j,
        (Val::Float(x), Val::Float(y)) => fb_lt(x, y),
        (Val::Integer(i), Val::Float(y)) => if fb_is_nan(y) {
            false
        } else {
            fb_lt(f_widen(i), y)
        },
        (Val::Float(x), Val::Integer(j)) => if fb_is_nan(x) {
            true
        } else {
            fb_lt(x, f_widen(j))
        },
    }
}

/// Equality on scalars after promotion.
pub open spec fn val_num_eq(a: Val, b: Val) -> bool {
    match (a, b) {
        (Val::Integer(i), Val::Integer(j)) => i == j,
        (Val::Float(x), Val::Float(y)) => fb_eq(x, y),
        (Val::Integer(i), Val::Float(y)) => if fb_is_nan(y) {
            false
        } else {
            fb_eq(f_widen(i), y)
        },
        (Val::Float(x), Val::Integer(j)) => if fb_is_nan(x) {
            false
        } else {
            fb_eq(x, f_widen(j))
        },
    }
}

/// The scalar is an exact zero (integer zero or one of the double zeros).
pub open spec fn val_is_zero(v: Val) -> bool {
    match v {
        Val::Integer(i) => i == 0,
        Val::Float(b) => fb_is_zero(b),
    }
}

/// The scalar carries the double tag.
pub open spec fn val_is_float(v: Val) -> bool {
    v is Float
}

// ---------------------------------------------------------------------------
// Checked arithmetic, specified...
// ---------------------------------------------------------------------------

/// Checked addition: 64-bit checked on integer pairs, IEEE-754 (total) once
/// either side is a double.
pub open spec fn spec_checked_add(a: Val, b: Val) -> Option<Val> {
    match (a, b) {
        (Val::Integer(i), Val::Integer(j)) => if i64::MIN <= i + j <= i64::MAX {
            Some(Val::Integer((i + j) as i64))
        } else {
            None
        },
        (Val::Float(x), Val::Float(y)) => Some(Val::Float(f_add(x, y))),
        (Val::Integer(i), Val::Float(y)) => Some(Val::Float(f_add(f_widen(i), y))),
        (Val::Float(x), Val::Integer(j)) => Some(Val::Float(f_add(x, f_widen(j)))),
    }
}

/// Checked subtraction, by the same promotion rules as addition.
pub open spec fn spec_checked_sub(a: Val, b: Val) -> Option<Val> {
    match (a, b) {
        (Val::Integer(i), Val::Integer(j)) => if i64::MIN <= i - j <= i64::MAX {
            Some(Val::Integer((i - j) as i64))
        } else {
            None
        },
        (Val::Float(x), Val::Float(y)) => Some(Val::Float(f_add(x, fb_neg(y)))),
        (Val::Integer(i), Val::Float(y)) => Some(Val::Float(f_add(f_widen(i), fb_neg(y)))),
        (Val::Float(x), Val::Integer(j)) => Some(Val::Float(f_add(x, fb_neg(f_widen(j))))),
    }
}

/// Checked multiplication, by the same promotion rules as addition.
pub open spec fn spec_checked_mul(a: Val, b: Val) -> Option<Val> {
    match (a, b) {
        (Val::Integer(i), Val::Integer(j)) => if i64::MIN <= i * j <= i64::MAX {
            Some(Val::Integer((i * j) as i64))
        } else {
            None
        },
        (Val::Float(x), Val::Float(y)) => Some(Val::Float(f_mul(x, y))),
        (Val::Integer(i), Val::Float(y)) => Some(Val::Float(f_mul(f_widen(i), y))),
        (Val::Float(x), Val::Integer(j)) => Some(Val::Float(f_mul(x, f_widen(j)))),
    }
}

/// Division: an integer pair widens to doubles, so the result is always a
/// double and never a failure — division by zero gives an infinity or NaN.
pub open spec fn spec_checked_div(a: Val, b: Val) -> Option<Val> {
    match (a, b) {
        (Val::Integer(i), Val::Integer(j)) => Some(Val::Float(f_div(f_widen(i), f_widen(j)))),
        (Val::Float(x), Val::Float(y)) => Some(Val::Float(f_div(x, y))),
        (Val::Integer(i), Val::Float(y)) => Some(Val::Float(f_div(f_widen(i), y))),
        (Val::Float(x), Val::Integer(j)) => Some(Val::Float(f_div(x, f_widen(j)))),
    }
}

/// Checked negation: fails only on the smallest integer.
pub open spec fn spec_checked_neg(a: Val) -> Option<Val> {
    match a {
        Val::Integer(i) => if i == i64::MIN {
            None
        } else {
            Some(Val::Integer((-i) as i64))
        },
        Val::Float(x) => Some(Val::Float(fb_neg(x))),
    }
}

/// Checked absolute value: fails only on the smallest integer.
pub open spec fn spec_checked_abs(a: Val) -> Option<Val> {
    match a {
        Val::Integer(i) => if i == i64::MIN {
            None
        } else if i < 0 {
            Some(Val::Integer((-i) as i64))
        } else {
            Some(Val::Integer(i))
        },
        Val::Float(x) => Some(Val::Float(fb_abs(x))),
    }
}

/// The remainder with the sign of the left operand (the remainder of Rust's
/// `%` on integers), written over magnitudes.
pub open spec fn trunc_rem(a: int, b: int) -> int {
    let m = abs_int(a) % abs_int(b);
    if a < 0 {
        -m
    } else {
        m
    }
}

pub open spec fn abs_int(i: int) -> int {
    if i < 0 {
        -i
    } else {
        i
    }
}

/// The residue (modulo) operation: integer remainder on an integer pair
/// (failing on a zero divisor), `fmod` once either side is a double.
pub open spec fn spec_residue(a: Val, b: Val) -> Option<Val> {
    match (a, b) {
        (Val::Integer(i), Val::Integer(j)) => if j == 0 {
            None
        } else {
            Some(Val::Integer(trunc_rem(i as int, j as int) as i64))
        },
        (Val::Float(x), Val::Float(y)) => Some(Val::Float(f_fmod(x, y))),
        (Val::Integer(i), Val::Float(y)) => Some(Val::Float(f_fmod(f_widen(i), y))),
        (Val::Float(x), Val::Integer(j)) => Some(Val::Float(f_fmod(x, f_widen(j)))),
    }
}

/// The logarithm of `value` in base `base`, both widened to doubles:
/// the quotient of the natural logarithms.
pub open spec fn spec_log(base: Val, value: Val) -> Option<Val> {
    Some(Val::Float(f_div(f_ln(val_bits_spec(value)), f_ln(val_bits_spec(base)))))
}

/// The double pattern of a scalar, widening an integer.
pub open spec fn val_bits_spec(v: Val) -> u64 {
    match v {
        Val::Integer(i) => f_widen(i),
        Val::Float(b) => b,
    }
}

/// The exact conversion of a scalar to `usize`: defined on integers in
/// range and on doubles that are integral and in range.
pub open spec fn spec_try_usize(v: Val) -> Option<usize> {
    match v {
        Val::Integer(i) => if 0 <= i <= usize::MAX {
            Some(i as usize)
        } else {
            None
        },
        Val::Float(b) => f_to_usize(b),
    }
}

impl Val {
    /// Widens the pair so that both sides share a tag.
    pub fn promote_pair(a: &Val, b: &Val) -> (r: (Val, Val))
        ensures
            r == promote_spec(*a, *b),
    {
        match (a, b) {
            (Val::Integer(i), Val::Integer(j)) => (Val::Integer(*i), Val::Integer(*j)),
            (Val::Float(x), Val::Float(y)) => (Val::Float(*x), Val::Float(*y)),
            (Val::Integer(i), Val::Float(y)) => (Val::Float(widen_bits(*i)), Val::Float(*y)),
            (Val::Float(x), Val::Integer(j)) => (Val::Float(*x), Val::Float(widen_bits(*j))),
        }
    }

    /// The double pattern of the scalar, widening an integer.
    pub fn to_bits(&self) -> (r: u64)
        ensures
            r == val_bits_spec(*self),
    {
        match self {
            Val::Integer(i) => widen_bits(*i),
            Val::Float(b) => *b,
        }
    }

    pub fn checked_add(&self, other: &Val) -> (r: Option<Val>)
        ensures
            r == spec_checked_add(*self, *other),
    {
        match (self, other) {
            (Val::Integer(i), Val::Integer(j)) => match i.checked_add(*j) {
                Some(s) => Some(Val::Integer(s)),
                None => None,
            },
            (Val::Float(x), Val::Float(y)) => Some(Val::Float(add_bits(*x, *y))),
            (Val::Integer(i), Val::Float(y)) => Some(Val::Float(add_bits(widen_bits(*i), *y))),
            (Val::Float(x), Val::Integer(j)) => Some(Val::Float(add_bits(*x, widen_bits(*j)))),
        }
    }

    pub fn checked_sub(&self, other: &Val) -> (r: Option<Val>)
        ensures
            r == spec_checked_sub(*self, *other),
    {
        match (self, other) {
            (Val::Integer(i), Val::Integer(j)) => match i.checked_sub(*j) {
                Some(s) => Some(Val::Integer(s)),
                None => None,
            },
            (Val::Float(x), Val::Float(y)) => Some(Val::Float(add_bits(*x, *y ^ SIGN_MASK))),
            (Val::Integer(i), Val::Float(y)) => Some(
                Val::Float(add_bits(widen_bits(*i), *y ^ SIGN_MASK)),
            ),
            (Val::Float(x), Val::Integer(j)) => Some(
                Val::Float(add_bits(*x, widen_bits(*j) ^ SIGN_MASK)),
            ),
        }
    }

    pub fn checked_mul(&self, other: &Val) -> (r: Option<Val>)
        ensures
            r == spec_checked_mul(*self, *other),
    {
        match (self, other) {
            (Val::Integer(i), Val::Integer(j)) => match i.checked_mul(*j) {
                Some(s) => Some(Val::Integer(s)),
                None => None,
            },
            (Val::Float(x), Val::Float(y)) => Some(Val::Float(mul_bits(*x, *y))),
            (Val::Integer(i), Val::Float(y)) => Some(Val::Float(mul_bits(widen_bits(*i), *y))),
            (Val::Float(x), Val::Integer(j)) => Some(Val::Float(mul_bits(*x, widen_bits(*j)))),
        }
    }

    pub fn checked_div(&self, other: &Val) -> (r: Option<Val>)
        ensures
            r == spec_checked_div(*self, *other),
    {
        match (self, other) {
            (Val::Integer(i), Val::Integer(j)) => Some(
                Val::Float(div_bits(widen_bits(*i), widen_bits(*j))),
            ),
            (Val::Float(x), Val::Float(y)) => Some(Val::Float(div_bits(*x, *y))),
            (Val::Integer(i), Val::Float(y)) => Some(Val::Float(div_bits(widen_bits(*i), *y))),
            (Val::Float(x), Val::Integer(j)) => Some(Val::Float(div_bits(*x, widen_bits(*j)))),
        }
    }

    pub fn checked_neg(&self) -> (r: Option<Val>)
        ensures
            r == spec_checked_neg(*self),
    {
        match self {
            Val::Integer(i) => if *i == i64::MIN {
                None
            } else {
                Some(Val::Integer(-*i))
            },
            Val::Float(x) => Some(Val::Float(*x ^ SIGN_MASK)),
        }
    }

    pub fn checked_abs(&self) -> (r: Option<Val>)
        ensures
            r == spec_checked_abs(*self),
    {
        match self {
            Val::Integer(i) => if *i == i64::MIN {
                None
            } else if *i < 0 {
                Some(Val::Integer(-*i))
            } else {
                Some(Val::Integer(*i))
            },
            Val::Float(x) => Some(Val::Float(*x & ABS_MASK)),
        }
    }

    pub fn residue(&self, other: &Val) -> (r: Option<Val>)
        ensures
            r == spec_residue(*self, *other),
    {
        match (self, other) {
            (Val::Integer(i), Val::Integer(j)) => {
                if *j == 0 {
                    None
                } else {
                    let ma: u64 = if *i >= 0 {
                        *i as u64
                    } else {
                        ((-1 - *i) as u64) + 1
                    };
                    let mb: u64 = if *j >= 0 {
                        *j as u64
                    } else {
                        ((-1 - *j) as u64) + 1
                    };
                    let m: u64 = ma % mb;
                    if *i < 0 {
                        Some(Val::Integer(-(m as i64)))
                    } else {
                        Some(Val::Integer(m as i64))
                    }
                }
            },
            (Val::Float(x), Val::Float(y)) => Some(Val::Float(fmod_bits(*x, *y))),
            (Val::Integer(i), Val::Float(y)) => Some(Val::Float(fmod_bits(widen_bits(*i), *y))),
            (Val::Float(x), Val::Integer(j)) => Some(Val::Float(fmod_bits(*x, widen_bits(*j)))),
        }
    }

    /// Strict order under the language's total order.
    pub fn lt(&self, other: &Val) -> (r: bool)
        ensures
            r == val_lt(*self, *other),
    {
        match (self, other) {
            (Val::Integer(i), Val::Integer(j)) => *i < *j,
            (Val::Float(x), Val::Float(y)) => bits_lt(*x, *y),
            (Val::Integer(i), Val::Float(y)) => bits_lt(widen_bits(*i), *y),
            (Val::Float(x), Val::Integer(j)) => bits_lt(*x, widen_bits(*j)),
        }
    }

    /// Equality under the language's total order (NaN equals NaN, the two
    /// double zeros are equal, mixed tags compare after promotion).
    pub fn num_eq(&self, other: &Val) -> (r: bool)
        ensures
            r == val_num_eq(*self, *other),
    {
        match (self, other) {
            (Val::Integer(i), Val::Integer(j)) => *i == *j,
            (Val::Float(x), Val::Float(y)) => bits_eq(*x, *y),
            (Val::Integer(i), Val::Float(y)) => bits_eq(widen_bits(*i), *y),
            (Val::Float(x), Val::Integer(j)) => bits_eq(*x, widen_bits(*j)),
        }
    }

    pub fn is_zero(&self) -> (r: bool)
        ensures
            r == val_is_zero(*self),
    {
        match self {
            Val::Integer(i) => *i == 0,
            Val::Float(b) => *b & ABS_MASK == 0,
        }
    }

    /// The exact conversion to `usize`.
    pub fn try_to_usize(&self) -> (r: Option<usize>)
        ensures
            r == spec_try_usize(*self),
    {
        match self {
            Val::Integer(i) => {
                if *i >= 0 && *i as u64 <= usize::MAX as u64 {
                    Some(*i as usize)
                } else {
                    None
                }
            },
            Val::Float(b) => bits_to_usize(*b),
        }
    }
}

impl PartialEq for Val {
    /// Two scalars are equal when their numeric values are equal after
    /// promotion to a common tag; NaN equals NaN under the total order.
    fn eq(&self, other: &Val) -> (r: bool) {
        self.num_eq(other)
    }
}

impl vstd::std_specs::cmp::PartialEqSpecImpl for Val {
    open spec fn obeys_eq_spec() -> bool {
        true
    }

    open spec fn eq_spec(&self, other: &Val) -> bool {
        val_num_eq(*self, *other)
    }
}

impl Eq for Val {

}

impl PartialOrd for Val {
    /// The total order of the language: NaN below everything and equal to
    /// itself, the zeros equal, mixed tags compared after promotion.
    fn partial_cmp(&self, other: &Val) -> (r: Option<core::cmp::Ordering>) {
        if self.lt(other) {
            Some(core::cmp::Ordering::Less)
        } else if self.num_eq(other) {
            Some(core::cmp::Ordering::Equal)
        } else {
            Some(core::cmp::Ordering::Greater)
        }
    }
}

impl vstd::std_specs::cmp::PartialOrdSpecImpl for Val {
    open spec fn obeys_partial_cmp_spec() -> bool {
        true
    }

    open spec fn partial_cmp_spec(&self, other: &Val) -> Option<core::cmp::Ordering> {
        if val_lt(*self, *other) {
            Some(core::cmp::Ordering::Less)
        } else if val_num_eq(*self, *other) {
            Some(core::cmp::Ordering::Equal)
        } else {
            Some(core::cmp::Ordering::Greater)
        }
    }
}

/// The logarithm primitive as the source language offers it: `value.log(base)`
/// is the quotient of natural logarithms, always a double.
pub trait Log: Sized {
    fn log(&self, base: &Self) -> Option<Self>;
}

impl Log for Val {
    fn log(&self, base: &Val) -> Option<Val> {
        self.log_in_base(base)
    }
}

impl Val {
    /// `self` is the value, `base` the base; both widen to doubles.
    pub fn log_in_base(&self, base: &Val) -> (r: Option<Val>)
        ensures
            r == spec_log(*base, *self),
    {
        let vb: u64 = self.to_bits();
        let bb: u64 = base.to_bits();
        Some(Val::Float(div_bits(ln_bits(vb), ln_bits(bb))))
    }
}

/// Strict order on double patterns (exec mirror of `fb_lt`).
pub fn bits_lt(a: u64, b: u64) -> (r: bool)
    ensures
        r == fb_lt(a, b),
{
    let a_nan: bool = a & ABS_MASK > EXP_MASK;
    let b_nan: bool = b & ABS_MASK > EXP_MASK;
    if a_nan {
        !b_nan
    } else if b_nan {
        false
    } else if a & ABS_MASK == 0 && b & ABS_MASK == 0 {
        false
    } else if (a & SIGN_MASK != 0) != (b & SIGN_MASK != 0) {
        a & SIGN_MASK != 0
    } else if a & SIGN_MASK == 0 {
        a < b
    } else {
        a > b
    }
}

/// Equality on double patterns (exec mirror of `fb_eq`).
pub fn bits_eq(a: u64, b: u64) -> (r: bool)
    ensures
        r == fb_eq(a, b),
{
    let a_nan: bool = a & ABS_MASK > EXP_MASK;
    let b_nan: bool = b & ABS_MASK > EXP_MASK;
    if a_nan || b_nan {
        a_nan && b_nan
    } else if a & ABS_MASK == 0 && b & ABS_MASK == 0 {
        true
    } else {
        a == b
    }
}

} // verus!
