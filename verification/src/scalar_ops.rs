//! Per-element semantics of the primitives.
//!
//! Each deterministic monadic or dyadic primitive is specified as a function
//! from scalars to an optional scalar; `None` is a per-element failure
//! (overflow or a domain error), which the shape layer turns into an error
//! carrying the operator's span.

use vstd::prelude::*;

use crate::ast::{DyadOp, MonadOp};
use crate::fbits::{
    exp_bits, f_exp, f_ln, f_mul, f_powf, f_to_usize, f_widen, floor_bits, f_floor, ln_bits,
    mul_bits, powf_bits, widen_bits, ONE_BITS, PI_BITS,
};
use crate::val::{
    fb_is_nan, fb_is_neg, fb_is_pos, fb_is_zero, fb_neg, spec_checked_abs,
    spec_checked_add, spec_checked_div, spec_checked_mul, spec_checked_neg, spec_checked_sub,
    spec_log, spec_residue, spec_try_usize, val_bits_spec, val_lt, Val, ABS_MASK, EXP_MASK,
    SIGN_MASK,
};

verus! {

// ---------------------------------------------------------------------------
// Integer power, checked.
// ---------------------------------------------------------------------------

/// The checked left fold `1, i, i*i, ...` of `k` multiplications by `i`,
/// failing at the first product outside the 64-bit range.
pub open spec fn int_pow_checked(i: int, k: nat) -> Option<int>
    decreases k,
{
    if k == 0 {
        Some(1)
    } else {
        match int_pow_checked(i, (k - 1) as nat) {
            Some(acc) => if i64::MIN <= acc * i <= i64::MAX {
                Some(acc * i)
            } else {
                None
            },
            None => None,
        }
    }
}

/// A double raised to a non-negative integer power by repeated
/// multiplication, starting from 1.0.
pub open spec fn f_powi(b: u64, k: nat) -> u64
    decreases k,
{
    if k == 0 {
        ONE_BITS
    } else {
        f_mul(f_powi(b, (k - 1) as nat), b)
    }
}

pub proof fn lemma_int_pow_checked_one(k: nat)
    ensures
        int_pow_checked(1, k) == Some(1int),
    decreases k,
{
    if k > 0 {
        lemma_int_pow_checked_one((k - 1) as nat);
    }
}

pub proof fn lemma_int_pow_checked_zero(k: nat)
    requires
        k > 0,
    ensures
        int_pow_checked(0, k) == Some(0int),
    decreases k,
{
    if k == 1 {
        assert(int_pow_checked(0, 0) == Some(1int));
    } else {
        lemma_int_pow_checked_zero((k - 1) as nat);
    }
}

pub proof fn lemma_int_pow_checked_neg_one(k: nat)
    ensures
        int_pow_checked(-1, k) == Some(if k % 2 == 0 { 1int } else { -1int }),
    decreases k,
{
    if k > 0 {
        lemma_int_pow_checked_neg_one((k - 1) as nat);
    }
}

/// The checked power of a scalar by a non-negative integer exponent:
/// checked integer power on an integer base, repeated multiplication on a
/// double base.
pub open spec fn spec_checked_pow(a: Val, k: nat) -> Option<Val> {
    match a {
        Val::Integer(i) => match int_pow_checked(i as int, k) {
            Some(p) => Some(Val::Integer(p as i64)),
            None => None,
        },
        Val::Float(b) => Some(Val::Float(f_powi(b, k))),
    }
}

impl Val {
    /// Checked power by a non-negative integer exponent.
    #[verifier::loop_isolation(false)]
    pub fn checked_pow_value(&self, k: usize) -> (r: Option<Val>)
        ensures
            r == spec_checked_pow(*self, k as nat),
    {
        match self {
            Val::Integer(i) => {
                if *i == 1 {
                    proof {
                        lemma_int_pow_checked_one(k as nat);
                    }
                    Some(Val::Integer(1))
                } else if *i == 0 && k > 0 {
                    proof {
                        lemma_int_pow_checked_zero(k as nat);
                    }
                    Some(Val::Integer(0))
                } else if *i == -1 {
                    proof {
                        lemma_int_pow_checked_neg_one(k as nat);
                    }
                    if k % 2 == 0 {
                        Some(Val::Integer(1))
                    } else {
                        Some(Val::Integer(-1))
                    }
                } else {
                    let mut acc: i64 = 1;
                    let mut j: usize = 0;
                    while j < k
                        invariant
                            0 <= j <= k,
                            int_pow_checked(*i as int, j as nat) == Some(acc as int),
                        decreases k - j,
                    {
                        match acc.checked_mul(*i) {
                            Some(next) => {
                                proof {
                                    assert(int_pow_checked(*i as int, (j + 1) as nat) == Some(
                                        next as int,
                                    ));
                                }
                                acc = next;
                            },
                            None => {
                                proof {
                                    assert(int_pow_checked(*i as int, (j + 1) as nat) is None);
                                    lemma_int_pow_overflow_stays(*i as int, (j + 1) as nat,
                                        k as nat);
                                }
                                return None;
                            },
                        }
                        j = j + 1;
                    }
                    Some(Val::Integer(acc))
                }
            },
            Val::Float(b) => {
                let mut acc: u64 = ONE_BITS;
                let mut j: usize = 0;
                while j < k
                    invariant
                        0 <= j <= k,
                        acc == f_powi(*b, j as nat),
                    decreases k - j,
                {
                    acc = mul_bits(acc, *b);
                    j = j + 1;
                }
                Some(Val::Float(acc))
            },
        }
    }

    /// The power primitive as the source language resolves it: integer
    /// checked power when the exponent converts exactly to a non-negative
    /// integer, floating-point power otherwise.
    pub fn power(&self, other: &Val) -> (r: Option<Val>)
        ensures
            r == spec_power(*self, *other),
    {
        match other.try_to_usize() {
            Some(k) => self.checked_pow_value(k),
            None => Some(Val::Float(powf_bits(self.to_bits(), other.to_bits()))),
        }
    }
}

/// The magnitude of an integer.
pub open spec fn abs_int(i: int) -> int {
    if i < 0 {
        -i
    } else {
        i
    }
}

/// The magnitude of a power is the power of the magnitude.
pub proof fn lemma_pow_abs(i: int, e: nat)
    ensures
        abs_int(vstd::arithmetic::power::pow(i, e)) == vstd::arithmetic::power::pow(
            abs_int(i),
            e,
        ),
    decreases e,
{
    reveal(vstd::arithmetic::power::pow);
    if e > 0 {
        lemma_pow_abs(i, (e - 1) as nat);
        let p = vstd::arithmetic::power::pow(i, (e - 1) as nat);
        assert(abs_int(i * p) == abs_int(i) * abs_int(p)) by (nonlinear_arith);
    }
}

/// The checked fold computes exactly the mathematical power: it succeeds
/// exactly when the power lies in the 64-bit range, and then returns it.
pub proof fn lemma_int_pow_checked_exact(i: int, k: nat)
    ensures
        int_pow_checked(i, k) == (if i64::MIN <= vstd::arithmetic::power::pow(i, k) <= i64::MAX {
            Some(vstd::arithmetic::power::pow(i, k))
        } else {
            None
        }),
    decreases k,
{
    reveal(vstd::arithmetic::power::pow);
    if k > 0 {
        lemma_int_pow_checked_exact(i, (k - 1) as nat);
        let p = vstd::arithmetic::power::pow(i, (k - 1) as nat);
        let q = vstd::arithmetic::power::pow(i, k);
        assert(q == i * p);
        match int_pow_checked(i, (k - 1) as nat) {
            Some(acc) => {
                assert(acc == p);
                assert(acc * i == i * p) by (nonlinear_arith)
                    requires
                        acc == p,
                ;
            },
            None => {
                // The previous power is out of range, so its magnitude
                // exceeds the positive bound, the base's magnitude is at
                // least 2, and the next power is further out.
                assert(abs_int(p) > i64::MAX);
                lemma_pow_abs(i, (k - 1) as nat);
                lemma_pow_abs(i, k);
                if abs_int(i) <= 1 {
                    if abs_int(i) == 0 {
                        vstd::arithmetic::power::lemma0_pow((k - 1) as nat);
                        assert(false);
                    } else {
                        vstd::arithmetic::power::lemma1_pow((k - 1) as nat);
                        assert(vstd::arithmetic::power::pow(1, (k - 1) as nat) == 1);
                        assert(false);
                    }
                }
                assert(vstd::arithmetic::power::pow(abs_int(i), k) == abs_int(i)
                    * vstd::arithmetic::power::pow(abs_int(i), (k - 1) as nat));
                assert(abs_int(q) >= 2 * abs_int(p)) by (nonlinear_arith)
                    requires
                        abs_int(q) == abs_int(i) * abs_int(p),
                        abs_int(i) >= 2,
                        abs_int(p) >= 0,
                ;
            },
        }
    }
}

/// Checked exponentiation, as the value model offers it: a non-negative
/// integer exponent with overflow checking, or an arbitrary double exponent
/// given by its bit pattern.
pub trait CheckedPow: Sized {
    fn checked_pow(&self, power: usize) -> Option<Self>;

    fn checked_powf(&self, other_bits: u64) -> Option<Self>;
}

impl CheckedPow for Val {
    fn checked_pow(&self, power: usize) -> Option<Val> {
        self.checked_pow_value(power)
    }

    fn checked_powf(&self, other_bits: u64) -> Option<Val> {
        self.checked_powf_bits(other_bits)
    }
}

impl Val {
    /// Floating-point power with a double exponent: the base widens to a
    /// double, and the result is always a double.
    pub fn checked_powf_bits(&self, other_bits: u64) -> (r: Option<Val>)
        ensures
            r == Some(Val::Float(f_powf(val_bits_spec(*self), other_bits))),
    {
        Some(Val::Float(powf_bits(self.to_bits(), other_bits)))
    }
}

/// Once the checked fold has failed it stays failed for any larger exponent.
pub proof fn lemma_int_pow_overflow_stays(i: int, j: nat, k: nat)
    requires
        j <= k,
        int_pow_checked(i, j) is None,
    ensures
        int_pow_checked(i, k) is None,
    decreases k - j,
{
    if j < k {
        lemma_int_pow_overflow_stays(i, (j + 1) as nat, k);
    }
}

/// The power primitive over scalars.
pub open spec fn spec_power(a: Val, b: Val) -> Option<Val> {
    match spec_try_usize(b) {
        Some(k) => spec_checked_pow(a, k as nat),
        None => Some(Val::Float(f_powf(val_bits_spec(a), val_bits_spec(b)))),
    }
}

// ---------------------------------------------------------------------------
// Factorial.
// ---------------------------------------------------------------------------

/// The checked factorial fold `1, 1, 2, 6, ...`, failing at the first
/// product beyond the 64-bit range.
pub open spec fn fact_checked(n: nat) -> Option<int>
    decreases n,
{
    if n == 0 {
        Some(1)
    } else {
        match fact_checked((n - 1) as nat) {
            Some(acc) => if acc * n <= i64::MAX {
                Some(acc * n)
            } else {
                None
            },
            None => None,
        }
    }
}

/// The factorial of a natural number.
pub open spec fn fact(n: nat) -> nat
    decreases n,
{
    if n == 0 {
        1
    } else {
        n * fact((n - 1) as nat)
    }
}

/// The factorial is positive and does not decrease.
pub proof fn lemma_fact_positive(n: nat)
    ensures
        fact(n) >= 1,
    decreases n,
{
    if n > 0 {
        lemma_fact_positive((n - 1) as nat);
        assert(n * fact((n - 1) as nat) >= 1) by (nonlinear_arith)
            requires
                n >= 1,
                fact((n - 1) as nat) >= 1,
        ;
    }
}

/// The checked fold computes exactly the factorial: it succeeds exactly
/// when the factorial lies in the 64-bit range, and then returns it.
pub proof fn lemma_fact_checked_exact(n: nat)
    ensures
        fact_checked(n) == (if fact(n) <= i64::MAX {
            Some(fact(n) as int)
        } else {
            None
        }),
    decreases n,
{
    if n > 0 {
        lemma_fact_checked_exact((n - 1) as nat);
        lemma_fact_positive((n - 1) as nat);
        lemma_fact_positive(n);
        assert(fact(n) == n * fact((n - 1) as nat));
        if fact((n - 1) as nat) <= i64::MAX {
            assert(fact_checked((n - 1) as nat) == Some(fact((n - 1) as nat) as int));
            assert((fact((n - 1) as nat) as int) * (n as int) == fact(n)) by (nonlinear_arith)
                requires
                    fact(n) == n * fact((n - 1) as nat),
            ;
        } else {
            assert(fact(n) >= fact((n - 1) as nat)) by (nonlinear_arith)
                requires
                    fact(n) == n * fact((n - 1) as nat),
                    n >= 1,
                    fact((n - 1) as nat) >= 1,
            ;
        }
    }
}

/// The factorial of an integral double, folded in double multiplications:
/// `1.0 * 1 * 2 * ... * n`, each factor widened from the integer.
pub open spec fn f_fact(n: nat) -> u64
    decreases n,
{
    if n == 0 {
        ONE_BITS
    } else {
        f_mul(f_fact((n - 1) as nat), f_widen(n as i64))
    }
}

/// The factorial primitive: checked integer factorial of a non-negative
/// integer; double factorial of a non-negative integral double; a failure
/// on every other scalar.
pub open spec fn spec_factorial(v: Val) -> Option<Val> {
    match v {
        Val::Integer(i) => if i >= 0 {
            match fact_checked(i as nat) {
                Some(f) => Some(Val::Integer(f as i64)),
                None => None,
            }
        } else {
            None
        },
        Val::Float(b) => match f_to_usize(b) {
            Some(n) => if n <= i64::MAX as usize {
                Some(Val::Float(f_fact(n as nat)))
            } else {
                None
            },
            None => None,
        },
    }
}

pub proof fn lemma_fact_checked_stays_none(j: nat, n: nat)
    requires
        j <= n,
        fact_checked(j) is None,
    ensures
        fact_checked(n) is None,
    decreases n - j,
{
    if j < n {
        assert(fact_checked(j + 1) is None);
        lemma_fact_checked_stays_none(j + 1, n);
    }
}

/// The factorial primitive, executable.
#[verifier::loop_isolation(false)]
pub fn val_factorial(v: &Val) -> (r: Option<Val>)
    ensures
        r == spec_factorial(*v),
{
    match v {
        Val::Integer(i) => {
            if *i < 0 {
                return None;
            }
            let mut acc: i64 = 1;
            let mut x: i64 = 0;
            while x < *i
                invariant
                    0 <= x <= *i,
                    fact_checked(x as nat) == Some(acc as int),
                    acc >= 1,
                decreases *i - x,
            {
                x = x + 1;
                match acc.checked_mul(x) {
                    Some(next) => {
                        proof {
                            assert(next >= 1 && next == acc * x) by (nonlinear_arith)
                                requires
                                    acc >= 1,
                                    x >= 1,
                                    next == acc * x,
                            ;
                            assert(fact_checked(x as nat) == Some(next as int));
                        }
                        acc = next;
                    },
                    None => {
                        proof {
                            assert(acc * x >= 1) by (nonlinear_arith)
                                requires
                                    acc >= 1,
                                    x >= 1,
                            ;
                            assert(fact_checked(x as nat) is None);
                            lemma_fact_checked_stays_none(x as nat, *i as nat);
                        }
                        return None;
                    },
                }
            }
            Some(Val::Integer(acc))
        },
        Val::Float(b) => {
            match crate::fbits::bits_to_usize(*b) {
                Some(n) => {
                    if n > i64::MAX as usize {
                        return None;
                    }
                    let mut acc: u64 = ONE_BITS;
                    let mut x: usize = 0;
                    while x < n
                        invariant
                            0 <= x <= n <= i64::MAX as usize,
                            acc == f_fact(x as nat),
                        decreases n - x,
                    {
                        x = x + 1;
                        acc = mul_bits(acc, widen_bits(x as i64));
                    }
                    Some(Val::Float(acc))
                },
                None => None,
            }
        },
    }
}

// ---------------------------------------------------------------------------
// The binomial coefficient, exact.
// ---------------------------------------------------------------------------

/// Pascal's definition of the binomial coefficient.
pub open spec fn binom(n: nat, k: nat) -> nat
    decreases n,
{
    if k == 0 {
        1
    } else if k > n {
        0
    } else {
        binom((n - 1) as nat, (k - 1) as nat) + binom((n - 1) as nat, k)
    }
}

pub proof fn lemma_binom_diag(n: nat)
    ensures
        binom(n, n) == 1,
    decreases n,
{
    if n > 0 {
        lemma_binom_diag((n - 1) as nat);
        assert(binom((n - 1) as nat, n) == 0);
    }
}

/// The absorption identity: `i * C(m, i) == m * C(m-1, i-1)`.
pub proof fn lemma_binom_absorb(m: nat, i: nat)
    requires
        1 <= i <= m,
    ensures
        i * binom(m, i) == m * binom((m - 1) as nat, (i - 1) as nat),
    decreases m,
{
    if i == m {
        lemma_binom_diag(m);
        lemma_binom_diag((m - 1) as nat);
    } else {
        // i < m, so m >= 2 and 1 <= i <= m - 1.
        lemma_binom_absorb((m - 1) as nat, i);
        lemma_binom_absorb_co((m - 1) as nat, (i - 1) as nat);
        let w = binom(m, i);
        let x = binom((m - 1) as nat, (i - 1) as nat);
        let y = binom((m - 1) as nat, i);
        let z = binom((m - 2) as nat, (i - 1) as nat);
        assert(w == x + y);
        // i*y == (m-1)*z and (m-1-(i-1))*x == (m-1)*z, so i*y == (m-i)*x.
        assert(i * w == m * x) by (nonlinear_arith)
            requires
                w == x + y,
                i * y == (m - 1) * z,
                ((m - 1) - (i - 1)) * x == (m - 1) * z,
                1 <= i < m,
        ;
    }
}

/// The companion identity: `(m - i) * C(m, i) == m * C(m-1, i)`.
pub proof fn lemma_binom_absorb_co(m: nat, i: nat)
    requires
        1 <= m,
        0 <= i <= m,
    ensures
        (m - i) * binom(m, i) == m * binom((m - 1) as nat, i),
    decreases m,
{
    if i == m {
        assert(binom((m - 1) as nat, m) == 0);
        assert((m - i) * binom(m, i) == 0);
        assert(m * binom((m - 1) as nat, i) == 0) by (nonlinear_arith)
            requires
                i == m,
                binom((m - 1) as nat, m) == 0,
        ;
    } else if i == 0 {
        assert(binom(m, 0) == 1);
        assert(binom((m - 1) as nat, 0) == 1);
    } else {
        // 1 <= i <= m - 1, so m >= 2.
        lemma_binom_absorb((m - 1) as nat, i);
        lemma_binom_absorb_co((m - 1) as nat, (i - 1) as nat);
        let w = binom(m, i);
        let x = binom((m - 1) as nat, (i - 1) as nat);
        let y = binom((m - 1) as nat, i);
        let z = binom((m - 2) as nat, (i - 1) as nat);
        assert(w == x + y);
        // i*y == (m-1)*z and (m-i)*x == (m-1)*z, so (m-i)*x == i*y.
        assert((m - i) * w == m * y) by (nonlinear_arith)
            requires
                w == x + y,
                i * y == (m - 1) * z,
                ((m - 1) - (i - 1)) * x == (m - 1) * z,
                1 <= i < m,
        ;
    }
}

/// One Pascal step: `C(m, i) <= C(m+1, i+1)`.
pub proof fn lemma_binom_mono_step(m: nat, i: nat)
    ensures
        binom(m, i) <= binom(m + 1, i + 1),
{
    if i + 1 > m + 1 {
        assert(i > m);
        assert(binom(m, i) == 0);
    }
}

/// Walking the multiplicative loop forward can only grow the coefficient:
/// `C(n-k+i, i) <= C(n, k)` for `i <= k <= n`.
pub proof fn lemma_binom_chain(n: nat, k: nat, i: nat)
    requires
        i <= k <= n,
    ensures
        binom((n - k + i) as nat, i) <= binom(n, k),
    decreases k - i,
{
    if i < k {
        lemma_binom_mono_step((n - k + i) as nat, i);
        lemma_binom_chain(n, k, i + 1);
    }
}

/// The exact binomial coefficient of `n` over `k`, when it fits a 64-bit
/// signed integer; `None` exactly when it does not.
#[verifier::loop_isolation(false)]
pub fn binom_checked(n: u64, k: u64) -> (r: Option<i64>)
    ensures
        r matches Some(c) ==> c == binom(n as nat, k as nat) && binom(n as nat, k as nat)
            <= i64::MAX,
        r is None ==> binom(n as nat, k as nat) > i64::MAX,
{
    if k > n {
        return Some(0);
    }
    let mut c: u128 = 1;
    let mut i: u64 = 0;
    while i < k
        invariant
            0 <= i <= k <= n,
            c == binom((n - k + i) as nat, i as nat),
            c <= i64::MAX,
        decreases k - i,
    {
        i = i + 1;
        let m: u64 = n - k + i;
        proof {
            lemma_binom_absorb(m as nat, i as nat);
            assert(c * (m as u128) <= u128::MAX) by (nonlinear_arith)
                requires
                    0 <= c <= i64::MAX,
                    0 <= (m as u128) <= u64::MAX,
            ;
        }
        let prod: u128 = c * (m as u128);
        let next: u128 = prod / (i as u128);
        proof {
            // The invariant names the coefficient before the step.
            assert(c == binom((m - 1) as nat, (i - 1) as nat));
            // prod == i * C(m, i) by the absorption identity, so the
            // division by i is exact and recovers C(m, i).
            assert(prod == (i as int) * (binom(m as nat, i as nat) as int)) by (nonlinear_arith)
                requires
                    prod == (c as int) * (m as int),
                    c == binom((m - 1) as nat, (i - 1) as nat),
                    (i as nat) * binom(m as nat, i as nat) == (m as nat) * binom(
                        (m - 1) as nat,
                        (i - 1) as nat,
                    ),
            ;
            assert(next == binom(m as nat, i as nat)) by (nonlinear_arith)
                requires
                    prod == (i as int) * (binom(m as nat, i as nat) as int),
                    next == prod / (i as u128),
                    1 <= (i as int),
            ;
        }
        if next > i64::MAX as u128 {
            proof {
                lemma_binom_chain(n as nat, k as nat, i as nat);
            }
            return None;
        }
        c = next;
    }
    proof {
        lemma_binom_chain(n as nat, k as nat, k as nat);
    }
    Some(c as i64)
}

/// The binomial primitive: the exact coefficient of a non-negative integer
/// pair, or of a pair of integral non-negative doubles, widened to a double;
/// a failure on every other pair and on a coefficient beyond the 64-bit
/// integer range.
pub open spec fn spec_binomial(a: Val, b: Val) -> Option<Val> {
    match (a, b) {
        (Val::Integer(n), Val::Integer(k)) => if n >= 0 && k >= 0 {
            if binom(n as nat, k as nat) <= i64::MAX {
                Some(Val::Float(f_widen(binom(n as nat, k as nat) as i64)))
            } else {
                None
            }
        } else {
            None
        },
        (Val::Float(x), Val::Float(y)) => match (f_to_usize(x), f_to_usize(y)) {
            (Some(nx), Some(ny)) => if binom(nx as nat, ny as nat) <= i64::MAX {
                Some(Val::Float(f_widen(binom(nx as nat, ny as nat) as i64)))
            } else {
                None
            },
            _ => None,
        },
        _ => None,
    }
}

/// The binomial primitive, executable.
pub fn val_binomial(a: &Val, b: &Val) -> (r: Option<Val>)
    ensures
        r == spec_binomial(*a, *b),
{
    match (a, b) {
        (Val::Integer(n), Val::Integer(k)) => {
            if *n >= 0 && *k >= 0 {
                match binom_checked(*n as u64, *k as u64) {
                    Some(c) => Some(Val::Float(widen_bits(c))),
                    None => None,
                }
            } else {
                None
            }
        },
        (Val::Float(x), Val::Float(y)) => {
            let nx = crate::fbits::bits_to_usize(*x);
            let ny = crate::fbits::bits_to_usize(*y);
            match (nx, ny) {
                (Some(nu), Some(ku)) => match binom_checked(nu as u64, ku as u64) {
                    Some(c) => Some(Val::Float(widen_bits(c))),
                    None => None,
                },
                _ => None,
            }
        },
        _ => None,
    }
}

// ---------------------------------------------------------------------------
// The remaining element-wise primitives.
// ---------------------------------------------------------------------------

/// The direction (sign) of a scalar: -1, 0 or 1 as an integer; a failure on
/// NaN, whose sign is undefined.
pub open spec fn spec_direction(v: Val) -> Option<Val> {
    match v {
        Val::Integer(i) => if i < 0 {
            Some(Val::Integer((-1) as i64))
        } else if i == 0 {
            Some(Val::Integer(0))
        } else {
            Some(Val::Integer(1))
        },
        Val::Float(b) => if fb_is_nan(b) {
            None
        } else if fb_is_zero(b) {
            Some(Val::Integer(0))
        } else if fb_is_neg(b) {
            Some(Val::Integer((-1) as i64))
        } else {
            Some(Val::Integer(1))
        },
    }
}

/// The natural logarithm, defined for strictly positive scalars only.
pub open spec fn spec_natural_log(v: Val) -> Option<Val> {
    match v {
        Val::Integer(i) => if i > 0 {
            Some(Val::Float(f_ln(f_widen(i))))
        } else {
            None
        },
        Val::Float(b) => if fb_is_pos(b) {
            Some(Val::Float(f_ln(b)))
        } else {
            None
        },
    }
}

/// Whether a monadic primitive maps element-wise over its operand.
pub open spec fn is_elementwise(op: MonadOp) -> bool {
    match op {
        MonadOp::Roll => false,
        MonadOp::MonadicMax => false,
        MonadOp::MonadicMin => false,
        MonadOp::GenIndex => false,
        MonadOp::Where => false,
        _ => true,
    }
}

/// The per-element meaning of the element-wise monadic primitives.
/// (The primitives that are not element-wise are given no meaning here.)
pub open spec fn monad_spec(op: MonadOp, v: Val) -> Option<Val> {
    match op {
        MonadOp::Conjugate => Some(v),
        MonadOp::Negate => spec_checked_neg(v),
        MonadOp::Direction => spec_direction(v),
        MonadOp::Reciprocal => spec_checked_div(Val::Integer(1), v),
        MonadOp::Exp => Some(Val::Float(f_exp(val_bits_spec(v)))),
        MonadOp::NaturalLog => spec_natural_log(v),
        MonadOp::PiMultiple => Some(Val::Float(f_mul(val_bits_spec(v), crate::fbits::PI_BITS))),
        MonadOp::Factorial => spec_factorial(v),
        MonadOp::Magnitude => spec_checked_abs(v),
        MonadOp::Ceil => spec_ceil(v),
        MonadOp::Floor => spec_floor(v),
        _ => None,
    }
}

/// Rounding down, keeping the tag.
pub open spec fn spec_floor(v: Val) -> Option<Val> {
    match v {
        Val::Integer(i) => Some(Val::Integer(i)),
        Val::Float(b) => Some(Val::Float(f_floor(b))),
    }
}

/// Rounding up, keeping the tag: on a double, the negation of the floor of
/// the negation (an exact identity of IEEE-754 rounding).
pub open spec fn spec_ceil(v: Val) -> Option<Val> {
    match v {
        Val::Integer(i) => Some(Val::Integer(i)),
        Val::Float(b) => Some(Val::Float(fb_neg(f_floor(fb_neg(b))))),
    }
}

/// One element-wise monadic application, executable.
///
/// Law: `Floor` and `Ceil` are idempotent — rounding a rounded scalar
/// changes nothing. (The rounded double is integral, so a second rounding
/// returns it unchanged.)
pub fn apply_monad(op: MonadOp, v: &Val) -> (r: Option<Val>)
    requires
        is_elementwise(op),
    ensures
        r == monad_spec(op, *v),
        op == MonadOp::Floor ==> (r matches Some(w) ==> monad_spec(MonadOp::Floor, w) == Some(w)),
        op == MonadOp::Ceil ==> (r matches Some(w) ==> monad_spec(MonadOp::Ceil, w) == Some(w)),
{
    match op {
        MonadOp::Conjugate => Some(*v),
        MonadOp::Negate => v.checked_neg(),
        MonadOp::Direction => match v {
            Val::Integer(i) => if *i < 0 {
                Some(Val::Integer(-1))
            } else if *i == 0 {
                Some(Val::Integer(0))
            } else {
                Some(Val::Integer(1))
            },
            Val::Float(b) => {
                if *b & ABS_MASK > EXP_MASK {
                    None
                } else if *b & ABS_MASK == 0 {
                    Some(Val::Integer(0))
                } else if *b & SIGN_MASK != 0 {
                    Some(Val::Integer(-1))
                } else {
                    Some(Val::Integer(1))
                }
            },
        },
        MonadOp::Reciprocal => Val::Integer(1).checked_div(v),
        MonadOp::Exp => Some(Val::Float(exp_bits(v.to_bits()))),
        MonadOp::NaturalLog => match v {
            Val::Integer(i) => if *i > 0 {
                Some(Val::Float(ln_bits(widen_bits(*i))))
            } else {
                None
            },
            Val::Float(b) => {
                let nan: bool = *b & ABS_MASK > EXP_MASK;
                let zero: bool = *b & ABS_MASK == 0;
                let neg: bool = *b & SIGN_MASK != 0;
                if !nan && !zero && !neg {
                    Some(Val::Float(ln_bits(*b)))
                } else {
                    None
                }
            },
        },
        MonadOp::PiMultiple => Some(Val::Float(mul_bits(v.to_bits(), PI_BITS))),
        MonadOp::Factorial => val_factorial(v),
        MonadOp::Magnitude => v.checked_abs(),
        MonadOp::Ceil => match v {
            Val::Integer(i) => Some(Val::Integer(*i)),
            Val::Float(b) => {
                let r0: u64 = floor_bits(*b ^ SIGN_MASK);
                proof {
                    assert(forall|x: u64| ((x ^ SIGN_MASK) ^ SIGN_MASK) == x) by (bit_vector);
                }
                Some(Val::Float(r0 ^ SIGN_MASK))
            },
        },
        MonadOp::Floor => match v {
            Val::Integer(i) => Some(Val::Integer(*i)),
            Val::Float(b) => Some(Val::Float(floor_bits(*b))),
        },
        _ => None,
    }
}

/// The per-element meaning of the element-wise dyadic primitives. `Deal` is
/// not element-wise and is given no meaning here.
pub open spec fn dyad_spec(op: DyadOp, a: Val, b: Val) -> Option<Val> {
    match op {
        DyadOp::Add => spec_checked_add(a, b),
        DyadOp::Sub => spec_checked_sub(a, b),
        DyadOp::Mul => spec_checked_mul(a, b),
        DyadOp::Div => spec_checked_div(a, b),
        DyadOp::Power => spec_power(a, b),
        DyadOp::Log => spec_log(a, b),
        DyadOp::Min => if val_lt(a, b) {
            Some(a)
        } else {
            Some(b)
        },
        DyadOp::Max => if val_lt(a, b) {
            Some(b)
        } else {
            Some(a)
        },
        DyadOp::Binomial => spec_binomial(a, b),
        DyadOp::Residue => spec_residue(a, b),
        DyadOp::Deal => None,
    }
}

/// One element-wise dyadic application, executable.
pub fn apply_dyad(op: DyadOp, a: &Val, b: &Val) -> (r: Option<Val>)
    ensures
        r == dyad_spec(op, *a, *b),
{
    match op {
        DyadOp::Add => a.checked_add(b),
        DyadOp::Sub => a.checked_sub(b),
        DyadOp::Mul => a.checked_mul(b),
        DyadOp::Div => a.checked_div(b),
        DyadOp::Power => a.power(b),
        DyadOp::Log => b.log_in_base(a),
        DyadOp::Min => if a.lt(b) {
            Some(*a)
        } else {
            Some(*b)
        },
        DyadOp::Max => if a.lt(b) {
            Some(*b)
        } else {
            Some(*a)
        },
        DyadOp::Binomial => val_binomial(a, b),
        DyadOp::Residue => a.residue(b),
        DyadOp::Deal => None,
    }
}

} // verus!
