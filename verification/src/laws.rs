//! Laws of the evaluator, stated and proved over its model.

use vstd::prelude::*;

use crate::ast::{DyadOp, ExprModel, Operation, Span};
use crate::eval::{apply_dyadic_spec, dyad_zip, dyad_zip_ok, max_fold, min_fold, reduce_fold, reduce_spec};
use crate::scalar_ops::dyad_spec;
use crate::val::{spec_checked_abs, spec_checked_neg, val_lt, Val, SIGN_MASK};

verus! {

/// Law: addition, multiplication and the dyadic extremes of two integer
/// scalars do not depend on operand order. (On doubles the operations go
/// through IEEE-754 rounding, of which nothing is assumed here, so the law
/// is stated of the integer scalars.)
pub proof fn lemma_dyad_commutes_integers(op: DyadOp, a: Val, b: Val)
    requires
        op == DyadOp::Add || op == DyadOp::Mul || op == DyadOp::Min || op == DyadOp::Max,
        a is Integer,
        b is Integer,
    ensures
        dyad_spec(op, a, b) == dyad_spec(op, b, a),
{
    match (a, b) {
        (Val::Integer(x), Val::Integer(y)) => {
            if op == DyadOp::Min || op == DyadOp::Max {
                assert(dyad_spec(op, a, b) == dyad_spec(op, b, a));
            } else {
                assert(dyad_spec(op, a, b) == dyad_spec(op, b, a));
            }
        },
        _ => {
        },
    }
}

/// Law: pairing two equally long integer rows with addition, multiplication
/// or an extreme gives the same row in either operand order.
pub proof fn lemma_apply_dyadic_commutes_integers(span: Span, op: DyadOp, ls: Seq<Val>, rs: Seq<Val>)
    requires
        op == DyadOp::Add || op == DyadOp::Mul || op == DyadOp::Min || op == DyadOp::Max,
        ls.len() == rs.len(),
        forall|i: int| 0 <= i < ls.len() ==> (#[trigger] ls[i]) is Integer,
        forall|i: int| 0 <= i < rs.len() ==> (#[trigger] rs[i]) is Integer,
    ensures
        apply_dyadic_spec(span, op, ls, rs) == apply_dyadic_spec(span, op, rs, ls),
{
    assert forall|i: int| 0 <= i < ls.len() implies dyad_spec(op, ls[i], rs[i]) == dyad_spec(
        op,
        rs[i],
        ls[i],
    ) by {
        lemma_dyad_commutes_integers(op, ls[i], rs[i]);
    }
    if ls.len() == 1 {
        let lse = Seq::new(rs.len(), |i: int| ls[0]);
        let rse = Seq::new(ls.len(), |i: int| rs[0]);
        assert(lse =~= ls);
        assert(rse =~= rs);
        assert(dyad_zip_ok(op, ls, rs) == dyad_zip_ok(op, rs, ls));
        if dyad_zip_ok(op, ls, rs) {
            assert(dyad_zip(op, ls, rs) =~= dyad_zip(op, rs, ls));
        }
    } else {
        assert(dyad_zip_ok(op, ls, rs) == dyad_zip_ok(op, rs, ls));
        if dyad_zip_ok(op, ls, rs) {
            assert(dyad_zip(op, ls, rs) =~= dyad_zip(op, rs, ls));
        }
    }
}

/// Every element of the row carries the integer tag.
pub open spec fn all_integers(s: Seq<Val>) -> bool {
    forall|i: int| 0 <= i < s.len() ==> (#[trigger] s[i]) is Integer
}

/// The exact sum of the first `n` elements of an integer row.
pub open spec fn int_sum(s: Seq<Val>, n: int) -> int
    decreases n,
{
    if n <= 0 {
        0
    } else {
        int_sum(s, n - 1) + s[n - 1]->Integer_0
    }
}

pub proof fn lemma_reduce_fold_add_exact(s: Seq<Val>, n: int)
    requires
        all_integers(s),
        1 <= n <= s.len(),
        reduce_fold(Operation::Add, s, n) is Some,
    ensures
        i64::MIN <= int_sum(s, n) <= i64::MAX,
        reduce_fold(Operation::Add, s, n) == Some(Val::Integer(int_sum(s, n) as i64)),
    decreases n,
{
    if n == 1 {
        assert(s[0] is Integer);
        assert(int_sum(s, 1) == int_sum(s, 0) + s[0]->Integer_0);
    } else {
        assert(reduce_fold(Operation::Add, s, n - 1) is Some);
        lemma_reduce_fold_add_exact(s, n - 1);
        assert(s[n - 1] is Integer);
        assert(int_sum(s, n) == int_sum(s, n - 1) + s[n - 1]->Integer_0);
        assert(reduce_fold(Operation::Add, s, n) == crate::val::spec_checked_add(
            Val::Integer(int_sum(s, n - 1) as i64),
            s[n - 1],
        ));
    }
}

/// Law: an Add-reduction over an integer row that succeeds yields exactly
/// the mathematical sum of the row — integer reduction loses no precision.
pub proof fn lemma_reduce_add_exact(span: Span, s: Seq<Val>)
    requires
        all_integers(s),
        s.len() >= 1,
        reduce_spec(span, Operation::Add, s) is Ok,
    ensures
        reduce_spec(span, Operation::Add, s) == Ok::<Seq<Val>, (Span, crate::eval::ErrKind)>(
            seq![Val::Integer(int_sum(s, s.len() as int) as i64)],
        ),
{
    lemma_reduce_fold_add_exact(s, s.len() as int);
}

/// Law (scalar extension): a dyadic primitive between a scalar and a vector
/// that succeeds yields one element per vector element, each the primitive
/// applied to the scalar and that element.
pub proof fn lemma_scalar_extension(span: Span, op: DyadOp, s: Seq<Val>, v: Seq<Val>)
    requires
        s.len() == 1,
        apply_dyadic_spec(span, op, s, v) is Ok,
    ensures
        apply_dyadic_spec(span, op, s, v) matches Ok(out) ==> out.len() == v.len() && (forall|
            i: int,
        |
            0 <= i < v.len() ==> #[trigger] out[i] == dyad_spec(op, s[0], v[i]).unwrap()),
{
}

/// Law (promotion monotonicity): a double operand makes every successful
/// result element a double. It holds of the arithmetic primitives —
/// addition, subtraction, multiplication, division, logarithm, residue and
/// the binomial — with a double on either side; of a power with a double
/// base; and of the extremes over a double pair. (It cannot hold more
/// widely: the extremes select an operand unchanged, so a mixed pair can
/// select the integer, and a power keeps an integer base's tag when the
/// double exponent converts exactly to a non-negative integer.)
pub proof fn lemma_promotion_monotone(op: DyadOp, a: Val, b: Val)
    requires
        ({
            ||| (a is Float || b is Float) && (op == DyadOp::Add || op == DyadOp::Sub || op
                == DyadOp::Mul || op == DyadOp::Div || op == DyadOp::Log || op == DyadOp::Residue
                || op == DyadOp::Binomial)
            ||| op == DyadOp::Power && a is Float
            ||| (op == DyadOp::Min || op == DyadOp::Max) && a is Float && b is Float
        }),
    ensures
        dyad_spec(op, a, b) matches Some(v) ==> v is Float,
{
}

/// Law: over an integer row the monadic maximum returns an element of the
/// row that no element of the row exceeds. (Rows with doubles follow the
/// total order through the opaque widening, of which nothing is assumed, so
/// the law is stated of integer rows.)
pub proof fn lemma_max_fold_is_maximum(s: Seq<Val>, n: int)
    requires
        all_integers(s),
        1 <= n <= s.len(),
    ensures
        exists|i: int| 0 <= i < n && s[i] == max_fold(s, n),
        forall|i: int| 0 <= i < n ==> !val_lt(max_fold(s, n), #[trigger] s[i]),
    decreases n,
{
    if n == 1 {
        assert(s[0] == max_fold(s, 1));
    } else {
        lemma_max_fold_is_maximum(s, n - 1);
        let m = max_fold(s, n - 1);
        if !val_lt(s[n - 1], m) {
            assert(s[n - 1] == max_fold(s, n));
        } else {
            let i = choose|i: int| 0 <= i < n - 1 && s[i] == max_fold(s, n - 1);
            assert(s[i] == max_fold(s, n));
        }
    }
}

/// Law: over an integer row the monadic minimum returns an element of the
/// row that exceeds no element of the row.
pub proof fn lemma_min_fold_is_minimum(s: Seq<Val>, n: int)
    requires
        all_integers(s),
        1 <= n <= s.len(),
    ensures
        exists|i: int| 0 <= i < n && s[i] == min_fold(s, n),
        forall|i: int| 0 <= i < n ==> !val_lt(#[trigger] s[i], min_fold(s, n)),
    decreases n,
{
    if n == 1 {
        assert(s[0] == min_fold(s, 1));
    } else {
        lemma_min_fold_is_minimum(s, n - 1);
        let m = min_fold(s, n - 1);
        if val_lt(s[n - 1], m) {
            assert(s[n - 1] == min_fold(s, n));
        } else {
            let i = choose|i: int| 0 <= i < n - 1 && s[i] == min_fold(s, n - 1);
            assert(s[i] == min_fold(s, n));
        }
    }
}

/// Law: evaluating a commuting dyadic primitive over two integer scalars
/// gives the same outcome in either operand order, error included.
pub proof fn lemma_eval_dyadic_commutes_integers(
    sp: Span,
    sa: Span,
    a: i64,
    sb: Span,
    b: i64,
    op: DyadOp,
)
    requires
        op == DyadOp::Add || op == DyadOp::Mul || op == DyadOp::Min || op == DyadOp::Max,
    ensures
        crate::eval::eval_spec(
            ExprModel::Dyadic {
                span: sp,
                op,
                lhs: Box::new(ExprModel::ScalarInteger { span: sa, value: a }),
                rhs: Box::new(ExprModel::ScalarInteger { span: sb, value: b }),
            },
        ) == crate::eval::eval_spec(
            ExprModel::Dyadic {
                span: sp,
                op,
                lhs: Box::new(ExprModel::ScalarInteger { span: sb, value: b }),
                rhs: Box::new(ExprModel::ScalarInteger { span: sa, value: a }),
            },
        ),
{
    reveal_with_fuel(crate::eval::eval_spec, 2);
    let la = ExprModel::ScalarInteger { span: sa, value: a };
    let lb = ExprModel::ScalarInteger { span: sb, value: b };
    assert(crate::eval::eval_spec(la) == Ok::<Seq<Val>, (Span, crate::eval::ErrKind)>(
        seq![Val::Integer(a)],
    ));
    assert(crate::eval::eval_spec(lb) == Ok::<Seq<Val>, (Span, crate::eval::ErrKind)>(
        seq![Val::Integer(b)],
    ));
    lemma_apply_dyadic_commutes_integers(sp, op, seq![Val::Integer(a)], seq![Val::Integer(b)]);
}

/// Law: under the total order a NaN equals exactly the NaNs and lies below
/// every other scalar, the integers included.
pub proof fn lemma_nan_is_bottom(nan_bits: u64, v: Val)
    requires
        crate::val::fb_is_nan(nan_bits),
    ensures
        crate::val::val_num_eq(Val::Float(nan_bits), v) <==> (v matches Val::Float(b)
            && crate::val::fb_is_nan(b)),
        !(v matches Val::Float(b) && crate::val::fb_is_nan(b)) ==> val_lt(
            Val::Float(nan_bits),
            v,
        ),
{
}

/// Law: the magnitude of a negation is the magnitude of the original,
/// whenever the negation does not overflow.
pub proof fn lemma_magnitude_negate(v: Val)
    ensures
        spec_checked_neg(v) matches Some(w) ==> spec_checked_abs(w) == spec_checked_abs(v),
{
    match v {
        Val::Integer(_) => {
        },
        Val::Float(b) => {
            assert((b ^ SIGN_MASK) & crate::val::ABS_MASK == b & crate::val::ABS_MASK)
                by (bit_vector);
        },
    }
}

} // verus!
