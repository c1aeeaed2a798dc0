//! The tree-walking evaluator.
//!
//! An expression evaluates to a non-empty vector of scalars unless it
//! structurally yields emptiness (iota of zero, `Where` over non-positive
//! elements, a `Deal` of zero draws, and what propagates from those).
//! Dyadic primitives pair their operands under scalar extension: equal
//! lengths pair index-wise, a length-one side broadcasts against the other,
//! and any other pair of lengths is a shape error. A failed element aborts
//! the whole primitive with the operator's span.
//!
//! `eval_spec` is the mathematical model of the evaluator; `eval` returns
//! exactly its value on every expression that draws no randomness, and for
//! the two random primitives states what holds of every outcome.

use vstd::prelude::*;

use crate::ast::{expr_view, may_yield_empty, no_random, DyadOp, Expr, ExprModel, MonadOp, Operation, Span};
use crate::fbits::{random_i64, random_i64_up_to};
use crate::scalar_ops::{apply_dyad, apply_monad, dyad_spec, monad_spec};
use crate::val::{val_is_zero, val_lt, Val};

verus! {

broadcast use vstd::seq::axiom_seq_index_decreases, vstd::std_specs::vec::axiom_vec_index_decreases;

/// The kinds of evaluation failure. Each renders as a fixed message.
#[derive(Clone, Copy, Debug, PartialEq, Eq, Structural)]
pub enum ErrKind {
    /// An element-wise operation failed on some element (overflow or a
    /// domain violation).
    OperationFailed,
    /// Dyadic operand lengths incompatible under scalar extension.
    SizeMismatch,
    /// `Deal` was given a non-scalar operand.
    DealScalarsOnly,
    /// `Deal` was given arguments outside its domain.
    DealArguments,
    /// A monadic extreme over an empty vector.
    CannotFindMax,
    /// `GenIndex` was given a non-scalar operand.
    GenIndexScalarOnly,
    /// `GenIndex` was given a negative, fractional or oversized operand.
    GenIndexDomain,
    /// A literal that does not denote a representable number.
    BadNumber,
    /// A reduction over an empty vector, which has no implied identity.
    EmptyReduction,
    /// An arithmetic failure inside a reduction step.
    ReduceFailed,
}

impl ErrKind {
    /// The fixed message of the failure.
    pub fn message(&self) -> (r: &'static str)
        ensures
            r@ == spec_message(*self),
    {
        match self {
            ErrKind::OperationFailed => "Operation failed",
            ErrKind::SizeMismatch => "operands must be of the same size or one must be scalar",
            ErrKind::DealScalarsOnly => "Deal operation is only available for two scalars",
            ErrKind::DealArguments => "Deal arguments must be integers; right argument must be greater than or equal to the left argument",
            ErrKind::CannotFindMax => "Cannot find max",
            ErrKind::GenIndexScalarOnly => "Generate index only one integer at the moment",
            ErrKind::GenIndexDomain => "Generate index only accepts non-negative integer values as right operand",
            ErrKind::BadNumber => "cannot be represented as a valid number",
            ErrKind::EmptyReduction => "reduction over an empty vector has no identity",
            ErrKind::ReduceFailed => "Arithmetic error or invalid operation in Reduce",
        }
    }
}

/// The fixed message of each failure kind.
pub open spec fn spec_message(k: ErrKind) -> Seq<char> {
    match k {
        ErrKind::OperationFailed => "Operation failed"@,
        ErrKind::SizeMismatch => "operands must be of the same size or one must be scalar"@,
        ErrKind::DealScalarsOnly => "Deal operation is only available for two scalars"@,
        ErrKind::DealArguments => "Deal arguments must be integers; right argument must be greater than or equal to the left argument"@,
        ErrKind::CannotFindMax => "Cannot find max"@,
        ErrKind::GenIndexScalarOnly => "Generate index only one integer at the moment"@,
        ErrKind::GenIndexDomain => "Generate index only accepts non-negative integer values as right operand"@,
        ErrKind::BadNumber => "cannot be represented as a valid number"@,
        ErrKind::EmptyReduction => "reduction over an empty vector has no identity"@,
        ErrKind::ReduceFailed => "Arithmetic error or invalid operation in Reduce"@,
    }
}

/// The executable result returns exactly what the model says.
pub open spec fn vals_result_matches(
    s: Result<Seq<Val>, (Span, ErrKind)>,
    r: Result<Vec<Val>, (Span, ErrKind)>,
) -> bool {
    match r {
        Ok(v) => s == Ok::<Seq<Val>, (Span, ErrKind)>(v@),
        Err(er) => s == Err::<Seq<Val>, (Span, ErrKind)>(er),
    }
}

// ---------------------------------------------------------------------------
// Scalar extension: the shape layer of the dyadic primitives.
// ---------------------------------------------------------------------------

/// Every pairing succeeds.
pub open spec fn dyad_zip_ok(op: DyadOp, ls: Seq<Val>, rs: Seq<Val>) -> bool {
    forall|i: int| 0 <= i < ls.len() ==> dyad_spec(op, ls[i], rs[i]) is Some
}

/// The index-wise pairing of two equally long operand rows.
pub open spec fn dyad_zip(op: DyadOp, ls: Seq<Val>, rs: Seq<Val>) -> Seq<Val> {
    Seq::new(ls.len(), |i: int| dyad_spec(op, ls[i], rs[i]).unwrap())
}

/// Scalar extension over two operand rows: a length-one side broadcasts,
/// equal lengths pair index-wise, anything else is a shape error. Both a
/// shape error and a failed element carry the operator's span.
pub open spec fn apply_dyadic_spec(span: Span, op: DyadOp, ls: Seq<Val>, rs: Seq<Val>) -> Result<
    Seq<Val>,
    (Span, ErrKind),
> {
    if ls.len() == 1 {
        let lse = Seq::new(rs.len(), |i: int| ls[0]);
        if dyad_zip_ok(op, lse, rs) {
            Ok(dyad_zip(op, lse, rs))
        } else {
            Err((span, ErrKind::OperationFailed))
        }
    } else if rs.len() == 1 {
        let rse = Seq::new(ls.len(), |i: int| rs[0]);
        if dyad_zip_ok(op, ls, rse) {
            Ok(dyad_zip(op, ls, rse))
        } else {
            Err((span, ErrKind::OperationFailed))
        }
    } else if ls.len() == rs.len() {
        if dyad_zip_ok(op, ls, rs) {
            Ok(dyad_zip(op, ls, rs))
        } else {
            Err((span, ErrKind::OperationFailed))
        }
    } else {
        Err((span, ErrKind::SizeMismatch))
    }
}

/// Applies a dyadic primitive element-wise under scalar extension.
#[verifier::loop_isolation(false)]
pub fn apply_dyadic_operation(span: Span, lhs: &Vec<Val>, rhs: &Vec<Val>, op: DyadOp) -> (res:
    Result<Vec<Val>, (Span, ErrKind)>)
    ensures
        vals_result_matches(apply_dyadic_spec(span, op, lhs@, rhs@), res),
        res matches Ok(out) ==> out@.len() == if lhs@.len() == 1 {
            rhs@.len()
        } else {
            lhs@.len()
        },
{
    if lhs.len() == 1 {
        let ghost lse = Seq::new(rhs@.len(), |i: int| lhs@[0]);
        let mut out: Vec<Val> = Vec::new();
        let mut i: usize = 0;
        while i < rhs.len()
            invariant
                0 <= i <= rhs@.len(),
                out@.len() == i,
                forall|j: int| 0 <= j < i ==> dyad_spec(op, lse[j], rhs@[j]) is Some,
                forall|j: int| 0 <= j < i ==> out@[j] == dyad_spec(op, lse[j], rhs@[j]).unwrap(),
            decreases rhs@.len() - i,
        {
            match apply_dyad(op, &lhs[0], &rhs[i]) {
                Some(v) => out.push(v),
                None => {
                    return Err((span, ErrKind::OperationFailed));
                },
            }
            i = i + 1;
        }
        proof {
            assert(dyad_zip_ok(op, lse, rhs@));
            assert(out@ =~= dyad_zip(op, lse, rhs@));
        }
        Ok(out)
    } else if rhs.len() == 1 {
        let ghost rse = Seq::new(lhs@.len(), |i: int| rhs@[0]);
        let mut out: Vec<Val> = Vec::new();
        let mut i: usize = 0;
        while i < lhs.len()
            invariant
                0 <= i <= lhs@.len(),
                out@.len() == i,
                forall|j: int| 0 <= j < i ==> dyad_spec(op, lhs@[j], rse[j]) is Some,
                forall|j: int| 0 <= j < i ==> out@[j] == dyad_spec(op, lhs@[j], rse[j]).unwrap(),
            decreases lhs@.len() - i,
        {
            match apply_dyad(op, &lhs[i], &rhs[0]) {
                Some(v) => out.push(v),
                None => {
                    return Err((span, ErrKind::OperationFailed));
                },
            }
            i = i + 1;
        }
        proof {
            assert(dyad_zip_ok(op, lhs@, rse));
            assert(out@ =~= dyad_zip(op, lhs@, rse));
        }
        Ok(out)
    } else if lhs.len() == rhs.len() {
        let mut out: Vec<Val> = Vec::new();
        let mut i: usize = 0;
        while i < lhs.len()
            invariant
                0 <= i <= lhs@.len(),
                out@.len() == i,
                forall|j: int| 0 <= j < i ==> dyad_spec(op, lhs@[j], rhs@[j]) is Some,
                forall|j: int| 0 <= j < i ==> out@[j] == dyad_spec(op, lhs@[j], rhs@[j]).unwrap(),
            decreases lhs@.len() - i,
        {
            match apply_dyad(op, &lhs[i], &rhs[i]) {
                Some(v) => out.push(v),
                None => {
                    return Err((span, ErrKind::OperationFailed));
                },
            }
            i = i + 1;
        }
        proof {
            assert(dyad_zip_ok(op, lhs@, rhs@));
            assert(out@ =~= dyad_zip(op, lhs@, rhs@));
        }
        Ok(out)
    } else {
        Err((span, ErrKind::SizeMismatch))
    }
}

// ---------------------------------------------------------------------------
// Element-wise monadic application.
// ---------------------------------------------------------------------------

pub open spec fn monad_map_ok(op: MonadOp, s: Seq<Val>) -> bool {
    forall|i: int| 0 <= i < s.len() ==> monad_spec(op, s[i]) is Some
}

pub open spec fn monad_map(op: MonadOp, s: Seq<Val>) -> Seq<Val> {
    Seq::new(s.len(), |i: int| monad_spec(op, s[i]).unwrap())
}

/// An element-wise monadic primitive over a row: shape preserved, the first
/// failing element aborts with the operator's span.
pub open spec fn apply_monadic_spec(span: Span, op: MonadOp, s: Seq<Val>) -> Result<
    Seq<Val>,
    (Span, ErrKind),
> {
    if monad_map_ok(op, s) {
        Ok(monad_map(op, s))
    } else {
        Err((span, ErrKind::OperationFailed))
    }
}

/// Applies an element-wise monadic primitive over its operand.
#[verifier::loop_isolation(false)]
pub fn apply_monadic_operation(span: Span, arg: &Vec<Val>, op: MonadOp) -> (res: Result<
    Vec<Val>,
    (Span, ErrKind),
>)
    requires
        crate::scalar_ops::is_elementwise(op),
    ensures
        vals_result_matches(apply_monadic_spec(span, op, arg@), res),
        res matches Ok(out) ==> out@.len() == arg@.len(),
{
    let mut out: Vec<Val> = Vec::new();
    let mut i: usize = 0;
    while i < arg.len()
        invariant
            0 <= i <= arg@.len(),
            out@.len() == i,
            forall|j: int| 0 <= j < i ==> monad_spec(op, arg@[j]) is Some,
            forall|j: int| 0 <= j < i ==> out@[j] == monad_spec(op, arg@[j]).unwrap(),
        decreases arg@.len() - i,
    {
        match apply_monad(op, &arg[i]) {
            Some(v) => out.push(v),
            None => {
                return Err((span, ErrKind::OperationFailed));
            },
        }
        i = i + 1;
    }
    proof {
        assert(monad_map_ok(op, arg@));
        assert(out@ =~= monad_map(op, arg@));
    }
    Ok(out)
}

/// Both operands have the same length or one of them is a scalar.
pub fn check_lengths<N>(lhs_eval: &Vec<N>, rhs_eval: &Vec<N>) -> (r: bool)
    ensures
        r == (lhs_eval@.len() == rhs_eval@.len() || lhs_eval@.len() == 1 || rhs_eval@.len() == 1),
{
    lhs_eval.len() == rhs_eval.len() || lhs_eval.len() == 1 || rhs_eval.len() == 1
}

// ---------------------------------------------------------------------------
// The monadic extremes.
// ---------------------------------------------------------------------------

/// The left fold keeping the later element on ties: the last greatest
/// element of the prefix of length `n`.
pub open spec fn max_fold(s: Seq<Val>, n: int) -> Val
    decreases n,
{
    if n <= 1 {
        s[0]
    } else {
        let m = max_fold(s, n - 1);
        if !val_lt(s[n - 1], m) {
            s[n - 1]
        } else {
            m
        }
    }
}

/// The left fold keeping the earlier element on ties: the first least
/// element of the prefix of length `n`.
pub open spec fn min_fold(s: Seq<Val>, n: int) -> Val
    decreases n,
{
    if n <= 1 {
        s[0]
    } else {
        let m = min_fold(s, n - 1);
        if val_lt(s[n - 1], m) {
            s[n - 1]
        } else {
            m
        }
    }
}

#[verifier::loop_isolation(false)]
pub fn monadic_max(arg: &Vec<Val>) -> (r: Val)
    requires
        arg@.len() >= 1,
    ensures
        r == max_fold(arg@, arg@.len() as int),
{
    let mut acc: Val = arg[0];
    let mut i: usize = 1;
    while i < arg.len()
        invariant
            1 <= i <= arg@.len(),
            acc == max_fold(arg@, i as int),
        decreases arg@.len() - i,
    {
        if !arg[i].lt(&acc) {
            acc = arg[i];
        }
        i = i + 1;
    }
    acc
}

#[verifier::loop_isolation(false)]
pub fn monadic_min(arg: &Vec<Val>) -> (r: Val)
    requires
        arg@.len() >= 1,
    ensures
        r == min_fold(arg@, arg@.len() as int),
{
    let mut acc: Val = arg[0];
    let mut i: usize = 1;
    while i < arg.len()
        invariant
            1 <= i <= arg@.len(),
            acc == min_fold(arg@, i as int),
        decreases arg@.len() - i,
    {
        if arg[i].lt(&acc) {
            acc = arg[i];
        }
        i = i + 1;
    }
    acc
}

// ---------------------------------------------------------------------------
// Iota.
// ---------------------------------------------------------------------------

/// Iota over the evaluated operand: a single non-negative integer `n` (no
/// larger than a vector can be) yields the integers 1 to `n`.
pub open spec fn gen_index_spec(span: Span, s: Seq<Val>) -> Result<Seq<Val>, (Span, ErrKind)> {
    if s.len() != 1 {
        Err((span, ErrKind::GenIndexScalarOnly))
    } else {
        match s[0] {
            Val::Integer(n) => if 0 <= n && n <= usize::MAX {
                Ok(Seq::new(n as nat, |i: int| Val::Integer((i + 1) as i64)))
            } else {
                Err((span, ErrKind::GenIndexDomain))
            },
            Val::Float(_) => Err((span, ErrKind::GenIndexDomain)),
        }
    }
}

#[verifier::loop_isolation(false)]
pub fn gen_index(span: Span, arg: &Vec<Val>) -> (res: Result<Vec<Val>, (Span, ErrKind)>)
    ensures
        vals_result_matches(gen_index_spec(span, arg@), res),
{
    if arg.len() != 1 {
        return Err((span, ErrKind::GenIndexScalarOnly));
    }
    match arg[0] {
        Val::Integer(n) => {
            if n < 0 || n as u64 > usize::MAX as u64 {
                return Err((span, ErrKind::GenIndexDomain));
            }
            let count: usize = n as usize;
            let mut out: Vec<Val> = Vec::new();
            let mut i: usize = 0;
            while i < count
                invariant
                    0 <= i <= count,
                    out@.len() == i,
                    forall|j: int| 0 <= j < i ==> out@[j] == Val::Integer((j + 1) as i64),
                decreases count - i,
            {
                out.push(Val::Integer((i as i64) + 1));
                i = i + 1;
            }
            proof {
                assert(out@ =~= Seq::new(n as nat, |i: int| Val::Integer((i + 1) as i64)));
            }
            Ok(out)
        },
        Val::Float(_) => Err((span, ErrKind::GenIndexDomain)),
    }
}

// ---------------------------------------------------------------------------
// Where.
// ---------------------------------------------------------------------------

/// How many copies of its (one-based) position an element contributes: a
/// positive integer contributes itself many, a positive double its floor
/// many; everything else contributes none. Fails when the count cannot be
/// held by a vector.
pub open spec fn where_count(v: Val) -> Option<nat> {
    match v {
        Val::Integer(i) => if i <= 0 {
            Some(0 as nat)
        } else if i <= usize::MAX {
            Some(i as nat)
        } else {
            None
        },
        Val::Float(b) => if crate::val::fb_is_pos(b) {
            match crate::fbits::f_to_usize(crate::fbits::f_floor(b)) {
                Some(c) => Some(c as nat),
                None => None,
            }
        } else {
            Some(0 as nat)
        },
    }
}

/// The `Where` result over the prefix of length `n`: each position repeated
/// its element's count many times, in order.
pub open spec fn where_spec(s: Seq<Val>, n: int) -> Option<Seq<Val>>
    decreases n,
{
    if n <= 0 {
        Some(Seq::empty())
    } else if n > i64::MAX {
        None
    } else {
        match where_spec(s, n - 1) {
            Some(pre) => match where_count(s[n - 1]) {
                Some(c) => Some(pre + Seq::new(c, |j: int| Val::Integer(n as i64))),
                None => None,
            },
            None => None,
        }
    }
}

#[verifier::loop_isolation(false)]
pub fn where_positions(span: Span, arg: &Vec<Val>) -> (res: Result<Vec<Val>, (Span, ErrKind)>)
    ensures
        vals_result_matches(
            match where_spec(arg@, arg@.len() as int) {
                Some(s) => Ok(s),
                None => Err((span, ErrKind::OperationFailed)),
            },
            res,
        ),
{
    let mut out: Vec<Val> = Vec::new();
    let mut i: usize = 0;
    while i < arg.len()
        invariant
            0 <= i <= arg@.len(),
            where_spec(arg@, i as int) == Some(out@),
        decreases arg@.len() - i,
    {
        if i as u64 >= i64::MAX as u64 {
            proof {
                lemma_where_spec_stays_none(arg@, (i + 1) as int, arg@.len() as int);
            }
            return Err((span, ErrKind::OperationFailed));
        }
        let position: i64 = (i as i64) + 1;
        let count: usize = match arg[i] {
            Val::Integer(v) => {
                if v <= 0 {
                    0
                } else if v as u64 <= usize::MAX as u64 {
                    v as usize
                } else {
                    proof {
                        lemma_where_spec_stays_none(arg@, (i + 1) as int, arg@.len() as int);
                    }
                    return Err((span, ErrKind::OperationFailed));
                }
            },
            Val::Float(b) => {
                let nan: bool = b & crate::val::ABS_MASK > crate::val::EXP_MASK;
                let zero: bool = b & crate::val::ABS_MASK == 0;
                let neg: bool = b & crate::val::SIGN_MASK != 0;
                if !nan && !zero && !neg {
                    match crate::fbits::bits_to_usize(crate::fbits::floor_bits(b)) {
                        Some(c) => c,
                        None => {
                            proof {
                                lemma_where_spec_stays_none(arg@, (i + 1) as int,
                                    arg@.len() as int);
                            }
                            return Err((span, ErrKind::OperationFailed));
                        },
                    }
                } else {
                    0
                }
            },
        };
        let ghost pre = out@;
        let mut j: usize = 0;
        while j < count
            invariant
                0 <= j <= count,
                out@ == pre + Seq::new(j as nat, |t: int| Val::Integer(position)),
            decreases count - j,
        {
            out.push(Val::Integer(position));
            proof {
                assert(out@ =~= pre + Seq::new((j + 1) as nat, |t: int| Val::Integer(position)));
            }
            j = j + 1;
        }
        proof {
            assert(where_count(arg@[i as int]) == Some(count as nat));
            assert(Seq::new(count as nat, |t: int| Val::Integer(position)) =~= Seq::new(
                count as nat,
                |t: int| Val::Integer(((i + 1) as int) as i64),
            ));
        }
        i = i + 1;
    }
    Ok(out)
}

/// Once a prefix of `Where` has failed, every longer prefix fails.
pub proof fn lemma_where_spec_stays_none(s: Seq<Val>, j: int, n: int)
    requires
        j <= n,
        where_spec(s, j) is None,
    ensures
        where_spec(s, n) is None,
    decreases n - j,
{
    if j < n {
        lemma_where_spec_stays_none(s, j + 1, n);
    }
}

// ---------------------------------------------------------------------------
// The random primitives.
// ---------------------------------------------------------------------------

/// The scalar is an integer between 0 and `n`.
pub open spec fn val_int_in_range(v: Val, n: i64) -> bool {
    v matches Val::Integer(x) && 0 <= x <= n
}

/// Every element is a non-negative integer.
pub open spec fn roll_domain_ok(s: Seq<Val>) -> bool {
    forall|j: int| 0 <= j < s.len() ==> ((#[trigger] s[j]) matches Val::Integer(n) && n >= 0)
}

/// A random draw per element: the whole 64-bit range for a zero element, a
/// uniform draw from 0 to `n` for a positive integer `n`; anything else is
/// a failure. Shape is preserved and each draw is within its range,
/// whatever the generator returned.
#[verifier::loop_isolation(false)]
pub fn roll_vals(span: Span, arg: &Vec<Val>) -> (res: Result<Vec<Val>, (Span, ErrKind)>)
    ensures
        res is Ok <==> roll_domain_ok(arg@),
        res matches Ok(out) ==> {
            &&& out@.len() == arg@.len()
            &&& forall|j: int| 0 <= j < arg@.len() ==> (#[trigger] out@[j]) is Integer
            &&& forall|j: int|
                0 <= j < arg@.len() ==> ((#[trigger] arg@[j]) matches Val::Integer(n) ==> (n > 0
                    ==> val_int_in_range(out@[j], n)))
        },
        res matches Err(er) ==> er == (span, ErrKind::OperationFailed),
{
    let mut out: Vec<Val> = Vec::new();
    let mut i: usize = 0;
    while i < arg.len()
        invariant
            0 <= i <= arg@.len(),
            out@.len() == i,
            forall|j: int|
                0 <= j < i ==> ((#[trigger] arg@[j]) matches Val::Integer(n) && n >= 0),
            forall|j: int| 0 <= j < i ==> (#[trigger] out@[j]) is Integer,
            forall|j: int|
                0 <= j < i ==> ((#[trigger] arg@[j]) matches Val::Integer(n) ==> (n > 0
                    ==> val_int_in_range(out@[j], n))),
        decreases arg@.len() - i,
    {
        match arg[i] {
            Val::Integer(n) => {
                if n == 0 {
                    out.push(Val::Integer(random_i64()));
                } else if n > 0 {
                    out.push(Val::Integer(random_i64_up_to(n)));
                } else {
                    return Err((span, ErrKind::OperationFailed));
                }
            },
            Val::Float(_) => {
                return Err((span, ErrKind::OperationFailed));
            },
        }
        i = i + 1;
    }
    Ok(out)
}

/// `count` random draws, each from 0 to `pool`: defined on two integer
/// scalars with `pool >= count >= 0`. Each failure names its own error;
/// on success the length is exactly `count` and every element is an integer
/// from the pool's range, whatever the generator returned.
#[verifier::loop_isolation(false)]
pub fn deal_vals(span: Span, lhs: &Vec<Val>, rhs: &Vec<Val>) -> (res: Result<
    Vec<Val>,
    (Span, ErrKind),
>)
    ensures
        lhs@.len() != 1 || rhs@.len() != 1 ==> res == Err::<Vec<Val>, (Span, ErrKind)>(
            (span, ErrKind::DealScalarsOnly),
        ),
        lhs@.len() == 1 && rhs@.len() == 1 ==> match (lhs@[0], rhs@[0]) {
            (Val::Integer(c), Val::Integer(p)) => if 0 <= c <= p {
                res matches Ok(out) && out@.len() == c && (forall|j: int|
                    0 <= j < out@.len() ==> val_int_in_range(#[trigger] out@[j], p))
            } else {
                res == Err::<Vec<Val>, (Span, ErrKind)>((span, ErrKind::DealArguments))
            },
            _ => res == Err::<Vec<Val>, (Span, ErrKind)>((span, ErrKind::DealArguments)),
        },
{
    if lhs.len() != 1 || rhs.len() != 1 {
        return Err((span, ErrKind::DealScalarsOnly));
    }
    match (&lhs[0], &rhs[0]) {
        (Val::Integer(c), Val::Integer(p)) => {
            if 0 <= *c && *c <= *p {
                let count: i64 = *c;
                let pool: i64 = *p;
                let mut out: Vec<Val> = Vec::new();
                let mut i: i64 = 0;
                while i < count
                    invariant
                        0 <= i <= count,
                        pool >= count,
                        out@.len() == i,
                        forall|j: int|
                            0 <= j < i ==> val_int_in_range(#[trigger] out@[j], pool),
                    decreases count - i,
                {
                    out.push(Val::Integer(random_i64_up_to(pool)));
                    i = i + 1;
                }
                Ok(out)
            } else {
                Err((span, ErrKind::DealArguments))
            }
        },
        _ => Err((span, ErrKind::DealArguments)),
    }
}

// ---------------------------------------------------------------------------
// Reduction.
// ---------------------------------------------------------------------------

/// One reduction step: the operator's checked arithmetic with promotion.
/// A division step fails on an exactly zero divisor rather than yield an
/// infinity.
pub open spec fn red_step(op: Operation, acc: Val, v: Val) -> Option<Val> {
    match op {
        Operation::Add => crate::val::spec_checked_add(acc, v),
        Operation::Subtract => crate::val::spec_checked_sub(acc, v),
        Operation::Multiply => crate::val::spec_checked_mul(acc, v),
        Operation::Divide => if val_is_zero(v) {
            None
        } else {
            crate::val::spec_checked_div(acc, v)
        },
        _ => None,
    }
}

/// The left fold of the first `n` elements, seeded with the first element.
pub open spec fn reduce_fold(op: Operation, s: Seq<Val>, n: int) -> Option<Val>
    decreases n,
{
    if n <= 1 {
        Some(s[0])
    } else {
        match reduce_fold(op, s, n - 1) {
            Some(acc) => red_step(op, acc, s[n - 1]),
            None => None,
        }
    }
}

/// A reduction over a row: an empty row has no implied identity and fails;
/// otherwise the left fold, failing if any step fails.
pub open spec fn reduce_spec(span: Span, op: Operation, s: Seq<Val>) -> Result<
    Seq<Val>,
    (Span, ErrKind),
> {
    if s.len() == 0 {
        Err((span, ErrKind::EmptyReduction))
    } else {
        match reduce_fold(op, s, s.len() as int) {
            Some(r) => Ok(seq![r]),
            None => Err((span, ErrKind::ReduceFailed)),
        }
    }
}

/// Once a fold prefix has failed, every longer prefix fails.
pub proof fn lemma_reduce_fold_stays_none(op: Operation, s: Seq<Val>, j: int, n: int)
    requires
        1 <= j <= n,
        reduce_fold(op, s, j) is None,
    ensures
        reduce_fold(op, s, n) is None,
    decreases n - j,
{
    if j < n {
        lemma_reduce_fold_stays_none(op, s, j + 1, n);
    }
}

/// One reduction step, executable.
pub fn red_step_exec(op: Operation, acc: &Val, v: &Val) -> (r: Option<Val>)
    ensures
        r == red_step(op, *acc, *v),
{
    match op {
        Operation::Add => acc.checked_add(v),
        Operation::Subtract => acc.checked_sub(v),
        Operation::Multiply => acc.checked_mul(v),
        Operation::Divide => if v.is_zero() {
            None
        } else {
            acc.checked_div(v)
        },
        _ => None,
    }
}

/// Reduces a row with the operator's checked arithmetic.
#[verifier::loop_isolation(false)]
pub fn reduce_vals(span: Span, op: Operation, term: &Vec<Val>) -> (res: Result<
    Vec<Val>,
    (Span, ErrKind),
>)
    ensures
        vals_result_matches(reduce_spec(span, op, term@), res),
        res matches Ok(out) ==> out@.len() == 1,
{
    if term.len() == 0 {
        return Err((span, ErrKind::EmptyReduction));
    }
    let mut acc: Val = term[0];
    let mut i: usize = 1;
    while i < term.len()
        invariant
            1 <= i <= term@.len(),
            reduce_fold(op, term@, i as int) == Some(acc),
        decreases term@.len() - i,
    {
        match red_step_exec(op, &acc, &term[i]) {
            Some(v) => {
                acc = v;
            },
            None => {
                proof {
                    lemma_reduce_fold_stays_none(op, term@, (i + 1) as int, term@.len() as int);
                }
                return Err((span, ErrKind::ReduceFailed));
            },
        }
        i = i + 1;
    }
    let mut out: Vec<Val> = Vec::new();
    out.push(acc);
    proof {
        assert(out@ =~= seq![acc]);
    }
    Ok(out)
}

// ---------------------------------------------------------------------------
// The evaluator.
// ---------------------------------------------------------------------------

/// The model of the evaluator on expressions that draw no randomness. The
/// two random primitives are given no meaning here (the arms exist to keep
/// the function total; `eval`'s contract covers them separately).
pub open spec fn eval_spec(e: ExprModel) -> Result<Seq<Val>, (Span, ErrKind)>
    decreases e,
{
    match e {
        ExprModel::ScalarInteger { value, .. } => Ok(seq![Val::Integer(value)]),
        ExprModel::ScalarFloat { bits, .. } => Ok(seq![Val::Float(bits)]),
        ExprModel::Vector { elements, .. } => eval_vec_spec(elements, elements.len() as int),
        ExprModel::Monadic { span, op, arg } => match eval_spec(*arg) {
            Ok(vals) => match op {
                MonadOp::Roll => Err((span, ErrKind::OperationFailed)),
                MonadOp::MonadicMax => if vals.len() == 0 {
                    Err((span, ErrKind::CannotFindMax))
                } else {
                    Ok(seq![max_fold(vals, vals.len() as int)])
                },
                MonadOp::MonadicMin => if vals.len() == 0 {
                    Err((span, ErrKind::CannotFindMax))
                } else {
                    Ok(seq![min_fold(vals, vals.len() as int)])
                },
                MonadOp::GenIndex => gen_index_spec(span, vals),
                MonadOp::Where => match where_spec(vals, vals.len() as int) {
                    Some(s) => Ok(s),
                    None => Err((span, ErrKind::OperationFailed)),
                },
                _ => apply_monadic_spec(span, op, vals),
            },
            Err(er) => Err(er),
        },
        ExprModel::Dyadic { span, op, lhs, rhs } => match eval_spec(*lhs) {
            Ok(lv) => match eval_spec(*rhs) {
                Ok(rv) => if op == DyadOp::Deal {
                    Err((span, ErrKind::OperationFailed))
                } else {
                    apply_dyadic_spec(span, op, lv, rv)
                },
                Err(er) => Err(er),
            },
            Err(er) => Err(er),
        },
        ExprModel::Reduce { span, op, term } => match eval_spec(*term) {
            Ok(tv) => reduce_spec(span, op, tv),
            Err(er) => Err(er),
        },
    }
}

/// A failed prefix decides the whole flattening.
pub proof fn lemma_eval_vec_spec_extends_err(elems: Seq<ExprModel>, j: int, n: int)
    requires
        0 <= j <= n <= elems.len(),
        eval_vec_spec(elems, j) is Err,
    ensures
        eval_vec_spec(elems, n) == eval_vec_spec(elems, j),
    decreases n - j,
{
    if j < n {
        assert(eval_vec_spec(elems, j + 1) == eval_vec_spec(elems, j));
        lemma_eval_vec_spec_extends_err(elems, j + 1, n);
    }
}

/// The flattening of a vector node's children, left to right, stopping at
/// the first failing child.
pub open spec fn eval_vec_spec(elems: Seq<ExprModel>, n: int) -> Result<Seq<Val>, (Span, ErrKind)>
    decreases elems, n,
{
    if n <= 0 {
        Ok(Seq::empty())
    } else if n > elems.len() {
        Ok(Seq::empty())
    } else {
        match eval_vec_spec(elems, n - 1) {
            Ok(pre) => match eval_spec(elems[n - 1]) {
                Ok(v) => Ok(pre + v),
                Err(er) => Err(er),
            },
            Err(er) => Err(er),
        }
    }
}

/// Evaluates an expression to a vector of scalars.
///
/// On every expression that draws no randomness the result is exactly the
/// model `eval_spec`. On every expression, a successful empty result can
/// arise only where the tree structurally allows one.
#[verifier::loop_isolation(false)]
pub fn eval(e: &Expr) -> (res: Result<Vec<Val>, (Span, ErrKind)>)
    ensures
        no_random(e@) ==> vals_result_matches(eval_spec(e@), res),
        res matches Ok(out) && out@.len() == 0 ==> may_yield_empty(e@),
    decreases *e,
{
    match e {
        Expr::ScalarInteger { value, .. } => {
            let mut out: Vec<Val> = Vec::new();
            out.push(Val::Integer(*value));
            proof {
                assert(out@ =~= seq![Val::Integer(*value)]);
            }
            Ok(out)
        },
        Expr::ScalarFloat { bits, .. } => {
            let mut out: Vec<Val> = Vec::new();
            out.push(Val::Float(*bits));
            proof {
                assert(out@ =~= seq![Val::Float(*bits)]);
            }
            Ok(out)
        },
        Expr::Vector { elements, .. } => {
            let ghost melems = crate::ast::exprs_view(elements@);
            let mut out: Vec<Val> = Vec::new();
            let mut i: usize = 0;
            while i < elements.len()
                invariant
                    0 <= i <= elements@.len(),
                    no_random(e@) ==> eval_vec_spec(melems, i as int) == Ok::<
                        Seq<Val>,
                        (Span, ErrKind),
                    >(out@),
                    out@.len() == 0 ==> forall|j: int|
                        0 <= j < i ==> may_yield_empty(#[trigger] melems[j]),
                decreases elements@.len() - i,
            {
                proof {
                    vstd::std_specs::vec::axiom_vec_index_decreases(*elements, i as int);
                    assert(melems[i as int] == expr_view(elements@[i as int]));
                }
                match eval(&elements[i]) {
                    Ok(mut v) => {
                        out.append(&mut v);
                    },
                    Err(er) => {
                        proof {
                            if no_random(e@) {
                                assert(eval_vec_spec(melems, i + 1) == Err::<
                                    Seq<Val>,
                                    (Span, ErrKind),
                                >(er));
                                lemma_eval_vec_spec_extends_err(melems, i + 1,
                                    melems.len() as int);
                            }
                        }
                        return Err(er);
                    },
                }
                i = i + 1;
            }
            Ok(out)
        },
        Expr::Monadic { span, op, arg } => {
            let vals = match eval(arg) {
                Ok(v) => v,
                Err(er) => {
                    return Err(er);
                },
            };
            match op {
                MonadOp::Roll => roll_vals(*span, &vals),
                MonadOp::MonadicMax => {
                    if vals.len() == 0 {
                        Err((*span, ErrKind::CannotFindMax))
                    } else {
                        let m = monadic_max(&vals);
                        let mut out: Vec<Val> = Vec::new();
                        out.push(m);
                        proof {
                            assert(out@ =~= seq![max_fold(vals@, vals@.len() as int)]);
                        }
                        Ok(out)
                    }
                },
                MonadOp::MonadicMin => {
                    if vals.len() == 0 {
                        Err((*span, ErrKind::CannotFindMax))
                    } else {
                        let m = monadic_min(&vals);
                        let mut out: Vec<Val> = Vec::new();
                        out.push(m);
                        proof {
                            assert(out@ =~= seq![min_fold(vals@, vals@.len() as int)]);
                        }
                        Ok(out)
                    }
                },
                MonadOp::GenIndex => gen_index(*span, &vals),
                MonadOp::Where => where_positions(*span, &vals),
                _ => apply_monadic_operation(*span, &vals, *op),
            }
        },
        Expr::Dyadic { span, op, lhs, rhs } => {
            let lv = match eval(lhs) {
                Ok(v) => v,
                Err(er) => {
                    return Err(er);
                },
            };
            let rv = match eval(rhs) {
                Ok(v) => v,
                Err(er) => {
                    return Err(er);
                },
            };
            match op {
                DyadOp::Deal => deal_vals(*span, &lv, &rv),
                _ => apply_dyadic_operation(*span, &lv, &rv, *op),
            }
        },
        Expr::Reduce { span, op, term } => {
            let tv = match eval(term) {
                Ok(v) => v,
                Err(er) => {
                    return Err(er);
                },
            };
            reduce_vals(*span, *op, &tv)
        },
    }
}

} // verus!
