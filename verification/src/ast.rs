//! The abstract syntax tree of the language.
//!
//! Every node carries a `Span`, a half-open byte interval into the source
//! line, used only for error reporting. The parser resolves each glyph's
//! arity, so a monadic and a dyadic use of the same glyph reach the
//! evaluator as distinct operators and the evaluator never inspects arity.

use vstd::prelude::*;

verus! {

broadcast use vstd::seq::axiom_seq_index_decreases, vstd::std_specs::vec::axiom_vec_index_decreases, vstd::std_specs::vec::axiom_vec_decreases_to_view;

/// A half-open byte interval into the source line. `Span { lo: 0, hi: 0 }`
/// is the sentinel for "no meaningful source location".
#[derive(Clone, Copy, Debug, PartialEq, Eq, Structural)]
pub struct Span {
    pub lo: usize,
    pub hi: usize,
}

/// The operators a reduction can carry.
#[derive(Clone, Copy, Debug, PartialEq, Eq, Structural)]
pub enum Operation {
    // Unary
    Negate,
    Max,
    Min,
    // Binary
    Add,
    Subtract,
    Multiply,
    Divide,
}

/// The monadic (one-operand) primitives.
#[derive(Clone, Copy, Debug, PartialEq, Eq, Structural)]
pub enum MonadOp {
    /// Identity on reals (a placeholder for complex support).
    Conjugate,
    /// Checked negation.
    Negate,
    /// The sign of each element as an integer in -1, 0, 1.
    Direction,
    /// One divided by each element; always a double.
    Reciprocal,
    /// `e` raised to each element; always a double.
    Exp,
    /// Natural logarithm; defined for strictly positive elements only.
    NaturalLog,
    /// Pi times each element; always a double.
    PiMultiple,
    /// Factorial of non-negative integers (checked) and of non-negative
    /// integral doubles.
    Factorial,
    /// A random draw per element (the whole 64-bit range for 0, otherwise
    /// from 0 to the element).
    Roll,
    /// Absolute value, keeping the tag.
    Magnitude,
    /// Rounding up, keeping the tag (integers unchanged).
    Ceil,
    /// Rounding down, keeping the tag (integers unchanged).
    Floor,
    /// The greatest element of the operand, by the total order.
    MonadicMax,
    /// The least element of the operand, by the total order.
    MonadicMin,
    /// Iota: the integers from 1 to a non-negative scalar integer.
    GenIndex,
    /// Each position of a positive element, repeated its floor many times.
    Where,
}

/// The dyadic (two-operand) primitives.
#[derive(Clone, Copy, Debug, PartialEq, Eq, Structural)]
pub enum DyadOp {
    Add,
    Sub,
    Mul,
    Div,
    /// Integer checked power when the right side converts exactly to a
    /// non-negative integer, floating-point power otherwise.
    Power,
    /// Logarithm of the right side in the base given by the left side.
    Log,
    /// Element-wise selection of the smaller value by the total order.
    Min,
    /// Element-wise selection of the larger value by the total order.
    Max,
    /// The binomial coefficient of a non-negative pair.
    Binomial,
    /// Random draws: left side many, each from 0 to the right side.
    Deal,
    /// The modulo operation.
    Residue,
}

/// An expression tree. Leaves carry the value their literal denotes beside
/// the span of the literal's text.
pub enum Expr {
    ScalarInteger { span: Span, value: i64 },
    ScalarFloat { span: Span, bits: u64 },
    Vector { span: Span, elements: Vec<Expr> },
    Monadic { span: Span, op: MonadOp, arg: Box<Expr> },
    Dyadic { span: Span, op: DyadOp, lhs: Box<Expr>, rhs: Box<Expr> },
    Reduce { span: Span, op: Operation, term: Box<Expr> },
}

/// The mathematical shape of an expression tree: the ghost mirror of
/// `Expr`, holding a vector node's children as a sequence. The parser's
/// model produces this type, the evaluator's model consumes it, and an
/// `Expr`'s view is its mirror.
pub enum ExprModel {
    ScalarInteger { span: Span, value: i64 },
    ScalarFloat { span: Span, bits: u64 },
    Vector { span: Span, elements: Seq<ExprModel> },
    Monadic { span: Span, op: MonadOp, arg: Box<ExprModel> },
    Dyadic { span: Span, op: DyadOp, lhs: Box<ExprModel>, rhs: Box<ExprModel> },
    Reduce { span: Span, op: Operation, term: Box<ExprModel> },
}

/// The mirror of an expression tree.
pub open spec fn expr_view(e: Expr) -> ExprModel
    decreases e, 1int,
{
    match e {
        Expr::ScalarInteger { span, value } => ExprModel::ScalarInteger { span, value },
        Expr::ScalarFloat { span, bits } => ExprModel::ScalarFloat { span, bits },
        Expr::Vector { span, elements } => ExprModel::Vector {
            span,
            elements: exprs_view(elements@),
        },
        Expr::Monadic { span, op, arg } => ExprModel::Monadic {
            span,
            op,
            arg: Box::new(expr_view(*arg)),
        },
        Expr::Dyadic { span, op, lhs, rhs } => ExprModel::Dyadic {
            span,
            op,
            lhs: Box::new(expr_view(*lhs)),
            rhs: Box::new(expr_view(*rhs)),
        },
        Expr::Reduce { span, op, term } => ExprModel::Reduce {
            span,
            op,
            term: Box::new(expr_view(*term)),
        },
    }
}

/// The mirrors of a row of expression trees. (The guard in the closure
/// serves only its termination check; a sequence is never read outside its
/// length.)
pub open spec fn exprs_view(s: Seq<Expr>) -> Seq<ExprModel>
    decreases s, 0int,
{
    Seq::new(
        s.len(),
        |i: int|
            if 0 <= i < s.len() {
                expr_view(s[i])
            } else {
                ExprModel::ScalarInteger { span: Span { lo: 0, hi: 0 }, value: 0 }
            },
    )
}

impl View for Expr {
    type V = ExprModel;

    open spec fn view(&self) -> ExprModel {
        expr_view(*self)
    }
}

/// The expression draws no randomness: it contains no `Roll` and no `Deal`.
pub open spec fn no_random(e: ExprModel) -> bool
    decreases e,
{
    match e {
        ExprModel::ScalarInteger { .. } => true,
        ExprModel::ScalarFloat { .. } => true,
        ExprModel::Vector { elements, .. } => forall|i: int|
            0 <= i < elements.len() ==> no_random(#[trigger] elements[i]),
        ExprModel::Monadic { op, arg, .. } => op != MonadOp::Roll && no_random(*arg),
        ExprModel::Dyadic { op, lhs, rhs, .. } => op != DyadOp::Deal && no_random(*lhs)
            && no_random(*rhs),
        ExprModel::Reduce { term, .. } => no_random(*term),
    }
}

/// The expression can evaluate to an empty vector: emptiness arises from
/// `GenIndex 0`, from `Where` over non-positive elements, from a `Deal` of
/// zero draws, and propagates through element-wise primitives, vectors all
/// of whose parts can be empty, and broadcasts against an empty side.
pub open spec fn may_yield_empty(e: ExprModel) -> bool
    decreases e,
{
    match e {
        ExprModel::ScalarInteger { .. } => false,
        ExprModel::ScalarFloat { .. } => false,
        ExprModel::Vector { elements, .. } => forall|i: int|
            0 <= i < elements.len() ==> may_yield_empty(#[trigger] elements[i]),
        ExprModel::Monadic { op, arg, .. } => match op {
            MonadOp::GenIndex => true,
            MonadOp::Where => true,
            MonadOp::MonadicMax => false,
            MonadOp::MonadicMin => false,
            _ => may_yield_empty(*arg),
        },
        ExprModel::Dyadic { op, lhs, rhs, .. } => op == DyadOp::Deal || may_yield_empty(*lhs)
            || may_yield_empty(*rhs),
        ExprModel::Reduce { .. } => false,
    }
}

} // verus!
