//! The lexer and parser of the expression language.
//!
//! The grammar is the classic array-language shape: expressions evaluate
//! right to left with no precedence among the primitives, a glyph with no
//! left operand binds as a monadic primitive, a glyph after an operand binds
//! as a dyadic one, `op/` with no left operand is a reduction (the rounding
//! glyphs yield the monadic extremes instead), juxtaposed numeric literals
//! form a vector, and parentheses group. Spans are byte intervals into the
//! source line.

use vstd::prelude::*;

use crate::ast::{DyadOp, Expr, ExprModel, MonadOp, Operation, Span};
use crate::fbits::parse_bits;

verus! {

broadcast use vstd::seq::axiom_seq_index_decreases, vstd::std_specs::vec::axiom_vec_index_decreases;

/// Why a line could not be parsed.
#[derive(Clone, Copy, Debug, PartialEq, Eq, Structural)]
pub enum ParseError {
    /// The line ended where an operand was expected.
    UnexpectedEnd,
    /// A token that cannot stand at this place.
    UnexpectedToken(Span),
    /// An opening parenthesis without its closing one.
    MissingParen(Span),
    /// A byte that begins no token of the language.
    BadChar(Span),
    /// A numeric literal that denotes no representable number.
    BadNumber(Span),
}

/// A lexical token.
#[derive(Clone, Copy, Debug, PartialEq, Eq, Structural)]
pub struct Token {
    pub kind: TokKind,
    pub span: Span,
}

/// The token kinds: the two literal forms, the operator glyphs, the
/// reduction stroke and the parentheses.
#[derive(Clone, Copy, Debug, PartialEq, Eq, Structural)]
pub enum TokKind {
    Int(i64),
    FloatLit(u64),
    Plus,
    Minus,
    Times,
    Divide,
    Star,
    LogGlyph,
    CeilGlyph,
    FloorGlyph,
    Bang,
    Query,
    Pipe,
    Circle,
    Iota,
    WhereGlyph,
    Slash,
    LParen,
    RParen,
}

/// The checked decimal value of the digit bytes `s[a..n]`: the left fold
/// `acc * 10 + digit`, failing at the first value beyond the 64-bit range.
pub open spec fn dec_i64_checked(s: Seq<u8>, a: int, n: int) -> Option<int>
    decreases n - a,
{
    if n <= a {
        Some(0)
    } else {
        match dec_i64_checked(s, a, n - 1) {
            Some(acc) => if acc * 10 + (s[n - 1] - 48) <= i64::MAX {
                Some(acc * 10 + (s[n - 1] - 48))
            } else {
                None
            },
            None => None,
        }
    }
}

/// The decimal value denoted by the digit bytes `s[a..n]`.
pub open spec fn dec_value(s: Seq<u8>, a: int, n: int) -> int
    decreases n - a,
{
    if n <= a {
        0
    } else {
        dec_value(s, a, n - 1) * 10 + (s[n - 1] - 48)
    }
}

/// Over digit bytes the decimal value is non-negative and grows with the
/// prefix.
pub proof fn lemma_dec_value_grows(s: Seq<u8>, a: int, n: int)
    requires
        forall|j: int| a <= j < n ==> 48 <= #[trigger] s[j] <= 57,
    ensures
        dec_value(s, a, n) >= 0,
        n > a ==> dec_value(s, a, n) >= dec_value(s, a, n - 1),
    decreases n - a,
{
    if n > a {
        lemma_dec_value_grows(s, a, n - 1);
        let p = dec_value(s, a, n - 1);
        assert(p * 10 + (s[n - 1] - 48) >= p) by (nonlinear_arith)
            requires
                p >= 0,
                s[n - 1] >= 48,
        ;
    }
}

/// The checked fold computes exactly the decimal value of the digits: it
/// succeeds exactly when that value lies in the 64-bit range, and then
/// returns it.
pub proof fn lemma_dec_checked_exact(s: Seq<u8>, a: int, n: int)
    requires
        forall|j: int| a <= j < n ==> 48 <= #[trigger] s[j] <= 57,
    ensures
        dec_i64_checked(s, a, n) == (if dec_value(s, a, n) <= i64::MAX {
            Some(dec_value(s, a, n))
        } else {
            None
        }),
    decreases n - a,
{
    if n > a {
        lemma_dec_checked_exact(s, a, n - 1);
        lemma_dec_value_grows(s, a, n);
        let p = dec_value(s, a, n - 1);
        if p > i64::MAX {
            assert(p * 10 + (s[n - 1] - 48) >= p) by (nonlinear_arith)
                requires
                    p >= 0,
                    s[n - 1] >= 48,
            ;
        }
    }
}

/// Once the checked decimal fold has failed it stays failed.
pub proof fn lemma_dec_stays_none(s: Seq<u8>, a: int, j: int, n: int)
    requires
        j <= n,
        dec_i64_checked(s, a, j) is None,
    ensures
        dec_i64_checked(s, a, n) is None,
    decreases n - j,
{
    if j < n {
        lemma_dec_stays_none(s, a, j + 1, n);
    }
}

/// The 64-bit integer denoted by the decimal digit bytes `s[a..b]`, or
/// `None` exactly when the denoted value exceeds the range.
#[verifier::loop_isolation(false)]
pub fn parse_int_value(s: &[u8], a: usize, b: usize) -> (r: Option<i64>)
    requires
        a <= b <= s@.len(),
        forall|j: int| a <= j < b ==> 48 <= #[trigger] s@[j] <= 57,
    ensures
        match r {
            Some(v) => v as int == dec_value(s@, a as int, b as int) && dec_value(
                s@,
                a as int,
                b as int,
            ) <= i64::MAX,
            None => dec_value(s@, a as int, b as int) > i64::MAX,
        },
{
    proof {
        lemma_dec_checked_exact(s@, a as int, b as int);
    }
    let mut acc: i64 = 0;
    let mut i: usize = a;
    while i < b
        invariant
            a <= i <= b,
            acc >= 0,
            dec_i64_checked(s@, a as int, i as int) == Some(acc as int),
        decreases b - i,
    {
        let d: u8 = s[i] - 48;
        proof {
            assert((acc as u128) * 10 + (d as u128) < u128::MAX) by (nonlinear_arith)
                requires
                    0 <= acc <= i64::MAX,
                    d <= 9,
            ;
        }
        let wide: u128 = (acc as u128) * 10 + (d as u128);
        if wide > i64::MAX as u128 {
            proof {
                lemma_dec_stays_none(s@, a as int, (i + 1) as int, b as int);
            }
            return None;
        }
        acc = wide as i64;
        i = i + 1;
    }
    Some(acc)
}

/// The number of consecutive decimal digit bytes beginning at `j`.
pub open spec fn digit_run_len(s: Seq<u8>, j: int) -> nat
    decreases s.len() - j,
{
    if 0 <= j < s.len() && 48 <= s[j] <= 57 {
        1 + digit_run_len(s, j + 1)
    } else {
        0
    }
}

/// The run length is the distance to the first non-digit.
pub proof fn lemma_digit_run_len_exact(s: Seq<u8>, a: int, b: int)
    requires
        0 <= a <= b <= s.len(),
        forall|t: int| a <= t < b ==> 48 <= #[trigger] s[t] <= 57,
        b == s.len() || !(48 <= s[b] <= 57),
    ensures
        digit_run_len(s, a) == b - a,
    decreases b - a,
{
    if a < b {
        lemma_digit_run_len_exact(s, a + 1, b);
    }
}

/// Prepends one token to the rest of a tokenization.
pub open spec fn tok_cons(t: Token, rest: Result<Seq<Token>, ParseError>) -> Result<
    Seq<Token>,
    ParseError,
> {
    match rest {
        Ok(ts) => Ok(seq![t] + ts),
        Err(e) => Err(e),
    }
}

/// Prepends an already-cut prefix to the rest of a tokenization.
pub open spec fn tok_append(pre: Seq<Token>, rest: Result<Seq<Token>, ParseError>) -> Result<
    Seq<Token>,
    ParseError,
> {
    match rest {
        Ok(ts) => Ok(pre + ts),
        Err(e) => Err(e),
    }
}

/// The tokens of the line from byte `i` on: the model of the lexer.
pub open spec fn spec_tokenize(s: Seq<u8>, i: int) -> Result<Seq<Token>, ParseError>
    decreases s.len() - i,
{
    if i < 0 || i >= s.len() {
        Ok(Seq::empty())
    } else {
        let c = s[i];
        if c == 32 || c == 9 {
            spec_tokenize(s, i + 1)
        } else if 48 <= c <= 57 {
            // The clamps below only serve the termination check: a digit run
            // never passes the end of the line.
            let j = vstd::math::min(i + 1 + digit_run_len(s, i + 1), s.len() as int);
            if j < s.len() && s[j] == 46 && j + 1 < s.len() && 48 <= s[j + 1] <= 57 {
                let k = vstd::math::min(j + 2 + digit_run_len(s, j + 2), s.len() as int);
                let span = Span { lo: i as usize, hi: k as usize };
                match crate::fbits::f_of_decimal(s.subrange(i, k)) {
                    Some(bits) => tok_cons(
                        Token { kind: TokKind::FloatLit(bits), span },
                        spec_tokenize(s, k),
                    ),
                    None => Err(ParseError::BadNumber(span)),
                }
            } else {
                let span = Span { lo: i as usize, hi: j as usize };
                if 0 <= dec_value(s, i, j) <= i64::MAX {
                    tok_cons(
                        Token { kind: TokKind::Int(dec_value(s, i, j) as i64), span },
                        spec_tokenize(s, j),
                    )
                } else {
                    Err(ParseError::BadNumber(span))
                }
            }
        } else {
            match spec_glyph(s, i) {
                Ok((kind, w)) => tok_cons(
                    Token { kind, span: Span { lo: i as usize, hi: (i + w) as usize } },
                    spec_tokenize(s, i + w),
                ),
                Err(w) => Err(ParseError::BadChar(Span { lo: i as usize, hi: (i + w) as usize })),
            }
        }
    }
}

/// The glyph beginning at byte `i` (neither whitespace nor a digit) and its
/// width in bytes, or the width of the unrecognized sequence.
pub open spec fn spec_glyph(s: Seq<u8>, i: int) -> Result<(TokKind, int), int> {
    let c = s[i];
    if c == 43 {
        Ok((TokKind::Plus, 1))
    } else if c == 45 {
        Ok((TokKind::Minus, 1))
    } else if c == 42 {
        Ok((TokKind::Star, 1))
    } else if c == 33 {
        Ok((TokKind::Bang, 1))
    } else if c == 63 {
        Ok((TokKind::Query, 1))
    } else if c == 124 {
        Ok((TokKind::Pipe, 1))
    } else if c == 47 {
        Ok((TokKind::Slash, 1))
    } else if c == 40 {
        Ok((TokKind::LParen, 1))
    } else if c == 41 {
        Ok((TokKind::RParen, 1))
    } else if c == 0xC3 && i + 1 < s.len() {
        if s[i + 1] == 0x97 {
            Ok((TokKind::Times, 2))
        } else if s[i + 1] == 0xB7 {
            Ok((TokKind::Divide, 2))
        } else {
            Err(2)
        }
    } else if c == 0xE2 && s.len() - i > 2 {
        let d = s[i + 1];
        let e = s[i + 2];
        if d == 0x8C && e == 0x88 {
            Ok((TokKind::CeilGlyph, 3))
        } else if d == 0x8C && e == 0x8A {
            Ok((TokKind::FloorGlyph, 3))
        } else if d == 0x8D && e == 0xB3 {
            Ok((TokKind::Iota, 3))
        } else if d == 0x8D && e == 0xB8 {
            Ok((TokKind::WhereGlyph, 3))
        } else if d == 0x97 && e == 0x8B {
            Ok((TokKind::Circle, 3))
        } else if d == 0x8B && e == 0x86 {
            Ok((TokKind::Star, 3))
        } else if d == 0x8D && e == 0x9F {
            Ok((TokKind::LogGlyph, 3))
        } else {
            Err(3)
        }
    } else {
        Err(1)
    }
}

/// Cuts the tokens of a source line out of its bytes, exactly as the model
/// `spec_tokenize` describes.
#[verifier::loop_isolation(false)]
#[verifier::rlimit(100)]
pub fn tokenize(s: &[u8]) -> (res: Result<Vec<Token>, ParseError>)
    ensures
        match res {
            Ok(toks) => spec_tokenize(s@, 0) == Ok::<Seq<Token>, ParseError>(toks@),
            Err(e) => spec_tokenize(s@, 0) == Err::<Seq<Token>, ParseError>(e),
        },
{
    let mut toks: Vec<Token> = Vec::new();
    let mut i: usize = 0;
    while i < s.len()
        invariant
            0 <= i <= s@.len(),
            spec_tokenize(s@, 0) == tok_append(toks@, spec_tokenize(s@, i as int)),
        decreases s@.len() - i,
    {
        let ghost pre = toks@;
        let c: u8 = s[i];
        if c == 32 || c == 9 {
            proof {
                assert(spec_tokenize(s@, i as int) == spec_tokenize(s@, i + 1));
            }
            i = i + 1;
        } else if 48 <= c && c <= 57 {
            let start: usize = i;
            let mut j: usize = i + 1;
            while j < s.len() && 48 <= s[j] && s[j] <= 57
                invariant
                    start + 1 <= j <= s@.len(),
                    forall|t: int| start + 1 <= t < j ==> 48 <= #[trigger] s@[t] <= 57,
                decreases s@.len() - j,
            {
                j = j + 1;
            }
            proof {
                lemma_digit_run_len_exact(s@, start + 1, j as int);
                assert(j as int == vstd::math::min(
                    start + 1 + digit_run_len(s@, start + 1),
                    s@.len() as int,
                ));
            }
            if j < s.len() && s[j] == 46 && j + 1 < s.len() && 48 <= s[j + 1] && s[j + 1] <= 57 {
                // A literal with a decimal point.
                let mut k: usize = j + 2;
                while k < s.len() && 48 <= s[k] && s[k] <= 57
                    invariant
                        j + 2 <= k <= s@.len(),
                        forall|t: int| j + 2 <= t < k ==> 48 <= #[trigger] s@[t] <= 57,
                    decreases s@.len() - k,
                {
                    k = k + 1;
                }
                proof {
                    lemma_digit_run_len_exact(s@, j + 2, k as int);
                    assert(k as int == vstd::math::min(
                        j + 2 + digit_run_len(s@, j + 2),
                        s@.len() as int,
                    ));
                }
                let mut lit: Vec<u8> = Vec::new();
                let mut t: usize = start;
                while t < k
                    invariant
                        start <= t <= k <= s@.len(),
                        lit@ == s@.subrange(start as int, t as int),
                    decreases k - t,
                {
                    lit.push(s[t]);
                    proof {
                        assert(lit@ =~= s@.subrange(start as int, (t + 1) as int));
                    }
                    t = t + 1;
                }
                match parse_bits(lit.as_slice()) {
                    Some(bits) => {
                        let tok = Token {
                            kind: TokKind::FloatLit(bits),
                            span: Span { lo: start, hi: k },
                        };
                        toks.push(tok);
                        proof {
                            assert(spec_tokenize(s@, start as int) == tok_cons(
                                tok,
                                spec_tokenize(s@, k as int),
                            ));
                            lemma_tok_append_push(pre, tok, spec_tokenize(s@, k as int));
                        }
                        i = k;
                    },
                    None => {
                        return Err(ParseError::BadNumber(Span { lo: start, hi: k }));
                    },
                }
            } else {
                match parse_int_value(s, start, j) {
                    Some(v) => {
                        let tok = Token { kind: TokKind::Int(v), span: Span { lo: start, hi: j } };
                        toks.push(tok);
                        proof {
                            lemma_dec_value_grows(s@, start as int, j as int);
                            assert(v as int == dec_value(s@, start as int, j as int));
                            assert(spec_tokenize(s@, start as int) == tok_cons(
                                tok,
                                spec_tokenize(s@, j as int),
                            ));
                            lemma_tok_append_push(pre, tok, spec_tokenize(s@, j as int));
                        }
                        i = j;
                    },
                    None => {
                        proof {
                            lemma_dec_value_grows(s@, start as int, j as int);
                        }
                        return Err(ParseError::BadNumber(Span { lo: start, hi: j }));
                    },
                }
            }
        } else {
            let width: usize = if c == 0xC3 && i + 1 < s.len() {
                2
            } else if c == 0xE2 && s.len() - i > 2 {
                3
            } else {
                1
            };
            let kind: Option<TokKind> = if c == 43 {
                Some(TokKind::Plus)
            } else if c == 45 {
                Some(TokKind::Minus)
            } else if c == 42 {
                Some(TokKind::Star)
            } else if c == 33 {
                Some(TokKind::Bang)
            } else if c == 63 {
                Some(TokKind::Query)
            } else if c == 124 {
                Some(TokKind::Pipe)
            } else if c == 47 {
                Some(TokKind::Slash)
            } else if c == 40 {
                Some(TokKind::LParen)
            } else if c == 41 {
                Some(TokKind::RParen)
            } else if c == 0xC3 && i + 1 < s.len() {
                if s[i + 1] == 0x97 {
                    Some(TokKind::Times)
                } else if s[i + 1] == 0xB7 {
                    Some(TokKind::Divide)
                } else {
                    None
                }
            } else if c == 0xE2 && s.len() - i > 2 {
                let d: u8 = s[i + 1];
                let e: u8 = s[i + 2];
                if d == 0x8C && e == 0x88 {
                    Some(TokKind::CeilGlyph)
                } else if d == 0x8C && e == 0x8A {
                    Some(TokKind::FloorGlyph)
                } else if d == 0x8D && e == 0xB3 {
                    Some(TokKind::Iota)
                } else if d == 0x8D && e == 0xB8 {
                    Some(TokKind::WhereGlyph)
                } else if d == 0x97 && e == 0x8B {
                    Some(TokKind::Circle)
                } else if d == 0x8B && e == 0x86 {
                    Some(TokKind::Star)
                } else if d == 0x8D && e == 0x9F {
                    Some(TokKind::LogGlyph)
                } else {
                    None
                }
            } else {
                None
            };
            match kind {
                Some(k) => {
                    let tok = Token { kind: k, span: Span { lo: i, hi: i + width } };
                    toks.push(tok);
                    proof {
                        assert(spec_glyph(s@, i as int) == Ok::<(TokKind, int), int>(
                            (k, width as int),
                        ));
                        assert(spec_tokenize(s@, i as int) == tok_cons(
                            tok,
                            spec_tokenize(s@, i + width),
                        ));
                        lemma_tok_append_push(pre, tok, spec_tokenize(s@, i + width));
                    }
                    i = i + width;
                },
                None => {
                    proof {
                        assert(spec_glyph(s@, i as int) == Err::<(TokKind, int), int>(
                            width as int,
                        ));
                    }
                    return Err(ParseError::BadChar(Span { lo: i, hi: i + width }));
                },
            }
        }
    }
    proof {
        assert(spec_tokenize(s@, s@.len() as int) == Ok::<Seq<Token>, ParseError>(Seq::empty()));
        assert(toks@ + Seq::<Token>::empty() =~= toks@);
    }
    Ok(toks)
}

/// Pushing the head of the rest onto the prefix keeps the appended whole.
pub proof fn lemma_tok_append_push(pre: Seq<Token>, t: Token, rest: Result<Seq<Token>, ParseError>)
    ensures
        tok_append(pre, tok_cons(t, rest)) == tok_append(pre.push(t), rest),
{
    match rest {
        Ok(ts) => {
            assert(pre + (seq![t] + ts) =~= pre.push(t) + ts);
        },
        Err(_) => {
        },
    }
}

/// The monadic primitive a glyph denotes when it has no left operand.
pub fn monad_of(kind: TokKind) -> (r: Option<MonadOp>)
    ensures
        r == spec_monad_of(kind),
{
    match kind {
        TokKind::Plus => Some(MonadOp::Conjugate),
        TokKind::Minus => Some(MonadOp::Negate),
        TokKind::Times => Some(MonadOp::Direction),
        TokKind::Divide => Some(MonadOp::Reciprocal),
        TokKind::Star => Some(MonadOp::Exp),
        TokKind::LogGlyph => Some(MonadOp::NaturalLog),
        TokKind::Circle => Some(MonadOp::PiMultiple),
        TokKind::Bang => Some(MonadOp::Factorial),
        TokKind::Query => Some(MonadOp::Roll),
        TokKind::Pipe => Some(MonadOp::Magnitude),
        TokKind::CeilGlyph => Some(MonadOp::Ceil),
        TokKind::FloorGlyph => Some(MonadOp::Floor),
        TokKind::Iota => Some(MonadOp::GenIndex),
        TokKind::WhereGlyph => Some(MonadOp::Where),
        _ => None,
    }
}

pub open spec fn spec_monad_of(kind: TokKind) -> Option<MonadOp> {
    match kind {
        TokKind::Int(_) => None,
        TokKind::FloatLit(_) => None,
        TokKind::Plus => Some(MonadOp::Conjugate),
        TokKind::Minus => Some(MonadOp::Negate),
        TokKind::Times => Some(MonadOp::Direction),
        TokKind::Divide => Some(MonadOp::Reciprocal),
        TokKind::Star => Some(MonadOp::Exp),
        TokKind::LogGlyph => Some(MonadOp::NaturalLog),
        TokKind::Circle => Some(MonadOp::PiMultiple),
        TokKind::Bang => Some(MonadOp::Factorial),
        TokKind::Query => Some(MonadOp::Roll),
        TokKind::Pipe => Some(MonadOp::Magnitude),
        TokKind::CeilGlyph => Some(MonadOp::Ceil),
        TokKind::FloorGlyph => Some(MonadOp::Floor),
        TokKind::Iota => Some(MonadOp::GenIndex),
        TokKind::WhereGlyph => Some(MonadOp::Where),
        TokKind::Slash => None,
        TokKind::LParen => None,
        TokKind::RParen => None,
    }
}

/// The dyadic primitive a glyph denotes between two operands.
pub fn dyad_of(kind: TokKind) -> (r: Option<DyadOp>)
    ensures
        r == spec_dyad_of(kind),
{
    match kind {
        TokKind::Plus => Some(DyadOp::Add),
        TokKind::Minus => Some(DyadOp::Sub),
        TokKind::Times => Some(DyadOp::Mul),
        TokKind::Divide => Some(DyadOp::Div),
        TokKind::Star => Some(DyadOp::Power),
        TokKind::LogGlyph => Some(DyadOp::Log),
        TokKind::CeilGlyph => Some(DyadOp::Max),
        TokKind::FloorGlyph => Some(DyadOp::Min),
        TokKind::Bang => Some(DyadOp::Binomial),
        TokKind::Query => Some(DyadOp::Deal),
        TokKind::Pipe => Some(DyadOp::Residue),
        _ => None,
    }
}

pub open spec fn spec_dyad_of(kind: TokKind) -> Option<DyadOp> {
    match kind {
        TokKind::Plus => Some(DyadOp::Add),
        TokKind::Minus => Some(DyadOp::Sub),
        TokKind::Times => Some(DyadOp::Mul),
        TokKind::Divide => Some(DyadOp::Div),
        TokKind::Star => Some(DyadOp::Power),
        TokKind::LogGlyph => Some(DyadOp::Log),
        TokKind::CeilGlyph => Some(DyadOp::Max),
        TokKind::FloorGlyph => Some(DyadOp::Min),
        TokKind::Bang => Some(DyadOp::Binomial),
        TokKind::Query => Some(DyadOp::Deal),
        TokKind::Pipe => Some(DyadOp::Residue),
        _ => None,
    }
}

/// The reduction operator a glyph denotes before the stroke, where the
/// language has one (the rounding glyphs become the monadic extremes
/// instead).
pub fn reduce_of(kind: TokKind) -> (r: Option<Operation>)
    ensures
        r == spec_reduce_of(kind),
{
    match kind {
        TokKind::Plus => Some(Operation::Add),
        TokKind::Minus => Some(Operation::Subtract),
        TokKind::Times => Some(Operation::Multiply),
        TokKind::Divide => Some(Operation::Divide),
        _ => None,
    }
}

pub open spec fn spec_reduce_of(kind: TokKind) -> Option<Operation> {
    match kind {
        TokKind::Plus => Some(Operation::Add),
        TokKind::Minus => Some(Operation::Subtract),
        TokKind::Times => Some(Operation::Multiply),
        TokKind::Divide => Some(Operation::Divide),
        _ => None,
    }
}

/// The token is a numeric literal.
pub open spec fn spec_is_literal(k: TokKind) -> bool {
    k is Int || k is FloatLit
}

/// The leaf a literal token denotes. (Only applied to literal tokens; the
/// last arm keeps the function total.)
pub open spec fn spec_leaf(t: Token) -> ExprModel {
    match t.kind {
        TokKind::Int(v) => ExprModel::ScalarInteger { span: t.span, value: v },
        TokKind::FloatLit(b) => ExprModel::ScalarFloat { span: t.span, bits: b },
        _ => ExprModel::ScalarInteger { span: t.span, value: 0 },
    }
}

/// The number of consecutive literal tokens beginning at `j`.
pub open spec fn literal_run_len(toks: Seq<Token>, j: int) -> nat
    decreases toks.len() - j,
{
    if 0 <= j < toks.len() && spec_is_literal(toks[j].kind) {
        1 + literal_run_len(toks, j + 1)
    } else {
        0
    }
}

/// The run length is the distance to the first non-literal.
pub proof fn lemma_literal_run_len_exact(toks: Seq<Token>, a: int, b: int)
    requires
        0 <= a <= b <= toks.len(),
        forall|t: int| a <= t < b ==> spec_is_literal((#[trigger] toks[t]).kind),
        b == toks.len() || !spec_is_literal(toks[b].kind),
    ensures
        literal_run_len(toks, a) == b - a,
    decreases b - a,
{
    if a < b {
        lemma_literal_run_len_exact(toks, a + 1, b);
    }
}

/// The leaves of the literal tokens `toks[a..b]`, in order.
pub open spec fn literal_leaves(toks: Seq<Token>, a: int, b: int) -> Seq<ExprModel> {
    Seq::new((b - a) as nat, |t: int| spec_leaf(toks[a + t]))
}

/// The model of the parser: the expression beginning at token `i` together
/// with the index of the first token it does not consume.
pub open spec fn spec_parse_expr(toks: Seq<Token>, i: int) -> Result<(ExprModel, int), ParseError>
    decreases toks.len() - i, 2int,
{
    if i < 0 || i >= toks.len() {
        Err(ParseError::UnexpectedEnd)
    } else {
        let t = toks[i];
        match t.kind {
            TokKind::Int(_) => spec_parse_after_operand(toks, i),
            TokKind::FloatLit(_) => spec_parse_after_operand(toks, i),
            TokKind::LParen => spec_parse_after_operand(toks, i),
            TokKind::Slash => Err(ParseError::UnexpectedToken(t.span)),
            TokKind::RParen => Err(ParseError::UnexpectedToken(t.span)),
            _ => {
                if i + 1 < toks.len() && toks[i + 1].kind is Slash {
                    let full = Span { lo: t.span.lo, hi: toks[i + 1].span.hi };
                    match spec_reduce_of(t.kind) {
                        Some(op) => match spec_parse_expr(toks, i + 2) {
                            Ok(p) => Ok(
                                (ExprModel::Reduce { span: full, op, term: Box::new(p.0) }, p.1),
                            ),
                            Err(e) => Err(e),
                        },
                        None => if t.kind is CeilGlyph || t.kind is FloorGlyph {
                            let ext = if t.kind is CeilGlyph {
                                MonadOp::MonadicMax
                            } else {
                                MonadOp::MonadicMin
                            };
                            match spec_parse_expr(toks, i + 2) {
                                Ok(p) => Ok(
                                    (
                                        ExprModel::Monadic {
                                            span: full,
                                            op: ext,
                                            arg: Box::new(p.0),
                                        },
                                        p.1,
                                    ),
                                ),
                                Err(e) => Err(e),
                            }
                        } else {
                            Err(ParseError::UnexpectedToken(toks[i + 1].span))
                        },
                    }
                } else {
                    match spec_monad_of(t.kind) {
                        Some(op) => match spec_parse_expr(toks, i + 1) {
                            Ok(p) => Ok(
                                (ExprModel::Monadic { span: t.span, op, arg: Box::new(p.0) }, p.1),
                            ),
                            Err(e) => Err(e),
                        },
                        None => Err(ParseError::UnexpectedToken(t.span)),
                    }
                }
            },
        }
    }
}

/// An operand followed, possibly, by a dyadic glyph and the rest of the
/// line.
pub open spec fn spec_parse_after_operand(toks: Seq<Token>, i: int) -> Result<
    (ExprModel, int),
    ParseError,
>
    decreases toks.len() - i, 1int,
{
    if i < 0 || i >= toks.len() {
        Err(ParseError::UnexpectedEnd)
    } else {
        match spec_parse_operand(toks, i) {
            Ok(p) => {
                let j = p.1;
                if j >= toks.len() {
                    Ok(p)
                } else if toks[j].kind is RParen {
                    Ok(p)
                } else {
                    match spec_dyad_of(toks[j].kind) {
                        Some(op) => {
                            // The clamps only serve the termination check:
                            // the operand parser always advances and never
                            // passes the end of the line.
                            let jj = if j < i + 1 {
                                i + 1
                            } else {
                                j
                            };
                            let next = vstd::math::min(jj + 1, toks.len() as int);
                            match spec_parse_expr(toks, next) {
                                Ok(q) => Ok(
                                    (
                                        ExprModel::Dyadic {
                                            span: toks[j].span,
                                            op,
                                            lhs: Box::new(p.0),
                                            rhs: Box::new(q.0),
                                        },
                                        q.1,
                                    ),
                                ),
                                Err(e) => Err(e),
                            }
                        },
                        None => Err(ParseError::UnexpectedToken(toks[j].span)),
                    }
                }
            },
            Err(e) => Err(e),
        }
    }
}

/// One operand: a run of juxtaposed numeric literals (one is a scalar,
/// several are a vector) or a parenthesized expression.
pub open spec fn spec_parse_operand(toks: Seq<Token>, i: int) -> Result<
    (ExprModel, int),
    ParseError,
>
    decreases toks.len() - i, 0int,
{
    if i < 0 || i >= toks.len() {
        Err(ParseError::UnexpectedEnd)
    } else {
        let t = toks[i];
        match t.kind {
            TokKind::LParen => match spec_parse_expr(toks, i + 1) {
                Ok(p) => if 0 <= p.1 < toks.len() && toks[p.1].kind is RParen {
                    Ok((p.0, p.1 + 1))
                } else {
                    Err(ParseError::MissingParen(t.span))
                },
                Err(e) => Err(e),
            },
            _ => {
                if spec_is_literal(t.kind) {
                    let j = i + literal_run_len(toks, i);
                    if j == i + 1 {
                        Ok((spec_leaf(t), j))
                    } else {
                        Ok(
                            (
                                ExprModel::Vector {
                                    span: Span { lo: t.span.lo, hi: toks[j - 1].span.hi },
                                    elements: literal_leaves(toks, i, j),
                                },
                                j,
                            ),
                        )
                    }
                } else {
                    Err(ParseError::UnexpectedToken(t.span))
                }
            },
        }
    }
}

/// The executable result is exactly the model's, expression by view.
pub open spec fn parse_result_matches(
    sp: Result<(ExprModel, int), ParseError>,
    r: Result<(Expr, usize), ParseError>,
) -> bool {
    match r {
        Ok(p) => sp == Ok::<(ExprModel, int), ParseError>((p.0@, p.1 as int)),
        Err(e) => sp == Err::<(ExprModel, int), ParseError>(e),
    }
}

/// Parses the expression beginning at token `i`, returning it with the
/// index of the first token it did not consume, exactly as the model says.
pub fn parse_expr(toks: &Vec<Token>, i: usize) -> (res: Result<(Expr, usize), ParseError>)
    ensures
        parse_result_matches(spec_parse_expr(toks@, i as int), res),
        res matches Ok(p) ==> i < p.1 <= toks@.len(),
    decreases toks@.len() - i, 2int,
{
    if i >= toks.len() {
        return Err(ParseError::UnexpectedEnd);
    }
    let t: Token = toks[i];
    match t.kind {
        TokKind::Int(_) => parse_after_operand(toks, i),
        TokKind::FloatLit(_) => parse_after_operand(toks, i),
        TokKind::LParen => parse_after_operand(toks, i),
        TokKind::Slash => Err(ParseError::UnexpectedToken(t.span)),
        TokKind::RParen => Err(ParseError::UnexpectedToken(t.span)),
        _ => {
            // A glyph with no left operand: a reduction, a monadic extreme,
            // or a monadic primitive.
            let followed_by_slash: bool = i + 1 < toks.len() && matches!(
                toks[i + 1].kind,
                TokKind::Slash,
            );
            if followed_by_slash {
                let full = Span { lo: t.span.lo, hi: toks[i + 1].span.hi };
                match reduce_of(t.kind) {
                    Some(op) => {
                        let (term, j) = match parse_expr(toks, i + 2) {
                            Ok(p) => p,
                            Err(e) => {
                                return Err(e);
                            },
                        };
                        return Ok((Expr::Reduce { span: full, op, term: Box::new(term) }, j));
                    },
                    None => {
                        let ext: Option<MonadOp> = match t.kind {
                            TokKind::CeilGlyph => Some(MonadOp::MonadicMax),
                            TokKind::FloorGlyph => Some(MonadOp::MonadicMin),
                            _ => None,
                        };
                        match ext {
                            Some(op) => {
                                let (arg, j) = match parse_expr(toks, i + 2) {
                                    Ok(p) => p,
                                    Err(e) => {
                                        return Err(e);
                                    },
                                };
                                return Ok(
                                    (Expr::Monadic { span: full, op, arg: Box::new(arg) }, j),
                                );
                            },
                            None => {
                                return Err(ParseError::UnexpectedToken(toks[i + 1].span));
                            },
                        }
                    },
                }
            }
            match monad_of(t.kind) {
                Some(op) => {
                    let (arg, j) = match parse_expr(toks, i + 1) {
                        Ok(p) => p,
                        Err(e) => {
                            return Err(e);
                        },
                    };
                    Ok((Expr::Monadic { span: t.span, op, arg: Box::new(arg) }, j))
                },
                None => Err(ParseError::UnexpectedToken(t.span)),
            }
        },
    }
}

/// Parses an operand at token `i`, then binds a following glyph as a dyadic
/// primitive whose right side is the rest of the line.
fn parse_after_operand(toks: &Vec<Token>, i: usize) -> (res: Result<(Expr, usize), ParseError>)
    requires
        i < toks@.len(),
    ensures
        parse_result_matches(spec_parse_after_operand(toks@, i as int), res),
        res matches Ok(p) ==> i < p.1 <= toks@.len(),
    decreases toks@.len() - i, 1int,
{
    let (lhs, j) = match parse_operand(toks, i) {
        Ok(p) => p,
        Err(e) => {
            return Err(e);
        },
    };
    if j >= toks.len() {
        return Ok((lhs, j));
    }
    let t: Token = toks[j];
    if matches!(t.kind, TokKind::RParen) {
        return Ok((lhs, j));
    }
    match dyad_of(t.kind) {
        Some(op) => {
            proof {
                assert(vstd::math::min(j + 1, toks@.len() as int) == j + 1);
            }
            let (rhs, k) = match parse_expr(toks, j + 1) {
                Ok(p) => p,
                Err(e) => {
                    return Err(e);
                },
            };
            Ok((Expr::Dyadic { span: t.span, op, lhs: Box::new(lhs), rhs: Box::new(rhs) }, k))
        },
        None => Err(ParseError::UnexpectedToken(t.span)),
    }
}

/// Parses one operand: a run of juxtaposed numeric literals (one is a
/// scalar, several are a vector) or a parenthesized expression.
#[verifier::loop_isolation(false)]
fn parse_operand(toks: &Vec<Token>, i: usize) -> (res: Result<(Expr, usize), ParseError>)
    requires
        i < toks@.len(),
    ensures
        parse_result_matches(spec_parse_operand(toks@, i as int), res),
        res matches Ok(p) ==> i < p.1 <= toks@.len(),
    decreases toks@.len() - i, 0int,
{
    let n: usize = toks.len();
    let t: Token = toks[i];
    match t.kind {
        TokKind::LParen => {
            let (inner, j) = match parse_expr(toks, i + 1) {
                Ok(p) => p,
                Err(e) => {
                    return Err(e);
                },
            };
            if j < n && matches!(toks[j].kind, TokKind::RParen) {
                Ok((inner, j + 1))
            } else {
                Err(ParseError::MissingParen(t.span))
            }
        },
        _ => {
            if !matches!(t.kind, TokKind::Int(_) | TokKind::FloatLit(_)) {
                return Err(ParseError::UnexpectedToken(t.span));
            }
            // A run of numeric literals.
            let mut elements: Vec<Expr> = Vec::new();
            let mut j: usize = i;
            while j < toks.len() && matches!(toks[j].kind, TokKind::Int(_) | TokKind::FloatLit(_))
                invariant
                    i <= j <= toks@.len(),
                    elements@.len() == j - i,
                    forall|t: int| i <= t < j ==> spec_is_literal((#[trigger] toks@[t]).kind),
                    forall|t: int|
                        0 <= t < j - i ==> crate::ast::expr_view(#[trigger] elements@[t])
                            == spec_leaf(toks@[i + t]),
                decreases toks@.len() - j,
            {
                let tok: Token = toks[j];
                match tok.kind {
                    TokKind::Int(v) => elements.push(
                        Expr::ScalarInteger { span: tok.span, value: v },
                    ),
                    TokKind::FloatLit(bits) => elements.push(
                        Expr::ScalarFloat { span: tok.span, bits },
                    ),
                    _ => {
                        return Err(ParseError::UnexpectedToken(tok.span));
                    },
                }
                j = j + 1;
            }
            proof {
                lemma_literal_run_len_exact(toks@, i as int, j as int);
                assert(j as int == i + literal_run_len(toks@, i as int));
            }
            if elements.len() == 1 {
                let mut elements = elements;
                match elements.pop() {
                    Some(e) => {
                        proof {
                            assert(crate::ast::expr_view(e) == spec_leaf(toks@[i as int]));
                        }
                        Ok((e, j))
                    },
                    None => Err(ParseError::UnexpectedToken(t.span)),
                }
            } else {
                let lo: usize = t.span.lo;
                let hi: usize = toks[j - 1].span.hi;
                let out = Expr::Vector { span: Span { lo, hi }, elements };
                proof {
                    assert(crate::ast::exprs_view(out->Vector_elements@) =~= literal_leaves(
                        toks@,
                        i as int,
                        j as int,
                    ));
                }
                Ok((out, j))
            }
        },
    }
}

/// The model of parsing a whole line: its tokens must form one expression
/// with nothing left over.
pub open spec fn spec_parse_line(s: Seq<u8>) -> Result<ExprModel, ParseError> {
    match spec_tokenize(s, 0) {
        Ok(toks) => if toks.len() == 0 {
            Err(ParseError::UnexpectedEnd)
        } else {
            match spec_parse_expr(toks, 0) {
                Ok(p) => if p.1 == toks.len() {
                    Ok(p.0)
                } else {
                    Err(ParseError::UnexpectedToken(toks[p.1].span))
                },
                Err(e) => Err(e),
            }
        },
        Err(e) => Err(e),
    }
}

/// Parses a whole source line into an expression tree, exactly as the
/// model `spec_parse_line` describes.
pub fn parse_line(s: &[u8]) -> (res: Result<Expr, ParseError>)
    ensures
        match res {
            Ok(e) => spec_parse_line(s@) == Ok::<ExprModel, ParseError>(e@),
            Err(pe) => spec_parse_line(s@) == Err::<ExprModel, ParseError>(pe),
        },
{
    let toks: Vec<Token> = match tokenize(s) {
        Ok(t) => t,
        Err(e) => {
            return Err(e);
        },
    };
    if toks.len() == 0 {
        return Err(ParseError::UnexpectedEnd);
    }
    let (e, j) = match parse_expr(&toks, 0) {
        Ok(p) => p,
        Err(e) => {
            return Err(e);
        },
    };
    if j != toks.len() {
        return Err(ParseError::UnexpectedToken(toks[j].span));
    }
    Ok(e)
}

} // verus!
