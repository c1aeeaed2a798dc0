//! An evaluator for a small array-oriented expression language in the APL
//! tradition: one-line expressions over integer and double scalars and
//! rank-1 vectors, with monadic and dyadic primitives, scalar extension,
//! checked integer arithmetic and reductions.
//!
//! The evaluator and its value model are specified and verified; the lexical
//! grammar is the library's own, and the floating-point arithmetic is done
//! bit-exactly by outside libraries behind the named operations of `fbits`.

use vstd::prelude::*;

pub mod ast;
pub mod eval;
pub mod fbits;
pub mod laws;
pub mod parser;
pub mod render;
pub mod scalar_ops;
pub mod val;

use crate::ast::{no_random, Expr};
use crate::parser::ParseError;
use vstd::string::StringSliceAdditionalSpecFns;

verus! {

/// A byte of the ASCII whitespace that separates rendered scalars.
pub open spec fn is_ws(b: u8) -> bool {
    b == 32 || b == 9
}

/// The index of the first non-whitespace byte at or after `j`.
pub open spec fn word_start(s: Seq<u8>, j: int) -> int
    decreases s.len() - j,
{
    if 0 <= j < s.len() && is_ws(s[j]) {
        word_start(s, j + 1)
    } else {
        j
    }
}

/// The number of consecutive non-whitespace bytes beginning at `j`.
pub open spec fn word_len(s: Seq<u8>, j: int) -> nat
    decreases s.len() - j,
{
    if 0 <= j < s.len() && !is_ws(s[j]) {
        1 + word_len(s, j + 1)
    } else {
        0
    }
}

/// The scan base after consuming the word at `a`: past its end, always
/// advancing, never past the end of the line. (The inner clamps only serve
/// the termination and stability of the scan; a word is never empty.)
pub open spec fn next_scan_base(s: Seq<u8>, j: int) -> int {
    let a = word_start(s, j);
    vstd::math::min(vstd::math::max(a + word_len(s, a), j + 1), s.len() as int)
}

/// The number of whitespace-separated words at or after byte `j`.
pub open spec fn spec_num_words(s: Seq<u8>, j: int) -> nat
    decreases s.len() - j,
{
    let a = word_start(s, j);
    if a < 0 || a >= s.len() || j >= s.len() {
        0
    } else {
        1 + spec_num_words(s, next_scan_base(s, j))
    }
}

/// The bounds of the word with index `i`, scanning from byte `j`.
pub open spec fn spec_word_bounds(s: Seq<u8>, j: int, i: int) -> (int, int)
    decreases i,
{
    let a = word_start(s, j);
    if i <= 0 {
        (a, a + word_len(s, a))
    } else {
        spec_word_bounds(s, next_scan_base(s, j), i - 1)
    }
}

/// The bytes of the word with index `i`, scanning from byte `j`.
pub open spec fn spec_word(s: Seq<u8>, j: int, i: int) -> Seq<u8> {
    let b = spec_word_bounds(s, j, i);
    s.subrange(b.0, b.1)
}

/// The first non-whitespace byte is at or after the scan base and within
/// the line's bounds.
proof fn lemma_word_start_bounds(s: Seq<u8>, j: int)
    requires
        0 <= j <= s.len(),
    ensures
        j <= word_start(s, j) <= s.len(),
        word_start(s, j) < s.len() ==> !is_ws(s[word_start(s, j)]),
    decreases s.len() - j,
{
    if j < s.len() && is_ws(s[j]) {
        lemma_word_start_bounds(s, j + 1);
    }
}

/// A whitespace byte at the scan base changes neither the word count nor
/// any word's bounds.
proof fn lemma_word_scan_skips_ws(s: Seq<u8>, j: int)
    requires
        0 <= j < s.len(),
        is_ws(s[j]),
    ensures
        spec_num_words(s, j) == spec_num_words(s, j + 1),
        forall|i: int| #![trigger spec_word_bounds(s, j, i)]
            i >= 0 ==> spec_word_bounds(s, j, i) == spec_word_bounds(s, j + 1, i),
{
    let a = word_start(s, j);
    assert(a == word_start(s, j + 1));
    lemma_word_start_bounds(s, j + 1);
    // The next scan bases agree: the word starts at or after j + 1, and
    // either it exists (so its end passes j + 1) or both bases clamp to the
    // line's end.
    if a < s.len() {
        assert(word_len(s, a) >= 1);
        assert(next_scan_base(s, j) == next_scan_base(s, j + 1));
    } else {
        assert(a == s.len());
        assert(word_len(s, a) == 0);
        assert(next_scan_base(s, j) == next_scan_base(s, j + 1));
    }
    assert forall|i: int| #![trigger spec_word_bounds(s, j, i)]
        i >= 0 implies spec_word_bounds(s, j, i) == spec_word_bounds(s, j + 1, i) by {
        if i > 0 {
            assert(spec_word_bounds(s, j, i) == spec_word_bounds(s, next_scan_base(s, j), i - 1));
        }
    }
}

/// The run length is the distance to the first whitespace byte.
proof fn lemma_word_len_exact(s: Seq<u8>, a: int, b: int)
    requires
        0 <= a <= b <= s.len(),
        forall|t: int| a <= t < b ==> !is_ws(#[trigger] s[t]),
        b == s.len() || is_ws(s[b]),
    ensures
        word_len(s, a) == b - a,
    decreases b - a,
{
    if a < b {
        lemma_word_len_exact(s, a + 1, b);
    }
}

/// Parses a source line into an expression tree, exactly as the model
/// `parser::spec_parse_line` describes.
///
/// The grammar is the library's own (see `parser`); this function is the
/// `Parse(source) -> AST | ParseError` oracle of the evaluator's interface.
pub fn parse(expr: &str) -> (res: Result<Expr, ParseError>)
    ensures
        match res {
            Ok(e) => crate::parser::spec_parse_line(expr.spec_bytes()) == Ok::<
                crate::ast::ExprModel,
                ParseError,
            >(e@),
            Err(pe) => crate::parser::spec_parse_line(expr.spec_bytes()) == Err::<
                crate::ast::ExprModel,
                ParseError,
            >(pe),
        },
{
    crate::parser::parse_line(expr.as_bytes())
}

/// The rendering of a parse failure. A literal beyond the representable
/// range reports as an evaluation error on its span, as the evaluator did
/// when it read literals itself.
pub open spec fn spec_parse_error_text(src: Seq<u8>, pe: ParseError) -> Seq<char> {
    match pe {
        ParseError::UnexpectedEnd => "Parse error: unexpected end of input"@,
        ParseError::UnexpectedToken(sp) => "Parse error: unexpected token '"@
            + crate::render::spec_span_text(src, sp.lo as int, sp.hi as int) + "'"@,
        ParseError::MissingParen(sp) => "Parse error: expected a closing parenthesis for '"@
            + crate::render::spec_span_text(src, sp.lo as int, sp.hi as int) + "'"@,
        ParseError::BadChar(sp) => "Parse error: unrecognized character '"@
            + crate::render::spec_span_text(src, sp.lo as int, sp.hi as int) + "'"@,
        ParseError::BadNumber(sp) => crate::render::spec_eval_error_text(
            src,
            sp.lo as int,
            sp.hi as int,
            crate::eval::spec_message(crate::eval::ErrKind::BadNumber),
        ),
    }
}

/// Renders a parse failure as a human-readable message.
fn parse_error_text(src: &[u8], pe: ParseError) -> (r: String)
    ensures
        r@ == spec_parse_error_text(src@, pe),
{
    match pe {
        ParseError::UnexpectedEnd => {
            let mut m = String::new();
            m.append("Parse error: unexpected end of input");
            m
        },
        ParseError::UnexpectedToken(sp) => {
            let mut m = String::new();
            m.append("Parse error: unexpected token '");
            let t = crate::render::span_text(src, sp.lo, sp.hi);
            m.append(t.as_str());
            m.append("'");
            proof {
                assert(m@ =~= spec_parse_error_text(src@, pe));
            }
            m
        },
        ParseError::MissingParen(sp) => {
            let mut m = String::new();
            m.append("Parse error: expected a closing parenthesis for '");
            let t = crate::render::span_text(src, sp.lo, sp.hi);
            m.append(t.as_str());
            m.append("'");
            proof {
                assert(m@ =~= spec_parse_error_text(src@, pe));
            }
            m
        },
        ParseError::BadChar(sp) => {
            let mut m = String::new();
            m.append("Parse error: unrecognized character '");
            let t = crate::render::span_text(src, sp.lo, sp.hi);
            m.append(t.as_str());
            m.append("'");
            proof {
                assert(m@ =~= spec_parse_error_text(src@, pe));
            }
            m
        },
        ParseError::BadNumber(sp) => crate::render::eval_error_text(
            src,
            sp.lo,
            sp.hi,
            crate::eval::ErrKind::BadNumber.message(),
        ),
    }
}

/// The model of the whole surface: parse the line, evaluate the tree,
/// render the outcome — the value row as space-separated decimal scalars,
/// a failure as its message. `None` where the tree draws randomness, so
/// the outcome is not a function of the line alone.
pub open spec fn spec_evaluate(src: Seq<u8>) -> Option<Result<Seq<char>, Seq<char>>> {
    match crate::parser::spec_parse_line(src) {
        Ok(m) => if no_random(m) {
            match crate::eval::eval_spec(m) {
                Ok(vals) => Some(
                    Ok(crate::render::spec_render_vals(vals, vals.len() as int)),
                ),
                Err(e) => Some(
                    Err(
                        crate::render::spec_eval_error_text(
                            src,
                            e.0.lo as int,
                            e.0.hi as int,
                            crate::eval::spec_message(e.1),
                        ),
                    ),
                ),
            }
        } else {
            None
        },
        Err(pe) => Some(Err(spec_parse_error_text(src, pe))),
    }
}

/// Evaluates a parsed expression and renders the outcome: on an expression
/// that draws no randomness, a success is exactly the model's value row
/// rendered as space-separated decimal scalars, and a failure of the model
/// is exactly its rendered message.
fn eval_to_text(src: &[u8], ast: &Expr) -> (res: Result<String, String>)
    ensures
        no_random(ast@) ==> match crate::eval::eval_spec(ast@) {
            Ok(vals) => res matches Ok(s) && s@ == crate::render::spec_render_vals(
                vals,
                vals.len() as int,
            ),
            Err(e) => res matches Err(m) && m@ == crate::render::spec_eval_error_text(
                src@,
                e.0.lo as int,
                e.0.hi as int,
                crate::eval::spec_message(e.1),
            ),
        },
{
    match crate::eval::eval(ast) {
        Ok(vals) => Ok(crate::render::render_vals(&vals)),
        Err((span, kind)) => Err(
            crate::render::eval_error_text(src, span.lo, span.hi, kind.message()),
        ),
    }
}

/// Parses and evaluates one source line, rendering the result row as
/// space-separated decimal scalars, or the failure as a human-readable
/// message — exactly as the surface model `spec_evaluate` describes,
/// whenever the line draws no randomness.
pub fn evaluate(expr: &str) -> (res: Result<String, String>)
    ensures
        spec_evaluate(expr.spec_bytes()) matches Some(r) ==> match r {
            Ok(t) => res matches Ok(s) && s@ == t,
            Err(t) => res matches Err(m) && m@ == t,
        },
{
    let bytes: &[u8] = expr.as_bytes();
    match crate::parser::parse_line(bytes) {
        Ok(ast) => eval_to_text(bytes, &ast),
        Err(pe) => Err(parse_error_text(bytes, pe)),
    }
}

/// Parses and evaluates one source line to the raw row of scalars, with the
/// failure already rendered as a message: on a line that draws no
/// randomness, exactly the parse-then-evaluate model.
pub fn parse_and_eval_vals(expr: &str) -> (res: Result<Vec<val::Val>, String>)
    ensures
        match crate::parser::spec_parse_line(expr.spec_bytes()) {
            Ok(m) => no_random(m) ==> match crate::eval::eval_spec(m) {
                Ok(vals) => res matches Ok(v) && v@ == vals,
                Err(e) => res matches Err(msg) && msg@ == crate::render::spec_eval_error_text(
                    expr.spec_bytes(),
                    e.0.lo as int,
                    e.0.hi as int,
                    crate::eval::spec_message(e.1),
                ),
            },
            Err(pe) => res matches Err(msg) && msg@ == spec_parse_error_text(
                expr.spec_bytes(),
                pe,
            ),
        },
{
    let bytes: &[u8] = expr.as_bytes();
    match crate::parser::parse_line(bytes) {
        Ok(ast) => match crate::eval::eval(&ast) {
            Ok(vals) => Ok(vals),
            Err((span, kind)) => Err(
                crate::render::eval_error_text(bytes, span.lo, span.hi, kind.message()),
            ),
        },
        Err(pe) => Err(parse_error_text(bytes, pe)),
    }
}

/// Evaluates one source line and converts the rendered result into the
/// requested type. When the line fails, the failure's message is returned
/// unchanged; when it succeeds, either the conversion succeeds or the
/// message names the rendered row the converter refused.
pub fn evaluate_as<T: core::str::FromStr>(expr: &str) -> (res: Result<T, String>)
    ensures
        spec_evaluate(expr.spec_bytes()) matches Some(r) ==> match r {
            Ok(t) => res is Ok || (res matches Err(m) && m@ == "Couldn't parse "@ + t
                + " into the requested type"@),
            Err(t) => res matches Err(m) && m@ == t,
        },
{
    match evaluate(expr) {
        Ok(s) => match crate::fbits::parse_str_value::<T>(s.as_str()) {
            Some(v) => Ok(v),
            None => {
                let mut m = String::new();
                m.append("Couldn't parse ");
                m.append(s.as_str());
                m.append(" into the requested type");
                proof {
                    assert(m@ =~= "Couldn't parse "@ + s@ + " into the requested type"@);
                }
                Err(m)
            },
        },
        Err(e) => Err(e),
    }
}

/// Splits a line on ASCII whitespace: one string per word, each string
/// exactly the decoding of that word's bytes, in order.
#[verifier::loop_isolation(false)]
pub fn split_words(input: &str) -> (r: Vec<String>)
    ensures
        r@.len() == spec_num_words(input.spec_bytes(), 0),
        forall|k: int|
            0 <= k < r@.len() ==> (#[trigger] r@[k])@ == crate::render::lossy_chars_of(
                spec_word(input.spec_bytes(), 0, k),
            ),
{
    let bytes: &[u8] = input.as_bytes();
    let mut out: Vec<String> = Vec::new();
    let mut i: usize = 0;
    while i < bytes.len()
        invariant
            0 <= i <= bytes@.len(),
            out@.len() + spec_num_words(bytes@, i as int) == spec_num_words(bytes@, 0),
            forall|k: int|
                0 <= k < out@.len() ==> (#[trigger] out@[k])@ == crate::render::lossy_chars_of(
                    spec_word(bytes@, 0, k),
                ),
            forall|t: int| #![trigger spec_word_bounds(bytes@, i as int, t)]
                t >= 0 ==> spec_word_bounds(bytes@, i as int, t) == spec_word_bounds(
                    bytes@,
                    0,
                    out@.len() + t,
                ),
        decreases bytes@.len() - i,
    {
        let c: u8 = bytes[i];
        if c == 32 || c == 9 {
            proof {
                lemma_word_scan_skips_ws(bytes@, i as int);
                assert forall|t: int| #![trigger spec_word_bounds(bytes@, i + 1, t)]
                    t >= 0 implies spec_word_bounds(bytes@, i + 1, t) == spec_word_bounds(
                        bytes@,
                        0,
                        out@.len() + t,
                    ) by {
                    assert(spec_word_bounds(bytes@, i as int, t) == spec_word_bounds(
                        bytes@,
                        i + 1,
                        t,
                    ));
                }
            }
            i = i + 1;
        } else {
            let start: usize = i;
            let mut j: usize = i;
            while j < bytes.len() && bytes[j] != 32 && bytes[j] != 9
                invariant
                    start <= j <= bytes@.len(),
                    forall|t: int| start <= t < j ==> !is_ws(#[trigger] bytes@[t]),
                decreases bytes@.len() - j,
            {
                j = j + 1;
            }
            let mut word: Vec<u8> = Vec::new();
            let mut t: usize = start;
            while t < j
                invariant
                    start <= t <= j <= bytes@.len(),
                    word@ == bytes@.subrange(start as int, t as int),
                decreases j - t,
            {
                word.push(bytes[t]);
                proof {
                    assert(word@ =~= bytes@.subrange(start as int, (t + 1) as int));
                }
                t = t + 1;
            }
            let text = crate::render::bytes_to_text(word.as_slice());
            let ghost done = out@.len() as int;
            out.push(text);
            proof {
                assert(word_start(bytes@, start as int) == start);
                lemma_word_len_exact(bytes@, start as int, j as int);
                assert(next_scan_base(bytes@, start as int) == j);
                assert(spec_word_bounds(bytes@, start as int, 0) == (start as int, j as int));
                assert(spec_word_bounds(bytes@, 0, done) == (start as int, j as int));
                assert(spec_word(bytes@, 0, done) == bytes@.subrange(start as int, j as int));
                assert(spec_num_words(bytes@, start as int) == 1 + spec_num_words(
                    bytes@,
                    j as int,
                ));
                assert forall|u: int| #![trigger spec_word_bounds(bytes@, j as int, u)]
                    u >= 0 implies spec_word_bounds(bytes@, j as int, u) == spec_word_bounds(
                        bytes@,
                        0,
                        done + 1 + u,
                    ) by {
                    assert(spec_word_bounds(bytes@, start as int, u + 1) == spec_word_bounds(
                        bytes@,
                        j as int,
                        u,
                    ));
                }
            }
            i = j;
        }
    }
    proof {
        assert(word_start(bytes@, bytes@.len() as int) == bytes@.len());
        assert(spec_num_words(bytes@, bytes@.len() as int) == 0);
    }
    out
}

/// Splits a line on whitespace and converts each word into the requested
/// type: one element per word on success, success guaranteed on a line
/// without words, and each conversion fed exactly its word's text (see
/// `split_words`).
pub fn parse_vec<T: core::str::FromStr>(input: &str) -> (res: Result<Vec<T>, String>)
    ensures
        res matches Ok(v) ==> v@.len() == spec_num_words(input.spec_bytes(), 0),
        spec_num_words(input.spec_bytes(), 0) == 0 ==> res is Ok,
{
    let words: Vec<String> = split_words(input);
    let mut out: Vec<T> = Vec::new();
    let mut k: usize = 0;
    while k < words.len()
        invariant
            0 <= k <= words@.len(),
            out@.len() == k,
            words@.len() == spec_num_words(input.spec_bytes(), 0),
        decreases words@.len() - k,
    {
        match crate::fbits::parse_str_value::<T>(words[k].as_str()) {
            Some(v) => out.push(v),
            None => {
                let mut m = String::new();
                m.append("Failed to parse");
                return Err(m);
            },
        }
        k = k + 1;
    }
    Ok(out)
}

} // verus!
