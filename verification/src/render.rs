//! Rendering results and errors as text.
//!
//! A result row renders as its scalars separated by single spaces, integers
//! in decimal and doubles in the decimal form of the arithmetic library. An
//! evaluation error renders with the one-based line and column of its span
//! and the offending source text.

use vstd::prelude::*;

use crate::fbits::{bits_to_string, f_decimal_of};
use crate::val::Val;

verus! {

/// The decimal digit characters.
pub open spec fn dec_digit_char(d: int) -> char {
    if d == 0 {
        '0'
    } else if d == 1 {
        '1'
    } else if d == 2 {
        '2'
    } else if d == 3 {
        '3'
    } else if d == 4 {
        '4'
    } else if d == 5 {
        '5'
    } else if d == 6 {
        '6'
    } else if d == 7 {
        '7'
    } else if d == 8 {
        '8'
    } else {
        '9'
    }
}

/// The decimal rendering of a non-negative integer, without leading zeros.
pub open spec fn dec_str_nat(n: int) -> Seq<char>
    decreases n,
{
    if n <= 9 {
        seq![dec_digit_char(n)]
    } else {
        dec_str_nat(n / 10) + seq![dec_digit_char(n % 10)]
    }
}

/// The decimal rendering of an integer: a minus sign for negatives, then
/// the digits.
pub open spec fn dec_str_int(i: int) -> Seq<char> {
    if i < 0 {
        seq!['-'] + dec_str_nat(-i)
    } else {
        dec_str_nat(i)
    }
}

/// Relies on `i64`'s `Display` impl: a minus sign for negatives, then the
/// decimal digits without leading zeros.
#[verifier::external_body]
pub fn i64_to_string(i: i64) -> (r: String)
    ensures
        r@ == dec_str_int(i as int),
{
    i.to_string()
}

/// Relies on `usize`'s `Display` impl, as for `i64`.
#[verifier::external_body]
pub fn usize_to_string(i: usize) -> (r: String)
    ensures
        r@ == dec_str_int(i as int),
{
    i.to_string()
}

/// The characters that stand for the byte sequence, as lossy UTF-8
/// decoding yields them.
pub uninterp spec fn lossy_chars_of(s: Seq<u8>) -> Seq<char>;

/// Relies on `String::from_utf8_lossy`: the UTF-8 decoding of the bytes,
/// with replacement characters for invalid sequences.
#[verifier::external_body]
pub fn bytes_to_text(v: &[u8]) -> (r: String)
    ensures
        r@ == lossy_chars_of(v@),
{
    String::from_utf8_lossy(v).into_owned()
}

/// The rendering of one scalar.
pub open spec fn spec_render_val(v: Val) -> Seq<char> {
    match v {
        Val::Integer(i) => dec_str_int(i as int),
        Val::Float(b) => f_decimal_of(b),
    }
}

/// The rendering of the first `n` scalars of a row, space-separated.
pub open spec fn spec_render_vals(s: Seq<Val>, n: int) -> Seq<char>
    decreases n,
{
    if n <= 0 {
        Seq::empty()
    } else if n == 1 {
        spec_render_val(s[0])
    } else {
        spec_render_vals(s, n - 1) + seq![' '] + spec_render_val(s[n - 1])
    }
}

/// Renders one scalar.
pub fn render_val(v: &Val) -> (r: String)
    ensures
        r@ == spec_render_val(*v),
{
    match v {
        Val::Integer(i) => i64_to_string(*i),
        Val::Float(b) => bits_to_string(*b),
    }
}

/// Renders a row of scalars, space-separated.
#[verifier::loop_isolation(false)]
pub fn render_vals(vals: &Vec<Val>) -> (r: String)
    ensures
        r@ == spec_render_vals(vals@, vals@.len() as int),
{
    let mut out: String = String::new();
    let mut i: usize = 0;
    proof {
        reveal_strlit(" ");
    }
    while i < vals.len()
        invariant
            0 <= i <= vals@.len(),
            out@ == spec_render_vals(vals@, i as int),
        decreases vals@.len() - i,
    {
        if i > 0 {
            out.append(" ");
            proof {
                assert(" "@ =~= seq![' ']);
            }
        }
        let piece = render_val(&vals[i]);
        out.append(piece.as_str());
        i = i + 1;
    }
    out
}

/// The number of newline bytes among the first `n` bytes.
pub open spec fn spec_newlines_before(s: Seq<u8>, n: int) -> int
    decreases n,
{
    if n <= 0 {
        0
    } else {
        spec_newlines_before(s, n - 1) + if s[n - 1] == 10 {
            1int
        } else {
            0int
        }
    }
}

/// The number of character starts (bytes that do not continue a UTF-8
/// sequence) among the first `n` bytes that follow the last newline.
pub open spec fn spec_col_chars(s: Seq<u8>, n: int) -> int
    decreases n,
{
    if n <= 0 {
        0
    } else if s[n - 1] == 10 {
        0
    } else if s[n - 1] & 0xC0 == 0x80 {
        spec_col_chars(s, n - 1)
    } else {
        spec_col_chars(s, n - 1) + 1
    }
}

/// The count never exceeds the prefix length.
pub proof fn lemma_newlines_bound(s: Seq<u8>, n: int)
    ensures
        spec_newlines_before(s, n) <= (if n <= 0 { 0int } else { n }),
    decreases n,
{
    if n > 0 {
        lemma_newlines_bound(s, n - 1);
    }
}

/// The count never exceeds the prefix length.
pub proof fn lemma_col_chars_bound(s: Seq<u8>, n: int)
    ensures
        spec_col_chars(s, n) <= (if n <= 0 { 0int } else { n }),
    decreases n,
{
    if n > 0 {
        lemma_col_chars_bound(s, n - 1);
    }
}

/// The one-based line and character column of a byte position (saturating
/// at the largest representable count).
#[verifier::loop_isolation(false)]
pub fn line_col(src: &[u8], pos: usize) -> (r: (usize, usize))
    ensures
        ({
            let n = if pos <= src@.len() {
                pos as int
            } else {
                src@.len() as int
            };
            &&& r.0 as int == vstd::math::min(1 + spec_newlines_before(src@, n), usize::MAX as int)
            &&& r.1 as int == vstd::math::min(1 + spec_col_chars(src@, n), usize::MAX as int)
        }),
{
    let upto: usize = if pos <= src.len() {
        pos
    } else {
        src.len()
    };
    let mut line: usize = 0;
    let mut col: usize = 0;
    let mut i: usize = 0;
    while i < upto
        invariant
            0 <= i <= upto <= src@.len(),
            line <= i,
            col <= i,
            line == spec_newlines_before(src@, i as int),
            col == spec_col_chars(src@, i as int),
        decreases upto - i,
    {
        let c: u8 = src[i];
        if c == 10 {
            line = line + 1;
            col = 0;
        } else if c & 0xC0 == 0x80 {
            // A continuation byte: not a new character.
        } else {
            col = col + 1;
        }
        i = i + 1;
    }
    proof {
        lemma_newlines_bound(src@, upto as int);
        lemma_col_chars_bound(src@, upto as int);
    }
    let lr: usize = if line < usize::MAX {
        line + 1
    } else {
        line
    };
    let cr: usize = if col < usize::MAX {
        col + 1
    } else {
        col
    };
    (lr, cr)
}

/// A span's lower bound clamped to the line.
pub open spec fn clamp_lo(len: int, lo: int) -> int {
    if lo <= len {
        lo
    } else {
        len
    }
}

/// A span's upper bound clamped to the line and to its lower bound.
pub open spec fn clamp_hi(len: int, a: int, hi: int) -> int {
    if a <= hi <= len {
        hi
    } else if hi < a {
        a
    } else {
        len
    }
}

/// The text a span denotes: the lossy decoding of the span's bytes, the
/// bounds clamped to the line.
pub open spec fn spec_span_text(src: Seq<u8>, lo: int, hi: int) -> Seq<char> {
    let a = clamp_lo(src.len() as int, lo);
    let b = clamp_hi(src.len() as int, a, hi);
    lossy_chars_of(src.subrange(a, b))
}

/// The source text under a span, clamped to the line.
#[verifier::loop_isolation(false)]
pub fn span_text(src: &[u8], lo: usize, hi: usize) -> (r: String)
    ensures
        r@ == spec_span_text(src@, lo as int, hi as int),
{
    let a: usize = if lo <= src.len() {
        lo
    } else {
        src.len()
    };
    let b: usize = if hi >= a && hi <= src.len() {
        hi
    } else if hi < a {
        a
    } else {
        src.len()
    };
    let mut piece: Vec<u8> = Vec::new();
    let mut i: usize = a;
    while i < b
        invariant
            a <= i <= b <= src@.len(),
            piece@ == src@.subrange(a as int, i as int),
        decreases b - i,
    {
        piece.push(src[i]);
        proof {
            assert(piece@ =~= src@.subrange(a as int, (i + 1) as int));
        }
        i = i + 1;
    }
    bytes_to_text(piece.as_slice())
}

/// The interface's rendering of an evaluation failure: the one-based line
/// and column of the span's start, the offending text, and the message.
pub open spec fn spec_eval_error_text(src: Seq<u8>, lo: int, hi: int, msg: Seq<char>) -> Seq<
    char,
> {
    let n = if lo <= src.len() {
        lo
    } else {
        src.len() as int
    };
    let line = vstd::math::min(1 + spec_newlines_before(src, n), usize::MAX as int);
    let col = vstd::math::min(1 + spec_col_chars(src, n), usize::MAX as int);
    "Evaluation error at line "@ + dec_str_int(line) + " column "@ + dec_str_int(col) + ": '"@
        + spec_span_text(src, lo, hi) + "', "@ + msg + "."@
}

/// Renders an evaluation failure as the interface's message: the one-based
/// line and column of the span, the offending text, and the message.
pub fn eval_error_text(src: &[u8], lo: usize, hi: usize, msg: &str) -> (r: String)
    ensures
        r@ == spec_eval_error_text(src@, lo as int, hi as int, msg@),
{
    let (line, col) = line_col(src, lo);
    let mut out: String = String::new();
    out.append("Evaluation error at line ");
    let ls = usize_to_string(line);
    out.append(ls.as_str());
    out.append(" column ");
    let cs = usize_to_string(col);
    out.append(cs.as_str());
    out.append(": '");
    let ts = span_text(src, lo, hi);
    out.append(ts.as_str());
    out.append("', ");
    out.append(msg);
    out.append(".");
    proof {
        assert(out@ =~= spec_eval_error_text(src@, lo as int, hi as int, msg@));
    }
    out
}

} // verus!
