//! Behavior of the primitives through the public interface.

use apiel::ast::{DyadOp, Expr, MonadOp, Span};
use apiel::eval::{check_lengths, eval};
use apiel::val::{Log, Val};
use apiel::{evaluate, parse_and_eval_vals};

fn val_as_f64(v: &Val) -> f64 {
    match v {
        Val::Float(bits) => f64::from_bits(*bits),
        Val::Integer(i) => *i as f64,
    }
}

#[test]
fn iota_lists_the_first_integers() {
    assert_eq!(evaluate("⍳10").unwrap(), "1 2 3 4 5 6 7 8 9 10");
    assert_eq!(evaluate("⍳1").unwrap(), "1");
    assert_eq!(evaluate("⍳0").unwrap(), "");
}

#[test]
fn scalar_extension_broadcasts() {
    assert_eq!(evaluate("2 + 1 2 3").unwrap(), "3 4 5");
    assert_eq!(evaluate("1 2 3 + 2").unwrap(), "3 4 5");
    assert_eq!(evaluate("10 20 × 3").unwrap(), "30 60");
}

#[test]
fn division_always_widens() {
    assert_eq!(evaluate("1÷4").unwrap(), "0.25");
    assert_eq!(evaluate("÷4").unwrap(), "0.25");
    // Division by exact zero follows IEEE-754.
    let vals = parse_and_eval_vals("1÷0").unwrap();
    assert_eq!(vals.len(), 1);
    assert_eq!(val_as_f64(&vals[0]), f64::INFINITY);
}

#[test]
fn promotion_on_mixed_operands() {
    assert_eq!(evaluate("1+0.5").unwrap(), "1.5");
    assert_eq!(evaluate("0.5+1").unwrap(), "1.5");
    assert_eq!(evaluate("2.5×2").unwrap(), "5");
    let vals = parse_and_eval_vals("1+0.5").unwrap();
    assert!(matches!(vals[0], Val::Float(_)));
}

#[test]
fn subtraction_and_negation() {
    assert_eq!(evaluate("3-5").unwrap(), "-2");
    assert_eq!(evaluate("-5").unwrap(), "-5");
    assert_eq!(evaluate("1.5-0.25").unwrap(), "1.25");
}

#[test]
fn direction_gives_the_sign() {
    assert_eq!(evaluate("×-5").unwrap(), "-1");
    assert_eq!(evaluate("×0").unwrap(), "0");
    assert_eq!(evaluate("×7").unwrap(), "1");
    assert_eq!(evaluate("×3.5").unwrap(), "1");
    assert_eq!(evaluate("×0.0").unwrap(), "0");
}

#[test]
fn magnitude_keeps_the_tag() {
    assert_eq!(evaluate("|-3").unwrap(), "3");
    assert_eq!(evaluate("|3").unwrap(), "3");
    assert_eq!(evaluate("|-2.5").unwrap(), "2.5");
    let vals = parse_and_eval_vals("|-2.5").unwrap();
    assert!(matches!(vals[0], Val::Float(_)));
}

#[test]
fn floor_and_ceil_round_doubles() {
    assert_eq!(evaluate("⌊2.7").unwrap(), "2");
    assert_eq!(evaluate("⌈2.3").unwrap(), "3");
    assert_eq!(evaluate("⌊-2.5").unwrap(), "-3");
    assert_eq!(evaluate("⌈-2.5").unwrap(), "-2");
    assert_eq!(evaluate("⌊7").unwrap(), "7");
    assert_eq!(evaluate("⌈7").unwrap(), "7");
}

#[test]
fn dyadic_extremes_select() {
    assert_eq!(evaluate("3⌊5").unwrap(), "3");
    assert_eq!(evaluate("3⌈5").unwrap(), "5");
    assert_eq!(evaluate("2 8 ⌈ 5 1").unwrap(), "5 8");
    assert_eq!(evaluate("2 8 ⌊ 5 1").unwrap(), "2 1");
    // Selection keeps the operand unchanged, tag included.
    let vals = parse_and_eval_vals("1⌊1.5").unwrap();
    assert!(matches!(vals[0], Val::Integer(1)));
}

#[test]
fn monadic_extremes_reduce_to_one() {
    assert_eq!(evaluate("⌈/2 9 4").unwrap(), "9");
    assert_eq!(evaluate("⌊/2 9 4").unwrap(), "2");
    assert_eq!(evaluate("⌈/7").unwrap(), "7");
}

#[test]
fn reductions_fold_left() {
    assert_eq!(evaluate("+/1 2 3").unwrap(), "6");
    assert_eq!(evaluate("-/10 1 2").unwrap(), "7");
    assert_eq!(evaluate("×/2 3 4").unwrap(), "24");
    assert_eq!(evaluate("÷/1 2 4").unwrap(), "0.125");
}

#[test]
fn where_repeats_positions() {
    assert_eq!(evaluate("⍸0 1 2 0").unwrap(), "2 3 3");
    assert_eq!(evaluate("⍸3").unwrap(), "1 1 1");
    assert_eq!(evaluate("⍸0 0").unwrap(), "");
    assert_eq!(evaluate("⍸0.5 2.5").unwrap(), "2 2");
    assert_eq!(evaluate("⍸-1 1").unwrap(), "");
}

#[test]
fn conjugate_is_identity_on_reals() {
    assert_eq!(evaluate("+5").unwrap(), "5");
    assert_eq!(evaluate("+1.5").unwrap(), "1.5");
}

#[test]
fn power_resolves_by_exponent_kind() {
    assert_eq!(evaluate("2⋆10").unwrap(), "1024");
    assert_eq!(evaluate("2*10").unwrap(), "1024");
    // An integral double exponent converts exactly, keeping the integer tag.
    assert_eq!(evaluate("2⋆3.0").unwrap(), "8");
    let vals = parse_and_eval_vals("2⋆3.0").unwrap();
    assert!(matches!(vals[0], Val::Integer(8)));
    // A fractional or negative exponent goes the floating-point way.
    let vals = parse_and_eval_vals("2⋆0.5").unwrap();
    assert!((val_as_f64(&vals[0]) - 2.0_f64.sqrt()).abs() < 1e-12);
    let vals = parse_and_eval_vals("2⋆-1").unwrap();
    assert!((val_as_f64(&vals[0]) - 0.5).abs() < 1e-15);
}

#[test]
fn exponential_and_logarithms() {
    assert_eq!(evaluate("⋆0").unwrap(), "1");
    let vals = parse_and_eval_vals("⋆1").unwrap();
    assert!((val_as_f64(&vals[0]) - std::f64::consts::E).abs() < 1e-12);
    assert_eq!(evaluate("⍟1").unwrap(), "0");
    let vals = parse_and_eval_vals("2⍟8").unwrap();
    assert!((val_as_f64(&vals[0]) - 3.0).abs() < 1e-12);
    let vals = parse_and_eval_vals("⍟2.718281828459045").unwrap();
    assert!((val_as_f64(&vals[0]) - 1.0).abs() < 1e-12);
}

#[test]
fn pi_multiple_scales() {
    assert_eq!(evaluate("○0").unwrap(), "0");
    let vals = parse_and_eval_vals("○1").unwrap();
    assert!((val_as_f64(&vals[0]) - std::f64::consts::PI).abs() < 1e-15);
    let vals = parse_and_eval_vals("○2").unwrap();
    assert!((val_as_f64(&vals[0]) - 2.0 * std::f64::consts::PI).abs() < 1e-15);
}

#[test]
fn residue_is_the_left_remainder() {
    assert_eq!(evaluate("5|3").unwrap(), "2");
    assert_eq!(evaluate("5.5|2").unwrap(), "1.5");
    let vals = parse_and_eval_vals("5.5|2").unwrap();
    assert!(matches!(vals[0], Val::Float(_)));
}

#[test]
fn binomial_is_exact() {
    assert_eq!(evaluate("5!2").unwrap(), "10");
    assert_eq!(evaluate("5!0").unwrap(), "1");
    assert_eq!(evaluate("2!5").unwrap(), "0");
    assert_eq!(evaluate("5.0!2.0").unwrap(), "10");
    let vals = parse_and_eval_vals("5!2").unwrap();
    assert!(matches!(vals[0], Val::Float(_)));
}

#[test]
fn float_literals_round_trip() {
    assert_eq!(evaluate("0.125").unwrap(), "0.125");
    assert_eq!(evaluate("1.5 2.5").unwrap(), "1.5 2.5");
}

#[test]
fn parenthesized_groups() {
    assert_eq!(evaluate("(2+2)×3").unwrap(), "12");
    assert_eq!(evaluate("(+/⍳10)÷10").unwrap(), "5.5");
    assert_eq!(evaluate("((2))").unwrap(), "2");
}

#[test]
fn mixed_rows_render_each_tag() {
    assert_eq!(evaluate("0+1 2.5").unwrap(), "1 2.5");
    assert_eq!(evaluate("2.").unwrap_err().contains("Parse error"), true);
}

#[test]
fn right_to_left_evaluation() {
    // With no precedence, 2×3+1 is 2×(3+1).
    assert_eq!(evaluate("2×3+1").unwrap(), "8");
}

#[test]
fn eval_accepts_a_built_tree() {
    // The evaluator works on trees directly, independent of the parser.
    let e = Expr::Monadic {
        span: Span { lo: 0, hi: 1 },
        op: MonadOp::GenIndex,
        arg: Box::new(Expr::ScalarInteger {
            span: Span { lo: 1, hi: 2 },
            value: 4,
        }),
    };
    let out = eval(&e).unwrap();
    assert_eq!(
        out,
        vec![
            Val::Integer(1),
            Val::Integer(2),
            Val::Integer(3),
            Val::Integer(4)
        ]
    );
}

#[test]
fn parse_builds_the_expected_tree() {
    let e = apiel::parse("2+3").unwrap();
    match e {
        Expr::Dyadic { op, lhs, rhs, span } => {
            assert_eq!(op, DyadOp::Add);
            assert_eq!(span.lo, 1);
            assert_eq!(span.hi, 2);
            assert!(matches!(*lhs, Expr::ScalarInteger { value: 2, .. }));
            assert!(matches!(*rhs, Expr::ScalarInteger { value: 3, .. }));
        }
        _ => panic!("2+3 must parse as a dyadic addition"),
    }
    assert!(apiel::parse("2+").is_err());
}

#[test]
fn check_lengths_admits_conformable_shapes() {
    let a = vec![Val::Integer(1), Val::Integer(2)];
    let b = vec![Val::Integer(3), Val::Integer(4)];
    let s = vec![Val::Integer(9)];
    let t = vec![Val::Integer(1), Val::Integer(2), Val::Integer(3)];
    assert!(check_lengths(&a, &b));
    assert!(check_lengths(&s, &t));
    assert!(check_lengths(&t, &s));
    assert!(!check_lengths(&a, &t));
}

#[test]
fn log_trait_widens_to_double() {
    let value = Val::Integer(8);
    let base = Val::Integer(2);
    let r = value.log(&base).unwrap();
    assert!((val_as_f64(&r) - 3.0).abs() < 1e-12);
    assert!(matches!(r, Val::Float(_)));
}

#[test]
fn values_compare_after_promotion() {
    // The original equality of the value model: mixed tags promote.
    assert_eq!(Val::Integer(1), Val::Float(1.0_f64.to_bits()));
    assert_ne!(Val::Integer(1), Val::Float(1.5_f64.to_bits()));
    assert!(Val::Integer(1) < Val::Float(1.5_f64.to_bits()));
    assert!(Val::Float(f64::NAN.to_bits()) < Val::Integer(i64::MIN));
    assert_eq!(
        Val::Float(f64::NAN.to_bits()).partial_cmp(&Val::Float(f64::NAN.to_bits())),
        Some(std::cmp::Ordering::Equal)
    );
    assert_eq!(Val::Float(0.0_f64.to_bits()), Val::Float((-0.0_f64).to_bits()));
}
