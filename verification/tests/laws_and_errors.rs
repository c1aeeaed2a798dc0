//! Scenario checks of the stated laws, the boundary behaviors, each error
//! kind, and the random primitives.

use apiel::ast::{Expr, MonadOp, Span};
use apiel::scalar_ops::CheckedPow;
use apiel::eval::eval;
use apiel::val::Val;
use apiel::{evaluate, parse_and_eval_vals};

#[test]
fn addition_commutes_on_integers() {
    assert_eq!(evaluate("2+3").unwrap(), evaluate("3+2").unwrap());
    assert_eq!(evaluate("4×9").unwrap(), evaluate("9×4").unwrap());
    assert_eq!(evaluate("4⌈9").unwrap(), evaluate("9⌈4").unwrap());
    assert_eq!(evaluate("4⌊9").unwrap(), evaluate("9⌊4").unwrap());
}

#[test]
fn reduction_of_integers_is_the_exact_sum() {
    assert_eq!(evaluate("+/⍳100").unwrap(), "5050");
    assert_eq!(
        evaluate("+/1000000000000 2000000000000 3000000000000").unwrap(),
        "6000000000000"
    );
}

#[test]
fn scalar_extension_length_and_elements() {
    assert_eq!(evaluate("10 + 1 2 3 4 5").unwrap(), "11 12 13 14 15");
    let vals = parse_and_eval_vals("10 + 1 2 3 4 5").unwrap();
    assert_eq!(vals.len(), 5);
}

#[test]
fn promotion_makes_results_float() {
    for expr in ["1.5+2", "2+1.5", "1.5-2", "1.5×2", "3÷2", "2⍟8", "5.5|2", "2.5⋆2", "2.5⌈3.5", "2.5⌊3.5"] {
        let vals = parse_and_eval_vals(expr).unwrap();
        for v in vals.iter() {
            assert!(matches!(v, Val::Float(_)), "not a double for {}", expr);
        }
    }
}

#[test]
fn floor_and_ceil_are_idempotent() {
    assert_eq!(evaluate("⌊⌊2.7").unwrap(), evaluate("⌊2.7").unwrap());
    assert_eq!(evaluate("⌈⌈2.3").unwrap(), evaluate("⌈2.3").unwrap());
    assert_eq!(evaluate("⌊⌊-2.5").unwrap(), evaluate("⌊-2.5").unwrap());
    let once = parse_and_eval_vals("⌊3.9").unwrap();
    let twice = parse_and_eval_vals("⌊⌊3.9").unwrap();
    assert_eq!(once, twice);
}

#[test]
fn magnitude_of_negation_is_magnitude() {
    assert_eq!(evaluate("|-7").unwrap(), evaluate("|7").unwrap());
    assert_eq!(evaluate("|-2.5").unwrap(), evaluate("|2.5").unwrap());
}

#[test]
fn addition_overflow_reports_the_operator_span() {
    let err = evaluate("9223372036854775807+1").unwrap_err();
    assert_eq!(
        err,
        "Evaluation error at line 1 column 20: '+', Operation failed."
    );
}

#[test]
fn negating_the_smallest_integer_overflows() {
    let e = Expr::Monadic {
        span: Span { lo: 0, hi: 1 },
        op: MonadOp::Negate,
        arg: Box::new(Expr::ScalarInteger {
            span: Span { lo: 1, hi: 2 },
            value: i64::MIN,
        }),
    };
    assert!(eval(&e).is_err());
    // The same boundary through the source language.
    let err = evaluate("-((0-9223372036854775807)-1)").unwrap_err();
    assert!(err.contains("Operation failed"));
}

#[test]
fn factorial_boundaries() {
    assert_eq!(evaluate("!0").unwrap(), "1");
    assert_eq!(evaluate("!20").unwrap(), "2432902008176640000");
    let err = evaluate("!21").unwrap_err();
    assert!(err.contains("Operation failed"));
    // An integral double folds in double multiplications.
    assert_eq!(evaluate("!3.0").unwrap(), "6");
    let err = evaluate("!2.5").unwrap_err();
    assert!(err.contains("Operation failed"));
    let err = evaluate("!-1").unwrap_err();
    assert!(err.contains("Operation failed"));
}

#[test]
fn natural_log_domain() {
    let err = evaluate("⍟0").unwrap_err();
    assert!(err.contains("Operation failed"));
    let err = evaluate("⍟-1").unwrap_err();
    assert!(err.contains("Operation failed"));
}

#[test]
fn empty_reduction_has_no_identity() {
    let err = evaluate("+/⍳0").unwrap_err();
    assert!(err.contains("reduction over an empty vector has no identity"));
    let err = evaluate("×/⍳0").unwrap_err();
    assert!(err.contains("reduction over an empty vector has no identity"));
}

#[test]
fn reduction_steps_can_fail() {
    let err = evaluate("÷/1 0").unwrap_err();
    assert!(err.contains("Arithmetic error or invalid operation in Reduce"));
    let err = evaluate("+/9223372036854775807 1").unwrap_err();
    assert!(err.contains("Arithmetic error or invalid operation in Reduce"));
}

#[test]
fn shape_mismatch_carries_the_operator_span() {
    let err = evaluate("1 2 + 3 4 5").unwrap_err();
    assert_eq!(
        err,
        "Evaluation error at line 1 column 5: '+', operands must be of the same size or one must be scalar."
    );
}

#[test]
fn iota_domain_errors() {
    let err = evaluate("⍳2 3").unwrap_err();
    assert!(err.contains("Generate index only one integer at the moment"));
    let err = evaluate("⍳0.5").unwrap_err();
    assert!(err.contains("Generate index only accepts non-negative integer values"));
    let err = evaluate("⍳-1").unwrap_err();
    assert!(err.contains("Generate index only accepts non-negative integer values"));
}

#[test]
fn oversized_literals_are_reported_on_their_span() {
    let err = evaluate("99999999999999999999").unwrap_err();
    assert_eq!(
        err,
        "Evaluation error at line 1 column 1: '99999999999999999999', cannot be represented as a valid number."
    );
}

#[test]
fn parse_errors_are_reported() {
    assert!(evaluate("2+").unwrap_err().contains("Parse error"));
    assert!(evaluate("(2+2").unwrap_err().contains("Parse error"));
    assert!(evaluate("2 $ 2").unwrap_err().contains("Parse error"));
    assert!(evaluate("").unwrap_err().contains("Parse error"));
    assert!(evaluate("2)").unwrap_err().contains("Parse error"));
    assert!(evaluate("/2").unwrap_err().contains("Parse error"));
}

#[test]
fn roll_draws_within_range() {
    let vals = parse_and_eval_vals("?5 5 5 5 5 5 5 5").unwrap();
    assert_eq!(vals.len(), 8);
    for v in vals.iter() {
        match v {
            Val::Integer(x) => assert!((0..=5).contains(x)),
            Val::Float(_) => panic!("a roll must be an integer"),
        }
    }
    // A zero element draws from the whole 64-bit range.
    let vals = parse_and_eval_vals("?0").unwrap();
    assert_eq!(vals.len(), 1);
    assert!(matches!(vals[0], Val::Integer(_)));
}

#[test]
fn roll_domain_errors() {
    assert!(evaluate("?1.5").unwrap_err().contains("Operation failed"));
    assert!(evaluate("?-3").unwrap_err().contains("Operation failed"));
}

#[test]
fn deal_draws_from_the_pool() {
    let vals = parse_and_eval_vals("3?10").unwrap();
    assert_eq!(vals.len(), 3);
    for v in vals.iter() {
        match v {
            Val::Integer(x) => assert!((0..=10).contains(x)),
            Val::Float(_) => panic!("a deal must be an integer"),
        }
    }
    let vals = parse_and_eval_vals("0?10").unwrap();
    assert_eq!(vals.len(), 0);
}

#[test]
fn deal_domain_errors() {
    let err = evaluate("11?10").unwrap_err();
    assert!(err.contains("Deal arguments must be integers"));
    let err = evaluate("2.5?10").unwrap_err();
    assert!(err.contains("Deal arguments must be integers"));
    let err = evaluate("(1 2)?10").unwrap_err();
    assert!(err.contains("Deal operation is only available for two scalars"));
}

#[test]
fn extremes_of_an_empty_vector_fail() {
    let err = evaluate("⌈/⍳0").unwrap_err();
    assert!(err.contains("Cannot find max"));
    let err = evaluate("⌊/⍳0").unwrap_err();
    assert!(err.contains("Cannot find max"));
}

#[test]
fn empty_results_propagate_structurally() {
    assert_eq!(evaluate("1+⍳0").unwrap(), "");
    assert_eq!(evaluate("+⍳0").unwrap(), "");
}

#[test]
fn residue_follows_the_left_sign() {
    // The remainder takes the sign of the left operand, as the source
    // language's `%` does.
    assert_eq!(evaluate("(0-7)|3").unwrap(), "-1");
    assert_eq!(evaluate("7|0-3").unwrap(), "1");
    assert_eq!(evaluate("(0-7)|0-3").unwrap(), "-1");
    // The remainder of the smallest integer by minus one is zero.
    assert_eq!(
        evaluate("((0-9223372036854775807)-1)|0-1").unwrap(),
        "0"
    );
    // A zero divisor on the integer path is an arithmetic failure.
    assert!(evaluate("5|0").unwrap_err().contains("Operation failed"));
}

#[test]
fn checked_pow_trait_resolves_both_ways() {
    assert_eq!(Val::Integer(3).checked_pow(4), Some(Val::Integer(81)));
    assert_eq!(Val::Integer(2).checked_pow(64), None);
    let r = Val::Integer(4).checked_powf(0.5_f64.to_bits()).unwrap();
    match r {
        Val::Float(bits) => assert!((f64::from_bits(bits) - 2.0).abs() < 1e-12),
        Val::Integer(_) => panic!("a double power must stay a double"),
    }
}
