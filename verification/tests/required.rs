//! The evaluator's original test set.

use apiel::{evaluate, evaluate_as, parse_vec};

#[test]
fn basic_sum() {
    assert_eq!(evaluate("2+2").expect("Couldn't evaluate expression"), "4");
    assert_eq!(
        evaluate_as::<i32>("2+2").expect("Couldn't evaluate or convert to a number"),
        4
    );
}

#[test]
fn array_sum() {
    assert_eq!(evaluate("4 2 3 + 8 5 7").expect("12 7 10"), "12 7 10");
    let rendered = evaluate("4 2 3 + 8 5 7").expect("Couldn't evaluate or convert to a number");
    assert_eq!(
        parse_vec::<i32>(&rendered).expect("Couldn't evaluate or convert to a number"),
        [12, 7, 10].to_vec()
    );
}

#[test]
fn arithmetic_works() {
    let arithmetic_tests: [(&str, &str); 7] = [
        ("+/⍳10", "55"),       // Summation
        ("×/⍳5", "120"),       // Product
        ("-/1 2 3 4", "-8"),   // Reduction
        ("⌈/1 5 2 9 3", "9"),  // Maximum
        ("⌊/1 5 2 9 3", "1"),  // Minimum
        ("÷/1 2 4", "0.125"),  // Division
        ("(+/⍳10)÷10", "5.5"), // Average
    ];
    for (input, expected) in arithmetic_tests.iter() {
        let result = evaluate(input).expect("Couldn't evaluate expression");
        assert_eq!(&result, expected, "Test failed for input: {}", input);
    }
}

#[test]
fn it_works() {
    assert_eq!(2, 2);
}
