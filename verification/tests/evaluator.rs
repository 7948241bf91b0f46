use calculator::arithmetic::{Binary64, Calculation, EvalError, NEGATIVE_ZERO_BITS};
use calculator::eval::{evaluate_operator, evaluate_rpn, evaluate_token};
use calculator::tokens::{
    get_function_words, get_token_operator, Associativity, Numeral, Operator, OperatorType, Token,
};
use std::cell::RefCell;
use std::collections::VecDeque;

fn number(value: f64) -> Binary64 {
    Binary64 { bits: value.to_bits() }
}

fn float(value: Binary64) -> f64 {
    f64::from_bits(value.bits)
}

fn arithmetic(calculation: Calculation) -> Binary64 {
    number(match calculation {
        Calculation::Literal(text) => text.parse::<f64>().unwrap(),
        Calculation::Pi => std::f64::consts::PI,
        Calculation::E => std::f64::consts::E,
        Calculation::Sin(x) => float(x).sin(),
        Calculation::Cos(x) => float(x).cos(),
        Calculation::Add(l, r) => float(l) + float(r),
        Calculation::Subtract(l, r) => float(l) - float(r),
        Calculation::Multiply(l, r) => float(l) * float(r),
        Calculation::Divide(l, r) => float(l) / float(r),
        Calculation::Exponent(l, r) => float(l).powf(float(r)),
        Calculation::Modulus(l, r) => float(l) % float(r),
        Calculation::Max(l, r) => float(l).max(float(r)),
    })
}

fn operator(spelling: &str) -> Operator {
    let mut chars = spelling.chars();
    if let (Some(c), None) = (chars.next(), chars.next()) {
        if let Some(Token::Op(found)) = get_token_operator(c) {
            return found;
        }
    }
    for (key, found) in get_function_words() {
        if key == spelling {
            return found;
        }
    }
    panic!("no operator is spelled {:?}", spelling);
}

fn token(spelling: &str) -> Token {
    match spelling {
        "(" => Token::ParenthesisLeft,
        ")" => Token::ParenthesisRight,
        "pi" => Token::Number(Numeral::Pi),
        "e" => Token::Number(Numeral::E),
        _ if spelling.starts_with(|c: char| c.is_ascii_digit()) => {
            Token::Number(Numeral::Decimal(spelling.to_string()))
        }
        _ => Token::Op(operator(spelling)),
    }
}

fn queue(spellings: &[&str]) -> VecDeque<Token> {
    spellings.iter().map(|spelling| token(spelling)).collect()
}

fn stack(spellings: &[&str]) -> Result<Vec<f64>, EvalError> {
    evaluate_rpn(queue(spellings), &arithmetic)
        .map(|values| values.into_iter().map(float).collect())
}

#[test]
fn zero_of_either_sign_is_zero() {
    assert!(number(0.0).is_zero());
    assert!(number(-0.0).is_zero());
    assert!(Binary64 { bits: 0 }.is_zero());
    assert!(Binary64 { bits: NEGATIVE_ZERO_BITS }.is_zero());
    assert_eq!(NEGATIVE_ZERO_BITS, (-0.0f64).to_bits());
}

#[test]
fn nothing_else_is_zero() {
    assert!(!number(1.0).is_zero());
    assert!(!number(-1.0).is_zero());
    assert!(!number(f64::MIN_POSITIVE).is_zero());
    assert!(!number(5e-324).is_zero());
    assert!(!number(f64::NAN).is_zero());
    assert!(!number(f64::INFINITY).is_zero());
    assert!(!Binary64 { bits: 1 }.is_zero());
    assert!(!Binary64 { bits: u64::MAX }.is_zero());
}

#[test]
fn binary_operators_take_left_then_right() {
    let l = number(7.0);
    let r = number(2.0);
    let cases = vec![
        ("+", Calculation::Add(l, r)),
        ("-", Calculation::Subtract(l, r)),
        ("−", Calculation::Subtract(l, r)),
        ("x", Calculation::Multiply(l, r)),
        ("×", Calculation::Multiply(l, r)),
        ("*", Calculation::Multiply(l, r)),
        ("/", Calculation::Divide(l, r)),
        ("÷", Calculation::Divide(l, r)),
        ("^", Calculation::Exponent(l, r)),
        ("**", Calculation::Exponent(l, r)),
        ("%", Calculation::Modulus(l, r)),
        ("max", Calculation::Max(l, r)),
    ];
    for (spelling, expected) in cases {
        assert_eq!(evaluate_operator(&operator(spelling), Some(l), Some(r)), Ok(expected));
    }
}

#[test]
fn unary_operators_take_the_right_operand() {
    let x = number(0.5);
    assert_eq!(evaluate_operator(&operator("sin"), None, Some(x)), Ok(Calculation::Sin(x)));
    assert_eq!(evaluate_operator(&operator("cos"), None, Some(x)), Ok(Calculation::Cos(x)));
    assert_eq!(
        evaluate_operator(&operator("sin"), Some(number(9.0)), Some(x)),
        Ok(Calculation::Sin(x))
    );
}

#[test]
fn missing_operand_is_an_arity_failure() {
    let x = number(1.0);
    assert_eq!(evaluate_operator(&operator("+"), None, Some(x)), Err(EvalError::Arity));
    assert_eq!(evaluate_operator(&operator("+"), Some(x), None), Err(EvalError::Arity));
    assert_eq!(evaluate_operator(&operator("+"), None, None), Err(EvalError::Arity));
    assert_eq!(evaluate_operator(&operator("sin"), None, None), Err(EvalError::Arity));
    assert_eq!(evaluate_operator(&operator("sin"), Some(x), None), Err(EvalError::Arity));
    assert_eq!(evaluate_operator(&operator("/"), Some(x), None), Err(EvalError::Arity));
}

#[test]
fn division_by_zero_is_an_arithmetic_failure() {
    for divisor in [0.0, -0.0] {
        for dividend in [2.0, 0.0, -1.0, f64::NAN, f64::INFINITY] {
            assert_eq!(
                evaluate_operator(&operator("/"), Some(number(dividend)), Some(number(divisor))),
                Err(EvalError::Arithmetic)
            );
            assert_eq!(
                evaluate_operator(&operator("÷"), Some(number(dividend)), Some(number(divisor))),
                Err(EvalError::Arithmetic)
            );
        }
    }
}

#[test]
fn division_by_a_tiny_number_is_asked_for() {
    let l = number(1.0);
    let r = number(5e-324);
    assert_eq!(evaluate_operator(&operator("/"), Some(l), Some(r)), Ok(Calculation::Divide(l, r)));
}

#[test]
fn modulus_by_zero_is_asked_for() {
    let l = number(1.0);
    let r = number(0.0);
    assert_eq!(
        evaluate_operator(&operator("%"), Some(l), Some(r)),
        Ok(Calculation::Modulus(l, r))
    );
}

#[test]
fn kind_that_does_not_fit_the_operands_is_a_defect() {
    let x = number(1.0);
    let unary_add = Operator { number_of_operands: 1, ..operator("+") };
    assert_eq!(evaluate_operator(&unary_add, None, Some(x)), Err(EvalError::Defect));
    let unary_max = Operator { number_of_operands: 1, ..operator("max") };
    assert_eq!(evaluate_operator(&unary_max, Some(x), Some(x)), Err(EvalError::Defect));
    let binary_sin = Operator { number_of_operands: 2, ..operator("sin") };
    assert_eq!(evaluate_operator(&binary_sin, Some(x), Some(x)), Err(EvalError::Defect));
    let binary_cos = Operator { number_of_operands: 2, ..operator("cos") };
    assert_eq!(evaluate_operator(&binary_cos, Some(x), Some(x)), Err(EvalError::Defect));
}

#[test]
fn missing_operand_comes_before_the_defect() {
    let unary_add = Operator { number_of_operands: 1, ..operator("+") };
    assert_eq!(evaluate_operator(&unary_add, None, None), Err(EvalError::Arity));
    let binary_sin = Operator { number_of_operands: 2, ..operator("sin") };
    assert_eq!(evaluate_operator(&binary_sin, None, Some(number(1.0))), Err(EvalError::Arity));
}

#[test]
fn any_other_number_of_operands_counts_as_two() {
    let l = number(1.0);
    let r = number(2.0);
    for operands in [0, 3, 255] {
        let odd = Operator {
            op: OperatorType::Add,
            associativity: Associativity::Left,
            precedence: 2,
            literal: "+".to_string(),
            number_of_operands: operands,
        };
        assert_eq!(evaluate_operator(&odd, Some(l), Some(r)), Ok(Calculation::Add(l, r)));
        assert_eq!(evaluate_operator(&odd, None, Some(r)), Err(EvalError::Arity));
    }
}

#[test]
fn empty_queue_leaves_an_empty_stack() {
    assert_eq!(stack(&[]), Ok(vec![]));
}

#[test]
fn numbers_are_pushed_in_order() {
    assert_eq!(stack(&["1", "2.5", "3"]), Ok(vec![1.0, 2.5, 3.0]));
    assert_eq!(stack(&["pi", "e"]), Ok(vec![std::f64::consts::PI, std::f64::consts::E]));
}

#[test]
fn binary_operator_replaces_two_values() {
    assert_eq!(stack(&["9", "7", "2", "-"]), Ok(vec![9.0, 5.0]));
    assert_eq!(stack(&["7", "2", "/"]), Ok(vec![3.5]));
    assert_eq!(stack(&["7", "2", "%"]), Ok(vec![1.0]));
    assert_eq!(stack(&["7", "2", "^"]), Ok(vec![49.0]));
    assert_eq!(stack(&["7", "2", "max"]), Ok(vec![7.0]));
    assert_eq!(stack(&["2", "7", "max"]), Ok(vec![7.0]));
}

#[test]
fn unary_operator_replaces_one_value() {
    assert_eq!(stack(&["9", "0", "sin"]), Ok(vec![9.0, 0.0]));
    assert_eq!(stack(&["9", "0", "cos"]), Ok(vec![9.0, 1.0]));
    assert_eq!(stack(&["2", "0", "sin", "+"]), Ok(vec![2.0]));
}

#[test]
fn operator_without_operands_fails() {
    assert_eq!(stack(&["+"]), Err(EvalError::Arity));
    assert_eq!(stack(&["2", "+"]), Err(EvalError::Arity));
    assert_eq!(stack(&["sin"]), Err(EvalError::Arity));
    assert_eq!(stack(&["2", "3", "+", "x"]), Err(EvalError::Arity));
}

#[test]
fn parenthesis_in_the_queue_fails() {
    assert_eq!(stack(&["2", "("]), Err(EvalError::Unbalanced));
    assert_eq!(stack(&[")"]), Err(EvalError::Unbalanced));
}

#[test]
fn first_failure_ends_the_evaluation() {
    assert_eq!(stack(&["2", "0", "/", "("]), Err(EvalError::Arithmetic));
    assert_eq!(stack(&["(", "2", "0", "/"]), Err(EvalError::Unbalanced));
    assert_eq!(stack(&["+", "2", "0", "/"]), Err(EvalError::Arity));
}

#[test]
fn division_by_a_computed_zero_fails() {
    assert_eq!(stack(&["2", "1", "1", "-", "/"]), Err(EvalError::Arithmetic));
    assert_eq!(stack(&["2", "0", "0", "1", "-", "x", "/"]), Err(EvalError::Arithmetic));
}

#[test]
fn each_token_is_computed_once_and_in_order() {
    let asked: RefCell<Vec<Calculation>> = RefCell::new(Vec::new());
    let recording = |calculation: Calculation| {
        asked.borrow_mut().push(calculation.clone());
        arithmetic(calculation)
    };
    let result = evaluate_rpn(queue(&["2", "3", "+", "sin"]), &recording);
    assert_eq!(result, Ok(vec![number(5.0f64.sin())]));
    assert_eq!(
        asked.into_inner(),
        vec![
            Calculation::Literal("2".to_string()),
            Calculation::Literal("3".to_string()),
            Calculation::Add(number(2.0), number(3.0)),
            Calculation::Sin(number(5.0)),
        ]
    );
}

#[test]
fn values_pass_through_untouched() {
    let nan = Binary64 { bits: 0x7ff8_0000_0000_1234 };
    let fixed = |calculation: Calculation| match calculation {
        Calculation::Literal(_) => nan,
        Calculation::Add(l, r) => {
            assert_eq!(l, nan);
            assert_eq!(r, nan);
            Binary64 { bits: 42 }
        }
        _ => unreachable!(),
    };
    assert_eq!(evaluate_rpn(queue(&["1", "2", "+"]), &fixed), Ok(vec![Binary64 { bits: 42 }]));
}

#[test]
fn number_token_takes_nothing() {
    let mut numbers = vec![number(1.0), number(2.0)];
    assert_eq!(
        evaluate_token(&token("3.5"), &mut numbers),
        Ok(Calculation::Literal("3.5".to_string()))
    );
    assert_eq!(evaluate_token(&token("pi"), &mut numbers), Ok(Calculation::Pi));
    assert_eq!(evaluate_token(&token("e"), &mut numbers), Ok(Calculation::E));
    assert_eq!(numbers, vec![number(1.0), number(2.0)]);
}

#[test]
fn binary_token_takes_two_values() {
    let mut numbers = vec![number(1.0), number(2.0), number(3.0)];
    assert_eq!(
        evaluate_token(&token("-"), &mut numbers),
        Ok(Calculation::Subtract(number(2.0), number(3.0)))
    );
    assert_eq!(numbers, vec![number(1.0)]);
}

#[test]
fn unary_token_takes_one_value() {
    let mut numbers = vec![number(1.0), number(2.0), number(3.0)];
    assert_eq!(evaluate_token(&token("cos"), &mut numbers), Ok(Calculation::Cos(number(3.0))));
    assert_eq!(numbers, vec![number(1.0), number(2.0)]);
}

#[test]
fn token_short_of_operands_takes_what_there_is() {
    let mut numbers = vec![number(1.0)];
    assert_eq!(evaluate_token(&token("+"), &mut numbers), Err(EvalError::Arity));
    assert_eq!(numbers, vec![]);
    assert_eq!(evaluate_token(&token("+"), &mut numbers), Err(EvalError::Arity));
    assert_eq!(evaluate_token(&token("sin"), &mut numbers), Err(EvalError::Arity));
    assert_eq!(numbers, vec![]);
}

#[test]
fn failing_division_takes_its_operands() {
    let mut numbers = vec![number(5.0), number(1.0), number(0.0)];
    assert_eq!(evaluate_token(&token("/"), &mut numbers), Err(EvalError::Arithmetic));
    assert_eq!(numbers, vec![number(5.0)]);
}

#[test]
fn parenthesis_token_fails_and_takes_nothing() {
    let mut numbers = vec![number(1.0)];
    assert_eq!(evaluate_token(&token("("), &mut numbers), Err(EvalError::Unbalanced));
    assert_eq!(evaluate_token(&token(")"), &mut numbers), Err(EvalError::Unbalanced));
    assert_eq!(numbers, vec![number(1.0)]);
}

#[test]
fn driving_the_tokens_by_hand_is_evaluate_rpn() {
    let spellings = ["3", "4", "2", "×", "1", "5", "−", "2", "3", "^", "^", "÷", "+"];
    let mut numbers = Vec::new();
    for spelling in spellings {
        let calculation = evaluate_token(&token(spelling), &mut numbers).unwrap();
        numbers.push(arithmetic(calculation));
    }
    assert_eq!(Ok(numbers), evaluate_rpn(queue(&spellings), &arithmetic));
    assert_eq!(stack(&spellings), Ok(vec![3.0001220703125]));
}
