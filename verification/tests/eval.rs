use calculator::arithmetic::{Binary64, Calculation, EvalError};
use calculator::eval::{eval, evaluate};

fn number(value: f64) -> Binary64 {
    Binary64 { bits: value.to_bits() }
}

fn float(value: Binary64) -> f64 {
    f64::from_bits(value.bits)
}

fn arithmetic(calculation: Calculation) -> Binary64 {
    number(match calculation {
        Calculation::Literal(text) => text.parse::<f64>().unwrap(),
        Calculation::Pi => std::f64::consts::PI,
        Calculation::E => std::f64::consts::E,
        Calculation::Sin(x) => float(x).sin(),
        Calculation::Cos(x) => float(x).cos(),
        Calculation::Add(l, r) => float(l) + float(r),
        Calculation::Subtract(l, r) => float(l) - float(r),
        Calculation::Multiply(l, r) => float(l) * float(r),
        Calculation::Divide(l, r) => float(l) / float(r),
        Calculation::Exponent(l, r) => float(l).powf(float(r)),
        Calculation::Modulus(l, r) => float(l) % float(r),
        Calculation::Max(l, r) => float(l).max(float(r)),
    })
}

fn run(input: &str) -> Result<f64, ()> {
    match eval(input.to_string(), arithmetic) {
        Ok(value) => Ok(float(value)),
        Err(_) => Err(()),
    }
}

fn failure(input: &str) -> Option<EvalError> {
    eval(input.to_string(), arithmetic).err()
}

#[test]
fn eval_addition() {
    let input = "2 + 2";
    let result = run(input);
    assert_eq!(result, Ok(4.0));
}

#[test]
fn eval_subtraction() {
    let input = "2 - 2";
    let result = run(input);
    assert_eq!(result, Ok(0.0));
}

#[test]
fn eval_multiplication() {
    let input = "2 * 2";
    let result = run(input);
    assert_eq!(result, Ok(4.0));
}

#[test]
fn eval_division() {
    let input = "2 / 2";
    let result = run(input);
    assert_eq!(result, Ok(1.0));
}

#[test]
fn eval_division_by_zero() {
    let input = "2 / 0";
    let result = run(input);
    assert_eq!(result, Err(()));
    assert_eq!(failure(input), Some(EvalError::Arithmetic));
}

#[test]
fn eval_exponentiation() {
    let input = "2 ^ 2";
    let result = run(input);
    assert_eq!(result, Ok(4.0));
}

#[test]
fn eval_modulus() {
    let input = "2 % 2";
    let result = run(input);
    assert_eq!(result, Ok(0.0));
}

#[test]
fn eval_max_function() {
    let input = "max(2, 3)";
    let result = run(input);
    assert_eq!(result, Ok(3.0));
}

#[test]
fn eval_sine_function() {
    let input = "sin(0)";
    let result = run(input);
    assert_eq!(result, Ok(0.0));
}

#[test]
fn eval_cosine_function() {
    let input = "cos(0)";
    let result = run(input);
    assert_eq!(result, Ok(1.0));
}

#[test]
fn eval_invalid_input() {
    let input = "2 +";
    let result = run(input);
    assert_eq!(result, Err(()));
    assert_eq!(failure(input), Some(EvalError::Arity));
}

#[test]
fn eval_invalid_statement() {
    let input = "exit";
    let result = run(input);
    assert_eq!(result, Err(()));
    assert_eq!(failure(input), Some(EvalError::Lex));
}

#[test]
fn eval_example_1() {
    let input = "3 + 4 × 2 ÷ ( 1 − 5 ) ^ 2 ^ 3";
    let result = run(input);
    assert_eq!(result, Ok(3.0001220703125));
}

#[test]
fn eval_example_2() {
    let input = "sin ( max ( 2, 3 ) ÷ 3 × pi )";
    let result = run(input);
    assert_eq!(result, Ok(0.00000000000000012246467991473532));
}

#[test]
fn number_alone_is_its_value() {
    assert_eq!(run("42"), Ok(42.0));
    assert_eq!(run("3.25"), Ok(3.25));
    assert_eq!(run("7."), Ok(7.0));
    assert_eq!(run("0.1"), Ok(0.1));
}

#[test]
fn constants_have_their_values() {
    assert_eq!(run("pi"), Ok(std::f64::consts::PI));
    assert_eq!(run("e"), Ok(std::f64::consts::E));
    assert_eq!(run("2 x pi"), Ok(2.0 * std::f64::consts::PI));
}

#[test]
fn each_operator_on_unequal_operands() {
    assert_eq!(run("7 + 2"), Ok(9.0));
    assert_eq!(run("7 - 2"), Ok(5.0));
    assert_eq!(run("7 − 2"), Ok(5.0));
    assert_eq!(run("7 x 2"), Ok(14.0));
    assert_eq!(run("7 × 2"), Ok(14.0));
    assert_eq!(run("7 * 2"), Ok(14.0));
    assert_eq!(run("7 / 2"), Ok(3.5));
    assert_eq!(run("7 ÷ 2"), Ok(3.5));
    assert_eq!(run("7 ^ 2"), Ok(49.0));
    assert_eq!(run("7 ** 2"), Ok(49.0));
    assert_eq!(run("7 % 2"), Ok(1.0));
    assert_eq!(run("max(7, 2)"), Ok(7.0));
    assert_eq!(run("max(2, 7)"), Ok(7.0));
}

#[test]
fn fractions_are_computed_as_floats() {
    assert_eq!(run("1.5 + 2.25"), Ok(3.75));
    assert_eq!(run("0.1 + 0.2"), Ok(0.1 + 0.2));
    assert_eq!(run("1 / 3"), Ok(1.0 / 3.0));
}

#[test]
fn exponent_chain_groups_to_the_right() {
    assert_eq!(run("2 ^ 2 ^ 3"), Ok(256.0));
    assert_eq!(run("2 ** 2 ** 3"), Ok(256.0));
    assert_eq!(run("(2 ^ 2) ^ 3"), Ok(64.0));
}

#[test]
fn eval_equal_precedence_from_the_left() {
    assert_eq!(run("8 - 3 - 2"), Ok(3.0));
    assert_eq!(run("100 / 10 / 5"), Ok(2.0));
    assert_eq!(run("8 - 3 + 2"), Ok(7.0));
    assert_eq!(run("7 % 4 x 2"), Ok(6.0));
}

#[test]
fn multiplication_after_addition_binds_tighter() {
    assert_eq!(run("2 + 3 x 4"), Ok(14.0));
    assert_eq!(run("1 + 2 ^ 3"), Ok(9.0));
}

#[test]
fn operator_of_lower_precedence_does_not_release_a_waiting_one() {
    assert_eq!(run("2 x 3 + 4"), Ok(14.0));
    assert_eq!(run("(2 x 3) + 4"), Ok(10.0));
}

#[test]
fn eval_parentheses() {
    assert_eq!(run("(2 + 3) x 4"), Ok(20.0));
    assert_eq!(run("2 x (3 + 4)"), Ok(14.0));
    assert_eq!(run("((2))"), Ok(2.0));
}

#[test]
fn modulus_has_the_sign_of_the_dividend() {
    assert_eq!(run("(2 - 5) % 2"), Ok(-1.0));
    assert_eq!(run("5 % (0 - 3)"), Ok(2.0));
    assert_eq!(run("5.5 % 2"), Ok(1.5));
}

#[test]
fn modulus_by_zero_is_not_a_number() {
    assert!(run("2 % 0").unwrap().is_nan());
}

#[test]
fn function_after_an_operator() {
    assert_eq!(run("2 + sin(0)"), Ok(2.0));
    assert_eq!(run("2 x cos(0)"), Ok(2.0));
    assert_eq!(run("1 + max(2, 3)"), Ok(4.0));
}

#[test]
fn nested_functions() {
    assert_eq!(run("max(max(1, 5), 3)"), Ok(5.0));
    assert_eq!(run("cos(sin(0))"), Ok(1.0));
    assert_eq!(run("sin(pi / 2)"), Ok(1.0));
}

#[test]
fn upper_case_is_lowered_first() {
    assert_eq!(run("MAX(2, 3)"), Ok(3.0));
    assert_eq!(run("Sin(0)"), Ok(0.0));
    assert_eq!(run("PI"), Ok(std::f64::consts::PI));
    assert_eq!(run("2 X 3"), Ok(6.0));
}

#[test]
fn evaluate_takes_the_text_as_it_is() {
    let lower = evaluate("max(2, 3)".to_string(), arithmetic);
    assert_eq!(lower, Ok(number(3.0)));
    let upper = evaluate("MAX(2, 3)".to_string(), arithmetic);
    assert_eq!(upper, Err(EvalError::Lex));
}

#[test]
fn same_text_same_result() {
    for text in ["3 + 4 × 2 ÷ ( 1 − 5 ) ^ 2 ^ 3", "sin(1)", "2 / 0", "exit", "", "0.1 + 0.2"] {
        let first = eval(text.to_string(), arithmetic);
        let second = eval(text.to_string(), arithmetic);
        assert_eq!(first, second);
    }
}

#[test]
fn eval_division_by_a_computed_zero() {
    assert_eq!(failure("2 / (1 - 1)"), Some(EvalError::Arithmetic));
    assert_eq!(failure("0 / 0"), Some(EvalError::Arithmetic));
    assert_eq!(failure("2 ÷ 0.0"), Some(EvalError::Arithmetic));
}

#[test]
fn division_by_negative_zero_fails() {
    assert_eq!(failure("1 / (0 x (0 - 1))"), Some(EvalError::Arithmetic));
}

#[test]
fn unreadable_text_is_a_lex_failure() {
    assert_eq!(failure("2 $ 3"), Some(EvalError::Lex));
    assert_eq!(failure("1.2.3"), Some(EvalError::Lex));
    assert_eq!(failure("2 + 1.2.3"), Some(EvalError::Lex));
    assert_eq!(failure("2 foo"), Some(EvalError::Lex));
    assert_eq!(failure("2 + 2 exit"), Some(EvalError::Lex));
    assert_eq!(failure("2\t+ 2"), Some(EvalError::Lex));
}

#[test]
fn unbalanced_parentheses_fail() {
    assert_eq!(failure("2 + 3)"), Some(EvalError::Unbalanced));
    assert_eq!(failure(")"), Some(EvalError::Unbalanced));
    assert_eq!(failure("(2 + 3"), Some(EvalError::Unbalanced));
    assert_eq!(failure("("), Some(EvalError::Unbalanced));
}

#[test]
fn eval_missing_operand() {
    assert_eq!(failure("+"), Some(EvalError::Arity));
    assert_eq!(failure("+ 2"), Some(EvalError::Arity));
    assert_eq!(failure("2 x"), Some(EvalError::Arity));
    assert_eq!(failure("sin()"), Some(EvalError::Arity));
    assert_eq!(failure("max(2)"), Some(EvalError::Arity));
    assert_eq!(failure("2 + + 3"), Some(EvalError::Arity));
}

#[test]
fn no_value_or_several_is_a_shape_failure() {
    assert_eq!(failure(""), Some(EvalError::Shape));
    assert_eq!(failure("   "), Some(EvalError::Shape));
    assert_eq!(failure("()"), Some(EvalError::Shape));
    assert_eq!(failure("2 3"), Some(EvalError::Shape));
    assert_eq!(failure("max(1, 2, 3)"), Some(EvalError::Shape));
    assert_eq!(failure("2 pi"), Some(EvalError::Shape));
}

#[test]
fn trailing_newline_is_passed_over() {
    assert_eq!(run("2 + 2\n"), Ok(4.0));
}

#[test]
fn long_literal_keeps_every_digit() {
    assert_eq!(run("123456789012345678901234567890"), Ok(123456789012345678901234567890.0));
    assert_eq!(run("0.000000000000000000000000000001"), Ok(1e-30));
}

#[test]
fn every_literal_that_is_read_has_a_value() {
    for text in ["0", "7.", "007", "1.50", "00.5", "123456789.987654321", "0.0", "9999999999."] {
        assert_eq!(run(text), Ok(text.parse::<f64>().unwrap()));
    }
}
