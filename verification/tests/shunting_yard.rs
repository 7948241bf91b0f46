use calculator::arithmetic::EvalError;
use calculator::lexer::Lexer;
use calculator::shunting_yard::{parse_operator, parse_parenthesis, shunting_yard};
use calculator::tokens::{get_function_words, get_token_operator, Numeral, Operator, Token};
use std::collections::VecDeque;

fn decimal(text: &str) -> Token {
    Token::Number(Numeral::Decimal(text.to_string()))
}

fn operator(spelling: &str) -> Operator {
    let mut chars = spelling.chars();
    if let (Some(c), None) = (chars.next(), chars.next()) {
        if let Some(Token::Op(found)) = get_token_operator(c) {
            return found;
        }
    }
    for (key, found) in get_function_words() {
        if key == spelling {
            return found;
        }
    }
    panic!("no operator is spelled {:?}", spelling);
}

fn op(spelling: &str) -> Token {
    Token::Op(operator(spelling))
}

fn token(spelling: &str) -> Token {
    match spelling {
        "(" => Token::ParenthesisLeft,
        ")" => Token::ParenthesisRight,
        "pi" => Token::Number(Numeral::Pi),
        "e" => Token::Number(Numeral::E),
        _ if spelling.starts_with(|c: char| c.is_ascii_digit()) => decimal(spelling),
        _ => op(spelling),
    }
}

fn queue(spellings: &[&str]) -> VecDeque<Token> {
    spellings.iter().map(|spelling| token(spelling)).collect()
}

fn postfix(text: &str) -> Result<VecDeque<Token>, EvalError> {
    shunting_yard(Lexer::new(text.to_string()))
}

#[test]
fn empty_text_gives_an_empty_queue() {
    assert_eq!(postfix(""), Ok(VecDeque::new()));
    assert_eq!(postfix(" , \n"), Ok(VecDeque::new()));
}

#[test]
fn number_alone() {
    assert_eq!(postfix("42"), Ok(queue(&["42"])));
}

#[test]
fn operator_follows_its_operands() {
    assert_eq!(postfix("2 + 3"), Ok(queue(&["2", "3", "+"])));
    assert_eq!(postfix("2 ** 3"), Ok(queue(&["2", "3", "**"])));
}

#[test]
fn dangling_operator_stays_in_the_queue() {
    assert_eq!(postfix("2 +"), Ok(queue(&["2", "+"])));
}

#[test]
fn equal_precedence_groups_to_the_left() {
    assert_eq!(postfix("8 - 3 - 2"), Ok(queue(&["8", "3", "-", "2", "-"])));
    assert_eq!(postfix("8 / 4 x 2 % 3"), Ok(queue(&["8", "4", "/", "2", "x", "3", "%"])));
    assert_eq!(postfix("1 + 2 - 3"), Ok(queue(&["1", "2", "+", "3", "-"])));
}

#[test]
fn exponent_groups_to_the_right() {
    assert_eq!(postfix("2 ^ 2 ^ 3"), Ok(queue(&["2", "2", "3", "^", "^"])));
    assert_eq!(postfix("2 ** 2 ^ 3"), Ok(queue(&["2", "2", "3", "^", "**"])));
}

#[test]
fn higher_precedence_after_lower_binds_tighter() {
    assert_eq!(postfix("2 + 3 x 4"), Ok(queue(&["2", "3", "4", "x", "+"])));
    assert_eq!(postfix("2 x 3 ^ 4"), Ok(queue(&["2", "3", "4", "^", "x"])));
}

#[test]
fn operators_of_other_precedence_wait() {
    assert_eq!(postfix("2 x 3 + 4"), Ok(queue(&["2", "3", "4", "+", "x"])));
    assert_eq!(postfix("1 + 2 x 3 - 4"), Ok(queue(&["1", "2", "3", "4", "-", "x", "+"])));
}

#[test]
fn parentheses_group() {
    assert_eq!(postfix("(2 + 3) x 4"), Ok(queue(&["2", "3", "+", "4", "x"])));
    assert_eq!(postfix("2 x (3 + 4)"), Ok(queue(&["2", "3", "4", "+", "x"])));
    assert_eq!(postfix("((2))"), Ok(queue(&["2"])));
}

#[test]
fn function_follows_its_arguments() {
    assert_eq!(postfix("sin(0)"), Ok(queue(&["0", "sin"])));
    assert_eq!(postfix("max(2, 3)"), Ok(queue(&["2", "3", "max"])));
    assert_eq!(postfix("cos(max(1, 2))"), Ok(queue(&["1", "2", "max", "cos"])));
    assert_eq!(postfix("2 + sin(0)"), Ok(queue(&["2", "0", "sin", "+"])));
}

#[test]
fn function_without_parentheses_is_an_operator() {
    assert_eq!(postfix("sin 0"), Ok(queue(&["0", "sin"])));
}

#[test]
fn mixed_expression() {
    assert_eq!(
        postfix("3 + 4 × 2 ÷ ( 1 − 5 ) ^ 2 ^ 3"),
        Ok(queue(&["3", "4", "2", "×", "1", "5", "−", "2", "3", "^", "^", "÷", "+"]))
    );
    assert_eq!(
        postfix("sin ( max ( 2, 3 ) ÷ 3 × pi )"),
        Ok(queue(&["2", "3", "max", "3", "÷", "pi", "×", "sin"]))
    );
}

#[test]
fn closing_parenthesis_without_opening_fails() {
    assert_eq!(postfix(")"), Err(EvalError::Unbalanced));
    assert_eq!(postfix("2 + 3)"), Err(EvalError::Unbalanced));
    assert_eq!(postfix("(2))"), Err(EvalError::Unbalanced));
}

#[test]
fn opening_parenthesis_without_closing_stays_in_the_queue() {
    assert_eq!(postfix("(2"), Ok(queue(&["2", "("])));
    assert_eq!(postfix("(2 + 3"), Ok(queue(&["2", "3", "+", "("])));
}

#[test]
fn unreadable_text_fails() {
    assert_eq!(postfix("exit"), Err(EvalError::Lex));
    assert_eq!(postfix("2 + foo"), Err(EvalError::Lex));
    assert_eq!(postfix("2 foo"), Err(EvalError::Lex));
    assert_eq!(postfix("1.2.3"), Err(EvalError::Lex));
    assert_eq!(postfix("2 $ 3"), Err(EvalError::Lex));
}

#[test]
fn malformed_number_at_the_end_fails() {
    assert_eq!(postfix("2 + 1.2.3"), Err(EvalError::Lex));
    assert_eq!(postfix("2 1.2.3"), Err(EvalError::Lex));
    assert_eq!(postfix("1.2.3 + 4"), Err(EvalError::Lex));
    assert_eq!(postfix("1..\n"), Err(EvalError::Lex));
}

#[test]
fn conversion_does_not_go_by_an_earlier_failure() {
    let mut lexer = Lexer::new("1.2.3 4 + 5".to_string());
    assert_eq!(lexer.next_token(), None);
    assert!(lexer.has_failed());
    assert_eq!(shunting_yard(lexer), Ok(queue(&["4", "5", "+"])));
}

#[test]
fn first_failure_wins() {
    assert_eq!(postfix(") foo"), Err(EvalError::Unbalanced));
    assert_eq!(postfix("foo )"), Err(EvalError::Lex));
}

#[test]
fn conversion_starts_at_the_cursor() {
    let mut lexer = Lexer::new("2 + 3 x 4".to_string());
    lexer.next_token();
    lexer.next_token();
    assert_eq!(shunting_yard(lexer), Ok(queue(&["3", "4", "x"])));
}

#[test]
fn parse_parenthesis_moves_operators_up_to_the_parenthesis() {
    let mut operators = queue(&["-", "x", "(", "+"]);
    let mut out = queue(&["1"]);
    assert_eq!(parse_parenthesis(&mut operators, &mut out), Ok(()));
    assert_eq!(operators, queue(&["+"]));
    assert_eq!(out, queue(&["1", "-", "x"]));
}

#[test]
fn parse_parenthesis_moves_the_function_below() {
    let mut operators = queue(&["+", "(", "max", "sin", "("]);
    let mut out = queue(&["1", "2"]);
    assert_eq!(parse_parenthesis(&mut operators, &mut out), Ok(()));
    assert_eq!(operators, queue(&["sin", "("]));
    assert_eq!(out, queue(&["1", "2", "+", "max"]));
}

#[test]
fn parse_parenthesis_leaves_a_second_parenthesis() {
    let mut operators = queue(&["(", "("]);
    let mut out = VecDeque::new();
    assert_eq!(parse_parenthesis(&mut operators, &mut out), Ok(()));
    assert_eq!(operators, queue(&["("]));
    assert_eq!(out, VecDeque::new());
}

#[test]
fn parse_parenthesis_without_opening_empties_the_stack() {
    let mut operators = queue(&["+", "x"]);
    let mut out = queue(&["1"]);
    assert_eq!(parse_parenthesis(&mut operators, &mut out), Err(EvalError::Unbalanced));
    assert_eq!(operators, VecDeque::new());
    assert_eq!(out, queue(&["1", "+", "x"]));
    let mut nothing = VecDeque::new();
    assert_eq!(parse_parenthesis(&mut nothing, &mut out), Err(EvalError::Unbalanced));
    assert_eq!(out, queue(&["1", "+", "x"]));
}

#[test]
fn parse_operator_moves_equal_precedence_only() {
    let mut operators = queue(&["x", "/", "+", "%"]);
    let mut out = queue(&["1"]);
    parse_operator(operator("%"), &mut operators, &mut out);
    assert_eq!(operators, queue(&["%", "+", "%"]));
    assert_eq!(out, queue(&["1", "x", "/"]));
}

#[test]
fn parse_operator_stops_at_a_parenthesis() {
    let mut operators = queue(&["(", "+"]);
    let mut out = queue(&["1"]);
    parse_operator(operator("+"), &mut operators, &mut out);
    assert_eq!(operators, queue(&["+", "(", "+"]));
    assert_eq!(out, queue(&["1"]));
}

#[test]
fn parse_operator_right_associative_moves_nothing() {
    let mut operators = queue(&["^", "^"]);
    let mut out = queue(&["1"]);
    parse_operator(operator("^"), &mut operators, &mut out);
    assert_eq!(operators, queue(&["^", "^", "^"]));
    assert_eq!(out, queue(&["1"]));
    parse_operator(operator("sin"), &mut operators, &mut out);
    assert_eq!(operators, queue(&["sin", "^", "^", "^"]));
}

#[test]
fn parse_operator_left_function_moves_functions() {
    let mut operators = queue(&["sin", "max", "x"]);
    let mut out = VecDeque::new();
    parse_operator(operator("max"), &mut operators, &mut out);
    assert_eq!(operators, queue(&["max", "x"]));
    assert_eq!(out, queue(&["sin", "max"]));
}
