//! Evaluation of a postfix queue on a stack of values, and the pipeline from
//! text to value.
//!
//! The arithmetic itself is the caller's: a function from a [`Calculation`]
//! to its value. This module decides which calculations are made, in which
//! order and on which operands, and when an expression has no value.

use crate::arithmetic::{
    accepts_all, answers, arithmetic_of, computes, Binary64, Calculation, CalculationView,
    EvalError,
};
use crate::laws::{lemma_computed_evaluation_is_repeatable, lemma_computed_stack};
use crate::lexer::{lowercase, token_stream, Lexer};
use crate::shunting_yard::{postfix, postfix_of, shunting_yard};
use crate::tokens::{
    token_views, Numeral, NumeralView, Operator, OperatorType, OperatorView, Token, TokenView,
};
use std::collections::VecDeque;
use vstd::prelude::*;

verus! {

/// The calculation that gives a numeral its value.
pub open spec fn numeral_calculation(numeral: NumeralView) -> CalculationView {
    match numeral {
        NumeralView::Decimal(text) => CalculationView::Literal(text),
        NumeralView::Pi => CalculationView::Pi,
        NumeralView::E => CalculationView::E,
    }
}

/// The calculation that an operator stands for on the operands `left` and
/// `right`, or the reason why there is none.
///
/// An operator of one operand takes `right` alone; any other takes both. A
/// missing operand is an [`EvalError::Arity`] failure, a division by either
/// zero an [`EvalError::Arithmetic`] failure. A kind that does not fit the
/// number of operands is an [`EvalError::Defect`].
pub open spec fn operate(
    operator: OperatorView,
    left: Option<Binary64>,
    right: Option<Binary64>,
) -> Result<CalculationView, EvalError> {
    if operator.number_of_operands == 1 {
        match right {
            Some(x) => match operator.op {
                OperatorType::Sin => Ok(CalculationView::Sin(x)),
                OperatorType::Cos => Ok(CalculationView::Cos(x)),
                _ => Err(EvalError::Defect),
            },
            None => Err(EvalError::Arity),
        }
    } else {
        match (left, right) {
            (Some(l), Some(r)) => match operator.op {
                OperatorType::Add => Ok(CalculationView::Add(l, r)),
                OperatorType::Subtract => Ok(CalculationView::Subtract(l, r)),
                OperatorType::Multiply => Ok(CalculationView::Multiply(l, r)),
                OperatorType::Divide => if r.is_zero() {
                    Err(EvalError::Arithmetic)
                } else {
                    Ok(CalculationView::Divide(l, r))
                },
                OperatorType::Exponent => Ok(CalculationView::Exponent(l, r)),
                OperatorType::Modulus => Ok(CalculationView::Modulus(l, r)),
                OperatorType::Max => Ok(CalculationView::Max(l, r)),
                _ => Err(EvalError::Defect),
            },
            _ => Err(EvalError::Arity),
        }
    }
}

/// The value on top of the stack `values`, if there is one.
pub open spec fn top(values: Seq<Binary64>) -> Option<Binary64> {
    if values.len() > 0 {
        Some(values.last())
    } else {
        None
    }
}

/// The stack `values` without its top; an empty stack stays empty.
pub open spec fn below(values: Seq<Binary64>) -> Seq<Binary64> {
    if values.len() > 0 {
        values.drop_last()
    } else {
        values
    }
}

/// What one token of a postfix queue asks for: a calculation, and the stack
/// that its value is pushed on.
pub ghost struct Demand {
    pub calculation: CalculationView,
    pub rest: Seq<Binary64>,
}

/// The stack that `token` leaves of `values` once it has taken its
/// operands: an operator of one operand takes one value, any other operator
/// two, and no token takes more than there is.
pub open spec fn remaining(token: TokenView, values: Seq<Binary64>) -> Seq<Binary64> {
    match token {
        TokenView::Op(operator) => if operator.number_of_operands == 1 {
            below(values)
        } else {
            below(below(values))
        },
        _ => values,
    }
}

/// What `token` asks for on the stack `values`.
///
/// A number asks for its value and leaves the stack alone. An operator of
/// one operand takes the top of the stack; any other operator takes the top
/// as its right operand and the value below as its left one. A parenthesis
/// has no place in a postfix queue.
pub open spec fn demand(token: TokenView, values: Seq<Binary64>) -> Result<Demand, EvalError> {
    match token {
        TokenView::Number(numeral) => Ok(
            Demand { calculation: numeral_calculation(numeral), rest: values },
        ),
        TokenView::Op(operator) => {
            let right = top(values);
            let left = if operator.number_of_operands == 1 {
                None
            } else {
                top(below(values))
            };
            match operate(operator, left, right) {
                Ok(calculation) => Ok(Demand { calculation, rest: remaining(token, values) }),
                Err(failure) => Err(failure),
            }
        },
        _ => Err(EvalError::Unbalanced),
    }
}

/// Whether evaluating `queue` on the stack `values` under `arithmetic` can
/// end in `result`: the stack after the last token, or the first failure.
///
/// `arithmetic` says which values may answer which calculation. Each
/// token's calculation is answered once, and the answer is pushed.
pub open spec fn evaluates(
    arithmetic: spec_fn(CalculationView, Binary64) -> bool,
    queue: Seq<TokenView>,
    values: Seq<Binary64>,
    result: Result<Seq<Binary64>, EvalError>,
) -> bool
    decreases queue.len(),
{
    if queue.len() == 0 {
        result == Ok::<Seq<Binary64>, EvalError>(values)
    } else {
        match demand(queue[0], values) {
            Ok(asked) => exists|value: Binary64| #[trigger]
                arithmetic(asked.calculation, value) && evaluates(
                    arithmetic,
                    queue.skip(1),
                    asked.rest.push(value),
                    result,
                ),
            Err(failure) => result == Err::<Seq<Binary64>, EvalError>(failure),
        }
    }
}

/// The value of an expression whose postfix evaluation ended in `values`:
/// the one value left on the stack. No value, or more than one, is an
/// [`EvalError::Shape`] failure.
pub open spec fn single(values: Result<Seq<Binary64>, EvalError>) -> Result<Binary64, EvalError> {
    match values {
        Ok(stack) => if stack.len() == 1 {
            Ok(stack[0])
        } else {
            Err(EvalError::Shape)
        },
        Err(failure) => Err(failure),
    }
}

/// Whether the expression `text` can have the outcome `result` under
/// `arithmetic`.
///
/// A text that converts to no postfix queue fails as the conversion does.
/// Otherwise the queue is evaluated on an empty stack.
pub open spec fn outcome(
    arithmetic: spec_fn(CalculationView, Binary64) -> bool,
    text: Seq<char>,
    result: Result<Binary64, EvalError>,
) -> bool {
    match postfix(token_stream(text, 0)) {
        Ok(queue) => exists|values: Result<Seq<Binary64>, EvalError>| #[trigger]
            evaluates(arithmetic, queue, Seq::empty(), values) && result == single(values),
        Err(failure) => result == Err::<Binary64, EvalError>(failure),
    }
}

/// Whether `arithmetic` answers every calculation as `oracle` does, and in
/// no other way.
pub open spec fn follows(
    arithmetic: spec_fn(CalculationView, Binary64) -> bool,
    oracle: spec_fn(CalculationView) -> Binary64,
) -> bool {
    forall|calculation: CalculationView, value: Binary64| #[trigger]
        arithmetic(calculation, value) ==> value == oracle(calculation)
}

/// Whether `arithmetic` has one answer at most to each calculation.
pub open spec fn deterministic(arithmetic: spec_fn(CalculationView, Binary64) -> bool) -> bool {
    forall|calculation: CalculationView, first: Binary64, second: Binary64|
        #![trigger arithmetic(calculation, first), arithmetic(calculation, second)]
        arithmetic(calculation, first) && arithmetic(calculation, second) ==> first == second
}

/// The stack after `queue` has been evaluated on the stack `values` with
/// the arithmetic `oracle`, or the first failure.
pub open spec fn stack_with(
    oracle: spec_fn(CalculationView) -> Binary64,
    queue: Seq<TokenView>,
    values: Seq<Binary64>,
) -> Result<Seq<Binary64>, EvalError>
    decreases queue.len(),
{
    if queue.len() == 0 {
        Ok(values)
    } else {
        match demand(queue[0], values) {
            Ok(asked) => stack_with(
                oracle,
                queue.skip(1),
                asked.rest.push(oracle(asked.calculation)),
            ),
            Err(failure) => Err(failure),
        }
    }
}

/// The value of the expression made of `tokens` under the arithmetic
/// `oracle`: the tokens are put in postfix order and evaluated on an empty
/// stack.
pub open spec fn tokens_value(
    oracle: spec_fn(CalculationView) -> Binary64,
    tokens: Seq<TokenView>,
) -> Result<Binary64, EvalError> {
    match postfix_of(tokens) {
        Ok(queue) => single(stack_with(oracle, queue, Seq::empty())),
        Err(failure) => Err(failure),
    }
}

/// The value of the expression `text` under the arithmetic `oracle`.
pub open spec fn value_with(
    oracle: spec_fn(CalculationView) -> Binary64,
    text: Seq<char>,
) -> Result<Binary64, EvalError> {
    match postfix(token_stream(text, 0)) {
        Ok(queue) => single(stack_with(oracle, queue, Seq::empty())),
        Err(failure) => Err(failure),
    }
}

/// The model of a result that holds a stack of values.
pub open spec fn stack_view(result: Result<Vec<Binary64>, EvalError>) -> Result<
    Seq<Binary64>,
    EvalError,
> {
    match result {
        Ok(stack) => Ok(stack@),
        Err(failure) => Err(failure),
    }
}

/// The calculation that an operator stands for on its operands; see
/// [`operate`].
pub fn evaluate_operator(operator: &Operator, left: Option<Binary64>, right: Option<Binary64>) -> (
    result: Result<Calculation, EvalError>)
    ensures
        match operate(operator@, left, right) {
            Ok(expected) => result matches Ok(calculation) && calculation@ == expected,
            Err(failure) => result matches Err(found) && found == failure,
        },
{
    if operator.number_of_operands == 1 {
        let x = match right {
            Some(x) => x,
            None => {
                return Err(EvalError::Arity);
            },
        };
        return match operator.op {
            OperatorType::Sin => Ok(Calculation::Sin(x)),
            OperatorType::Cos => Ok(Calculation::Cos(x)),
            _ => Err(EvalError::Defect),
        };
    }
    let l = match left {
        Some(l) => l,
        None => {
            return Err(EvalError::Arity);
        },
    };
    let r = match right {
        Some(r) => r,
        None => {
            return Err(EvalError::Arity);
        },
    };
    match operator.op {
        OperatorType::Add => Ok(Calculation::Add(l, r)),
        OperatorType::Subtract => Ok(Calculation::Subtract(l, r)),
        OperatorType::Multiply => Ok(Calculation::Multiply(l, r)),
        OperatorType::Divide => {
            if r.is_zero() {
                return Err(EvalError::Arithmetic);
            }
            Ok(Calculation::Divide(l, r))
        },
        OperatorType::Exponent => Ok(Calculation::Exponent(l, r)),
        OperatorType::Modulus => Ok(Calculation::Modulus(l, r)),
        OperatorType::Max => Ok(Calculation::Max(l, r)),
        _ => Err(EvalError::Defect),
    }
}

/// The calculation that gives `numeral` its value.
fn evaluate_numeral(numeral: &Numeral) -> (calculation: Calculation)
    ensures
        calculation@ == numeral_calculation(numeral@),
{
    match numeral {
        Numeral::Decimal(text) => Calculation::Literal(text.clone()),
        Numeral::Pi => Calculation::Pi,
        Numeral::E => Calculation::E,
    }
}

/// Takes the operands of `token` from the stack `numbers` and gives the
/// calculation that `token` asks for; see [`demand`]. The value of that
/// calculation is what the token leaves on the stack.
pub fn evaluate_token(token: &Token, numbers: &mut Vec<Binary64>) -> (result: Result<
    Calculation,
    EvalError,
>)
    ensures
        final(numbers)@ == remaining(token@, old(numbers)@),
        match demand(token@, old(numbers)@) {
            Ok(asked) => result matches Ok(calculation) && calculation@ == asked.calculation,
            Err(failure) => result matches Err(found) && found == failure,
        },
{
    match token {
        Token::Number(numeral) => Ok(evaluate_numeral(numeral)),
        Token::Op(operator) => {
            let right = numbers.pop();
            let left = if operator.number_of_operands == 1 {
                None
            } else {
                numbers.pop()
            };
            evaluate_operator(operator, left, right)
        },
        _ => Err(EvalError::Unbalanced),
    }
}

/// Evaluates the postfix queue `rpn` from left to right on an empty stack
/// and gives the stack that is left, or the first failure.
///
/// Every token asks `compute` for one value, which is pushed: a number for
/// its own, an operator for that of its calculation on the operands it has
/// taken from the stack, as [`evaluate_token`] says. A parenthesis in the
/// queue is an [`EvalError::Unbalanced`] failure.
pub fn evaluate_rpn<F: Fn(Calculation) -> Binary64>(rpn: VecDeque<Token>, compute: &F) -> (result:
    Result<Vec<Binary64>, EvalError>)
    requires
        accepts_all(*compute),
    ensures
        evaluates(arithmetic_of(*compute), token_views(rpn@), Seq::empty(), stack_view(result)),
        forall|model: spec_fn(CalculationView) -> Binary64| #[trigger]
            computes(*compute, model) ==> stack_view(result) == stack_with(
                model,
                token_views(rpn@),
                Seq::empty(),
            ),
{
    let result = evaluate_queue(rpn, compute);
    proof {
        let ghost queue = token_views(rpn@);
        assert forall|model: spec_fn(CalculationView) -> Binary64| #[trigger]
            computes(*compute, model) implies stack_view(result) == stack_with(
            model,
            queue,
            Seq::empty(),
        ) by {
            lemma_computed_stack(*compute, model, queue, Seq::empty(), stack_view(result));
        }
    }
    result
}

/// The loop of [`evaluate_rpn`].
fn evaluate_queue<F: Fn(Calculation) -> Binary64>(rpn: VecDeque<Token>, compute: &F) -> (result:
    Result<Vec<Binary64>, EvalError>)
    requires
        accepts_all(*compute),
    ensures
        evaluates(arithmetic_of(*compute), token_views(rpn@), Seq::empty(), stack_view(result)),
{
    let ghost arithmetic = arithmetic_of(*compute);
    let ghost queue = token_views(rpn@);
    let mut numbers: Vec<Binary64> = Vec::new();
    let mut done: usize = 0;
    assert(queue.skip(0) =~= queue);
    while done < rpn.len()
        invariant
            accepts_all(*compute),
            arithmetic == arithmetic_of(*compute),
            queue == token_views(rpn@),
            done <= rpn@.len(),
            forall|result: Result<Seq<Binary64>, EvalError>| #[trigger]
                evaluates(arithmetic, queue.skip(done as int), numbers@, result) ==> evaluates(
                    arithmetic,
                    queue,
                    Seq::empty(),
                    result,
                ),
        decreases rpn@.len() - done,
    {
        let ghost pending = queue.skip(done as int);
        let ghost values = numbers@;
        assert(pending[0] == rpn@[done as int]@);
        assert(pending.skip(1) =~= queue.skip(done + 1));
        let calculation = match evaluate_token(&rpn[done], &mut numbers) {
            Ok(calculation) => calculation,
            Err(failure) => {
                assert(evaluates(
                    arithmetic,
                    pending,
                    values,
                    Err::<Seq<Binary64>, EvalError>(failure),
                ));
                return Err(failure);
            },
        };
        let ghost asked = Demand { calculation: calculation@, rest: numbers@ };
        assert(demand(pending[0], values) == Ok::<Demand, EvalError>(asked));
        let value = compute(calculation);
        assert(arithmetic(asked.calculation, value)) by {
            assert(answers(*compute, asked.calculation, value));
        }
        numbers.push(value);
        done += 1;
        assert forall|result: Result<Seq<Binary64>, EvalError>| #[trigger]
            evaluates(arithmetic, queue.skip(done as int), numbers@, result) implies evaluates(
            arithmetic,
            queue,
            Seq::empty(),
            result,
        ) by {
            assert(evaluates(arithmetic, pending, values, result));
        }
    }
    assert(queue.skip(done as int) =~= Seq::empty());
    assert(evaluates(
        arithmetic,
        queue.skip(done as int),
        numbers@,
        Ok::<Seq<Binary64>, EvalError>(numbers@),
    ));
    Ok(numbers)
}

/// Evaluates the expression `text`, taken as it is, with `compute` doing the
/// arithmetic.
///
/// The result is one that the answers of `compute` lead to. Where `compute`
/// computes a function of the calculation, the result is the value of the
/// text under that function: the same at every call.
pub fn evaluate<F: Fn(Calculation) -> Binary64>(text: String, compute: F) -> (result: Result<
    Binary64,
    EvalError,
>)
    requires
        accepts_all(compute),
    ensures
        outcome(arithmetic_of(compute), text@, result),
        forall|model: spec_fn(CalculationView) -> Binary64| #[trigger]
            computes(compute, model) ==> result == value_with(model, text@),
{
    let lexer = Lexer::verbatim(text);
    evaluate_tokens(lexer, &compute)
}

/// Evaluates the expression `input`, turned to lower case first, with
/// `compute` doing the arithmetic; see [`evaluate`].
pub fn eval<F: Fn(Calculation) -> Binary64>(input: String, compute: F) -> (result: Result<
    Binary64,
    EvalError,
>)
    requires
        accepts_all(compute),
    ensures
        outcome(arithmetic_of(compute), lowercase(input@), result),
        forall|model: spec_fn(CalculationView) -> Binary64| #[trigger]
            computes(compute, model) ==> result == value_with(model, lowercase(input@)),
{
    let lexer = Lexer::new(input);
    evaluate_tokens(lexer, &compute)
}

/// Converts what `lexer` reads to postfix order and evaluates it.
fn evaluate_tokens<F: Fn(Calculation) -> Binary64>(lexer: Lexer, compute: &F) -> (result: Result<
    Binary64,
    EvalError,
>)
    requires
        accepts_all(*compute),
        lexer.cursor() == 0,
    ensures
        outcome(arithmetic_of(*compute), lexer.text(), result),
        forall|model: spec_fn(CalculationView) -> Binary64| #[trigger]
            computes(*compute, model) ==> result == value_with(model, lexer.text()),
{
    let result = match shunting_yard(lexer) {
        Ok(queue) => {
            let ghost postfix_order = token_views(queue@);
            let stack = evaluate_rpn(queue, compute);
            assert(evaluates(
                arithmetic_of(*compute),
                postfix_order,
                Seq::empty(),
                stack_view(stack),
            ));
            match stack {
                Ok(values) => {
                    if values.len() != 1 {
                        Err(EvalError::Shape)
                    } else {
                        Ok(values[0])
                    }
                },
                Err(failure) => Err(failure),
            }
        },
        Err(failure) => Err(failure),
    };
    proof {
        assert(outcome(arithmetic_of(*compute), lexer.text(), result));
        assert forall|model: spec_fn(CalculationView) -> Binary64| #[trigger]
            computes(*compute, model) implies result == value_with(model, lexer.text()) by {
            lemma_computed_evaluation_is_repeatable(
                *compute,
                model,
                lexer.text(),
                result,
                result,
            );
        }
    }
    result
}

} // verus!
