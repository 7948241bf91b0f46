//! What holds of every evaluation, stated over the models of the other
//! modules and proved from their definitions.

use crate::arithmetic::{
    arithmetic_of, computes, Binary64, Calculation, CalculationView, EvalError,
};
use crate::eval::{
    demand, deterministic, evaluates, follows, outcome, single, stack_with, value_with,
};
use crate::lexer::token_stream;
use crate::shunting_yard::{
    close_parenthesis, converts_to, empty_yard, feed, feed_all, gives_way, postfix, postfix_of,
    settle, Yard,
};
use crate::spelling::{is_keyword, is_lexical, is_symbol, lemma_reads_lexical_tokens};
use crate::tokens::{
    function_words, token_views, OperatorType, OperatorView, Token, TokenView,
};
use std::collections::VecDeque;
use vstd::prelude::*;

verus! {


/// An evaluation whose arithmetic follows `oracle` ends as the evaluation
/// under `oracle` does.
pub proof fn lemma_evaluation_follows_oracle(
    arithmetic: spec_fn(CalculationView, Binary64) -> bool,
    oracle: spec_fn(CalculationView) -> Binary64,
    queue: Seq<TokenView>,
    values: Seq<Binary64>,
    result: Result<Seq<Binary64>, EvalError>,
)
    requires
        follows(arithmetic, oracle),
        evaluates(arithmetic, queue, values, result),
    ensures
        result == stack_with(oracle, queue, values),
    decreases queue.len(),
{
    if queue.len() > 0 {
        match demand(queue[0], values) {
            Ok(asked) => {
                let value = choose|value: Binary64| #[trigger]
                    arithmetic(asked.calculation, value) && evaluates(
                        arithmetic,
                        queue.skip(1),
                        asked.rest.push(value),
                        result,
                    );
                lemma_evaluation_follows_oracle(
                    arithmetic,
                    oracle,
                    queue.skip(1),
                    asked.rest.push(value),
                    result,
                );
            },
            Err(_) => {},
        }
    }
}

/// An expression whose arithmetic follows `oracle` has the value that it
/// has under `oracle`, and no other outcome.
pub proof fn lemma_outcome_follows_oracle(
    arithmetic: spec_fn(CalculationView, Binary64) -> bool,
    oracle: spec_fn(CalculationView) -> Binary64,
    text: Seq<char>,
    result: Result<Binary64, EvalError>,
)
    requires
        follows(arithmetic, oracle),
        outcome(arithmetic, text, result),
    ensures
        result == value_with(oracle, text),
{
    match postfix(token_stream(text, 0)) {
        Ok(queue) => {
            let values = choose|values: Result<Seq<Binary64>, EvalError>| #[trigger]
                evaluates(arithmetic, queue, Seq::empty(), values) && result == single(values);
            lemma_evaluation_follows_oracle(arithmetic, oracle, queue, Seq::empty(), values);
        },
        Err(_) => {},
    }
}

/// Evaluating one text twice gives one result: with an arithmetic that has
/// one answer to each calculation, an expression has one outcome. Nothing
/// but the text and the arithmetic enters an evaluation. Of an arithmetic
/// that may answer one calculation in two ways nothing of the kind holds.
pub proof fn lemma_evaluation_is_repeatable(
    arithmetic: spec_fn(CalculationView, Binary64) -> bool,
    text: Seq<char>,
    first: Result<Binary64, EvalError>,
    second: Result<Binary64, EvalError>,
)
    requires
        deterministic(arithmetic),
        outcome(arithmetic, text, first),
        outcome(arithmetic, text, second),
    ensures
        first == second,
{
    let oracle = |calculation: CalculationView|
        choose|value: Binary64| #[trigger] arithmetic(calculation, value);
    assert forall|calculation: CalculationView, value: Binary64| #[trigger]
        arithmetic(calculation, value) implies value == oracle(calculation) by {
        let chosen = oracle(calculation);
        assert(arithmetic(calculation, chosen));
    }
    lemma_outcome_follows_oracle(arithmetic, oracle, text, first);
    lemma_outcome_follows_oracle(arithmetic, oracle, text, second);
}

/// An evaluation by a function that computes its answers ends as the
/// evaluation under what the function computes.
pub proof fn lemma_computed_stack<F: Fn(Calculation) -> Binary64>(
    compute: F,
    model: spec_fn(CalculationView) -> Binary64,
    queue: Seq<TokenView>,
    values: Seq<Binary64>,
    result: Result<Seq<Binary64>, EvalError>,
)
    requires
        computes(compute, model),
        evaluates(arithmetic_of(compute), queue, values, result),
    ensures
        result == stack_with(model, queue, values),
{
    let arithmetic = arithmetic_of(compute);
    assert forall|calculation: CalculationView, value: Binary64| #[trigger]
        arithmetic(calculation, value) implies value == model(calculation) by {
        let asked = choose|asked: Calculation|
            asked@ == calculation && call_ensures(compute, (asked,), value);
        assert(call_ensures(compute, (asked,), value));
    }
    lemma_evaluation_follows_oracle(arithmetic, model, queue, values, result);
}

/// Two evaluations of one text by a function that computes its answers give
/// one result, and that result is the value of the text under what the
/// function computes: the text and the arithmetic decide it, and no call
/// that came before.
pub proof fn lemma_computed_evaluation_is_repeatable<F: Fn(Calculation) -> Binary64>(
    compute: F,
    model: spec_fn(CalculationView) -> Binary64,
    text: Seq<char>,
    first: Result<Binary64, EvalError>,
    second: Result<Binary64, EvalError>,
)
    requires
        computes(compute, model),
        outcome(arithmetic_of(compute), text, first),
        outcome(arithmetic_of(compute), text, second),
    ensures
        first == second,
        first == value_with(model, text),
{
    let arithmetic = arithmetic_of(compute);
    assert forall|calculation: CalculationView, value: Binary64| #[trigger]
        arithmetic(calculation, value) implies value == model(calculation) by {
        let asked = choose|asked: Calculation|
            asked@ == calculation && call_ensures(compute, (asked,), value);
        assert(call_ensures(compute, (asked,), value));
    }
    lemma_outcome_follows_oracle(arithmetic, model, text, first);
    lemma_outcome_follows_oracle(arithmetic, model, text, second);
}

/// An arithmetic that follows an oracle has one answer at most to each
/// calculation.
pub proof fn lemma_follows_is_deterministic(
    arithmetic: spec_fn(CalculationView, Binary64) -> bool,
    oracle: spec_fn(CalculationView) -> Binary64,
)
    requires
        follows(arithmetic, oracle),
    ensures
        deterministic(arithmetic),
{
}

/// Two conversions of one token stream give one queue, or fail in one way:
/// nothing but the tokens enters a conversion.
pub proof fn lemma_conversion_is_repeatable(
    first: Result<VecDeque<Token>, EvalError>,
    second: Result<VecDeque<Token>, EvalError>,
    expected: Result<Seq<TokenView>, EvalError>,
)
    requires
        converts_to(first, expected),
        converts_to(second, expected),
    ensures
        match (first, second) {
            (Ok(one), Ok(other)) => token_views(one@) == token_views(other@),
            (Err(one), Err(other)) => one == other,
            _ => false,
        },
{
}

/// A text that converts to no postfix queue fails in one way, whatever the
/// arithmetic: no calculation is asked for.
pub proof fn lemma_conversion_failure_is_repeatable(
    one: spec_fn(CalculationView, Binary64) -> bool,
    other: spec_fn(CalculationView, Binary64) -> bool,
    text: Seq<char>,
    first: Result<Binary64, EvalError>,
    second: Result<Binary64, EvalError>,
)
    requires
        postfix(token_stream(text, 0)) is Err,
        outcome(one, text, first),
        outcome(other, text, second),
    ensures
        first == second,
        first is Err,
{
}

/// A text that cannot be read to its end has no value: its evaluation fails
/// at the place that is no token, unless a closing parenthesis without an
/// opening one stands before that place.
pub proof fn lemma_unreadable_text_fails(
    arithmetic: spec_fn(CalculationView, Binary64) -> bool,
    text: Seq<char>,
    result: Result<Binary64, EvalError>,
)
    requires
        !token_stream(text, 0).complete,
        outcome(arithmetic, text, result),
    ensures
        result == Err::<Binary64, EvalError>(EvalError::Lex) || result == Err::<
            Binary64,
            EvalError,
        >(EvalError::Unbalanced),
{
    lemma_feeding_fails_unbalanced(empty_yard(), token_stream(text, 0).tokens);
}

/// Feeding tokens to a conversion fails in one way only: at a closing
/// parenthesis that has no opening one.
pub proof fn lemma_feeding_fails_unbalanced(yard: Yard, tokens: Seq<TokenView>)
    ensures
        feed_all(yard, tokens) matches Err(failure) ==> failure == EvalError::Unbalanced,
    decreases tokens.len(),
{
    if tokens.len() > 0 {
        match feed(yard, tokens[0]) {
            Ok(next) => {
                lemma_feeding_fails_unbalanced(next, tokens.skip(1));
            },
            Err(_) => {},
        }
    }
}

/// The numbers among `tokens`, in their order.
pub open spec fn numbers(tokens: Seq<TokenView>) -> Seq<TokenView>
    decreases tokens.len(),
{
    if tokens.len() == 0 {
        Seq::empty()
    } else if tokens.last() is Number {
        numbers(tokens.drop_last()).push(tokens.last())
    } else {
        numbers(tokens.drop_last())
    }
}

/// The numbers of two runs of tokens, one after the other.
proof fn lemma_numbers_concat(first: Seq<TokenView>, second: Seq<TokenView>)
    ensures
        numbers(first + second) == numbers(first) + numbers(second),
    decreases second.len(),
{
    if second.len() == 0 {
        assert(first + second =~= first);
        assert(numbers(first) + numbers(second) =~= numbers(first));
    } else {
        assert((first + second).drop_last() =~= first + second.drop_last());
        assert((first + second).last() == second.last());
        lemma_numbers_concat(first, second.drop_last());
        assert(numbers(first + second) =~= numbers(first) + numbers(second));
    }
}

/// The numbers of a run of tokens are those of its first token and those of
/// the others.
proof fn lemma_numbers_first(tokens: Seq<TokenView>)
    requires
        tokens.len() > 0,
    ensures
        numbers(tokens) == numbers(seq![tokens[0]]) + numbers(tokens.skip(1)),
        numbers(seq![tokens[0]]) == if tokens[0] is Number {
            seq![tokens[0]]
        } else {
            Seq::empty()
        },
{
    let head = seq![tokens[0]];
    assert(tokens =~= head + tokens.skip(1));
    lemma_numbers_concat(head, tokens.skip(1));
    assert(head.drop_last() =~= Seq::empty());
    assert(numbers(head.drop_last()) =~= Seq::empty());
    assert(numbers(head) =~= if tokens[0] is Number {
        seq![tokens[0]]
    } else {
        Seq::empty()
    });
}

/// Pushing a token that is no number adds no number.
proof fn lemma_numbers_push(tokens: Seq<TokenView>, token: TokenView)
    ensures
        numbers(tokens.push(token)) == if token is Number {
            numbers(tokens).push(token)
        } else {
            numbers(tokens)
        },
{
    assert(tokens.push(token).drop_last() =~= tokens);
}

/// Operators that give way take no number with them.
proof fn lemma_settle_keeps_numbers(yard: Yard, incoming: OperatorView)
    requires
        numbers(yard.operators).len() == 0,
    ensures
        numbers(settle(yard, incoming).operators).len() == 0,
        numbers(settle(yard, incoming).output) == numbers(yard.output),
    decreases yard.operators.len(),
{
    if yard.operators.len() > 0 && gives_way(yard.operators[0], incoming) {
        lemma_numbers_first(yard.operators);
        lemma_numbers_push(yard.output, yard.operators[0]);
        lemma_settle_keeps_numbers(
            Yard {
                operators: yard.operators.skip(1),
                output: yard.output.push(yard.operators[0]),
            },
            incoming,
        );
    }
}

/// A closing parenthesis moves no number.
proof fn lemma_close_keeps_numbers(yard: Yard)
    requires
        numbers(yard.operators).len() == 0,
    ensures
        numbers(close_parenthesis(yard).yard.operators).len() == 0,
        numbers(close_parenthesis(yard).yard.output) == numbers(yard.output),
    decreases yard.operators.len(),
{
    if yard.operators.len() > 0 {
        lemma_numbers_first(yard.operators);
        let below = yard.operators.skip(1);
        if yard.operators[0] is ParenthesisLeft {
            if below.len() > 0 {
                lemma_numbers_first(below);
                lemma_numbers_push(yard.output, below[0]);
            }
        } else {
            lemma_numbers_push(yard.output, yard.operators[0]);
            lemma_close_keeps_numbers(
                Yard { operators: below, output: yard.output.push(yard.operators[0]) },
            );
        }
    }
}

/// Feeding tokens to a conversion keeps numbers off the stack and puts
/// them in the output as they come.
proof fn lemma_feed_all_keeps_numbers(yard: Yard, tokens: Seq<TokenView>)
    requires
        numbers(yard.operators).len() == 0,
    ensures
        feed_all(yard, tokens) matches Ok(end) ==> numbers(end.operators).len() == 0 && numbers(
            end.output,
        ) == numbers(yard.output) + numbers(tokens),
    decreases tokens.len(),
{
    if tokens.len() == 0 {
        assert(numbers(yard.output) + numbers(tokens) =~= numbers(yard.output));
    } else {
        let token = tokens[0];
        lemma_numbers_first(tokens);
        match feed(yard, token) {
            Ok(next) => {
                match token {
                    TokenView::Number(_) => {
                        lemma_numbers_push(yard.output, token);
                    },
                    TokenView::ParenthesisLeft => {
                        lemma_numbers_concat(seq![token], yard.operators);
                    },
                    TokenView::ParenthesisRight => {
                        lemma_close_keeps_numbers(yard);
                    },
                    TokenView::Op(operator) => {
                        lemma_settle_keeps_numbers(yard, operator);
                        lemma_numbers_concat(seq![token], settle(yard, operator).operators);
                    },
                }
                lemma_feed_all_keeps_numbers(next, tokens.skip(1));
                assert(numbers(next.output) == numbers(yard.output) + numbers(seq![token]));
                assert((numbers(yard.output) + numbers(seq![token])) + numbers(tokens.skip(1))
                    =~= numbers(yard.output) + (numbers(seq![token]) + numbers(tokens.skip(1))));
            },
            Err(_) => {},
        }
    }
}

/// A conversion keeps the numbers in their order: the postfix queue holds
/// the numbers of the expression, all of them and in the order in which they
/// were written.
pub proof fn lemma_postfix_keeps_numbers(tokens: Seq<TokenView>)
    ensures
        postfix_of(tokens) matches Ok(queue) ==> numbers(queue) == numbers(tokens),
{
    lemma_feed_all_keeps_numbers(empty_yard(), tokens);
    match feed_all(empty_yard(), tokens) {
        Ok(end) => {
            lemma_numbers_concat(end.output, end.operators);
            assert(numbers(end.output) + numbers(end.operators) =~= numbers(end.output));
            assert(numbers(empty_yard().output) + numbers(tokens) =~= numbers(tokens));
        },
        Err(_) => {},
    }
}

/// Whether the kind of `operator` fits its number of operands: sine and
/// cosine take one operand, and every other kind takes two.
pub open spec fn fits(operator: OperatorView) -> bool {
    operator.number_of_operands == 1 <==> operator.op == OperatorType::Sin || operator.op
        == OperatorType::Cos
}

/// Whether `token` is no operator, or one that fits.
pub open spec fn token_fits(token: TokenView) -> bool {
    token matches TokenView::Op(operator) ==> fits(operator)
}

/// Whether every operator among `tokens` fits its number of operands.
pub open spec fn all_fit(tokens: Seq<TokenView>) -> bool {
    forall|i: int| 0 <= i < tokens.len() ==> token_fits(#[trigger] tokens[i])
}

/// Every operator that the lexer reads fits its number of operands.
pub proof fn lemma_read_tokens_fit(text: Seq<char>, from: int)
    ensures
        all_fit(token_stream(text, from).tokens),
{
    let tokens = token_stream(text, from).tokens;
    lemma_reads_lexical_tokens(text, from);
    assert forall|i: int| 0 <= i < tokens.len() implies token_fits(#[trigger] tokens[i]) by {
        assert(is_lexical(tokens[i]));
        if let TokenView::Op(operator) = tokens[i] {
            if !is_symbol(operator) {
                let entry = choose|entry: int| is_keyword(operator, entry);
                assert(function_words()[entry].1 == operator);
            }
        }
    }
}

/// The tail of a run of fitting tokens fits.
proof fn lemma_rest_fits(tokens: Seq<TokenView>)
    requires
        all_fit(tokens),
        tokens.len() > 0,
    ensures
        all_fit(tokens.skip(1)),
        token_fits(tokens[0]),
{
    assert forall|i: int| 0 <= i < tokens.skip(1).len() implies token_fits(
        #[trigger] tokens.skip(1)[i],
    ) by {
        assert(tokens.skip(1)[i] == tokens[i + 1]);
    }
}

/// A conversion that is fed fitting operators holds fitting operators only,
/// on its stack and in its output.
proof fn lemma_feed_all_keeps_fit(yard: Yard, tokens: Seq<TokenView>)
    requires
        all_fit(yard.operators),
        all_fit(yard.output),
        all_fit(tokens),
    ensures
        feed_all(yard, tokens) matches Ok(end) ==> all_fit(end.operators) && all_fit(end.output),
    decreases tokens.len(),
{
    if tokens.len() > 0 {
        let token = tokens[0];
        lemma_rest_fits(tokens);
        match feed(yard, token) {
            Ok(next) => {
                match token {
                    TokenView::ParenthesisRight => {
                        lemma_close_keeps_fit(yard);
                    },
                    TokenView::Op(operator) => {
                        lemma_settle_keeps_fit(yard, operator);
                    },
                    _ => {},
                }
                lemma_feed_all_keeps_fit(next, tokens.skip(1));
            },
            Err(_) => {},
        }
    }
}

/// Operators that give way stay fitting where they go.
proof fn lemma_settle_keeps_fit(yard: Yard, incoming: OperatorView)
    requires
        all_fit(yard.operators),
        all_fit(yard.output),
    ensures
        all_fit(settle(yard, incoming).operators),
        all_fit(settle(yard, incoming).output),
    decreases yard.operators.len(),
{
    if yard.operators.len() > 0 && gives_way(yard.operators[0], incoming) {
        lemma_rest_fits(yard.operators);
        lemma_settle_keeps_fit(
            Yard {
                operators: yard.operators.skip(1),
                output: yard.output.push(yard.operators[0]),
            },
            incoming,
        );
    }
}

/// A closing parenthesis moves fitting operators only.
proof fn lemma_close_keeps_fit(yard: Yard)
    requires
        all_fit(yard.operators),
        all_fit(yard.output),
    ensures
        all_fit(close_parenthesis(yard).yard.operators),
        all_fit(close_parenthesis(yard).yard.output),
    decreases yard.operators.len(),
{
    if yard.operators.len() > 0 {
        let below = yard.operators.skip(1);
        lemma_rest_fits(yard.operators);
        if yard.operators[0] is ParenthesisLeft {
            if below.len() > 0 {
                lemma_rest_fits(below);
            }
        } else {
            lemma_close_keeps_fit(
                Yard { operators: below, output: yard.output.push(yard.operators[0]) },
            );
        }
    }
}

/// The evaluation of a queue of fitting operators never ends in a defect.
proof fn lemma_fitting_queue_has_no_defect(
    arithmetic: spec_fn(CalculationView, Binary64) -> bool,
    queue: Seq<TokenView>,
    values: Seq<Binary64>,
    result: Result<Seq<Binary64>, EvalError>,
)
    requires
        all_fit(queue),
        evaluates(arithmetic, queue, values, result),
    ensures
        result != Err::<Seq<Binary64>, EvalError>(EvalError::Defect),
    decreases queue.len(),
{
    if queue.len() > 0 {
        lemma_rest_fits(queue);
        match demand(queue[0], values) {
            Ok(asked) => {
                let value = choose|value: Binary64| #[trigger]
                    arithmetic(asked.calculation, value) && evaluates(
                        arithmetic,
                        queue.skip(1),
                        asked.rest.push(value),
                        result,
                    );
                lemma_fitting_queue_has_no_defect(
                    arithmetic,
                    queue.skip(1),
                    asked.rest.push(value),
                    result,
                );
            },
            Err(_) => {},
        }
    }
}

/// No text is evaluated to a defect: the operators that the lexer reads
/// fit their operands, and the conversion hands on what it was given.
pub proof fn lemma_text_has_no_defect(
    arithmetic: spec_fn(CalculationView, Binary64) -> bool,
    text: Seq<char>,
    result: Result<Binary64, EvalError>,
)
    requires
        outcome(arithmetic, text, result),
    ensures
        result != Err::<Binary64, EvalError>(EvalError::Defect),
{
    let tokens = token_stream(text, 0).tokens;
    lemma_read_tokens_fit(text, 0);
    lemma_feeding_fails_unbalanced(empty_yard(), tokens);
    lemma_feed_all_keeps_fit(empty_yard(), tokens);
    match postfix(token_stream(text, 0)) {
        Ok(queue) => {
            let end = feed_all(empty_yard(), tokens)->Ok_0;
            assert(queue == end.output + end.operators);
            assert forall|i: int| 0 <= i < queue.len() implies token_fits(#[trigger] queue[i]) by {
                if i < end.output.len() {
                    assert(queue[i] == end.output[i]);
                } else {
                    assert(queue[i] == end.operators[i - end.output.len()]);
                }
            }
            let values = choose|values: Result<Seq<Binary64>, EvalError>| #[trigger]
                evaluates(arithmetic, queue, Seq::empty(), values) && result == single(values);
            lemma_fitting_queue_has_no_defect(arithmetic, queue, Seq::empty(), values);
        },
        Err(_) => {},
    }
}

} // verus!
