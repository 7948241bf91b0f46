//! The value of expressions of a given shape: one operation, a chain of
//! two, a function call. A law on a sequence of tokens holds of every text
//! that spells the sequence; the laws whose names end in `_text` say so.

use crate::arithmetic::{Binary64, CalculationView, EvalError};
use crate::eval::{
    below, numeral_calculation, operate, single, stack_with, tokens_value, top, value_with,
};
use crate::shunting_yard::{
    close_parenthesis, empty_yard, feed, feed_all, postfix_of, settle, Yard,
};
use crate::spelling::{lemma_written_value, tokens_of, well_written, written, Lexeme};
use crate::tokens::{
    Associativity, NumeralView, OperatorType, OperatorView, TokenView, FUNCTION_PRECEDENCE,
};
use vstd::prelude::*;

verus! {

/// The value that `oracle` gives to a numeral.
pub open spec fn numeral_value(
    oracle: spec_fn(CalculationView) -> Binary64,
    numeral: NumeralView,
) -> Binary64 {
    oracle(numeral_calculation(numeral))
}

/// The value of the operator `operator` applied to `left` and `right`
/// under `oracle`, or the reason why it has none.
pub open spec fn applied(
    oracle: spec_fn(CalculationView) -> Binary64,
    operator: OperatorView,
    left: Binary64,
    right: Binary64,
) -> Result<Binary64, EvalError> {
    match operate(operator, Some(left), Some(right)) {
        Ok(calculation) => Ok(oracle(calculation)),
        Err(failure) => Err(failure),
    }
}

/// The postfix order of `A op B` is `A B op`.
proof fn lemma_binary_postfix(a: NumeralView, operator: OperatorView, b: NumeralView)
    ensures
        postfix_of(seq![TokenView::Number(a), TokenView::Op(operator), TokenView::Number(b)])
            == Ok::<Seq<TokenView>, EvalError>(
            seq![TokenView::Number(a), TokenView::Number(b), TokenView::Op(operator)],
        ),
{
    let tokens = seq![TokenView::Number(a), TokenView::Op(operator), TokenView::Number(b)];
    let after_a = Yard { operators: Seq::empty(), output: seq![TokenView::Number(a)] };
    let after_op = Yard {
        operators: seq![TokenView::Op(operator)],
        output: seq![TokenView::Number(a)],
    };
    let after_b = Yard {
        operators: seq![TokenView::Op(operator)],
        output: seq![TokenView::Number(a), TokenView::Number(b)],
    };
    assert(feed(empty_yard(), tokens[0]) == Ok::<Yard, EvalError>(after_a)) by {
        assert(empty_yard().output.push(tokens[0]) =~= after_a.output);
    }
    assert(feed(after_a, tokens[1]) == Ok::<Yard, EvalError>(after_op)) by {
        assert(settle(after_a, operator) == after_a);
        assert(seq![TokenView::Op(operator)] + after_a.operators =~= after_op.operators);
    }
    assert(feed(after_op, tokens[2]) == Ok::<Yard, EvalError>(after_b)) by {
        assert(after_op.output.push(tokens[2]) =~= after_b.output);
    }
    assert(feed_all(after_b, tokens.skip(1).skip(1).skip(1)) == Ok::<Yard, EvalError>(after_b));
    assert(feed_all(after_op, tokens.skip(1).skip(1)) == Ok::<Yard, EvalError>(after_b));
    assert(feed_all(after_a, tokens.skip(1)) == Ok::<Yard, EvalError>(after_b));
    assert(feed_all(empty_yard(), tokens) == Ok::<Yard, EvalError>(after_b));
    assert(after_b.output + after_b.operators =~= seq![
        TokenView::Number(a),
        TokenView::Number(b),
        TokenView::Op(operator),
    ]);
}

/// Evaluating `A B op` asks for the value of `A`, for the value of `B` and
/// then for `op` on the two, left operand first.
proof fn lemma_binary_value(
    oracle: spec_fn(CalculationView) -> Binary64,
    a: NumeralView,
    operator: OperatorView,
    b: NumeralView,
)
    requires
        operator.number_of_operands != 1,
    ensures
        single(
            stack_with(
                oracle,
                seq![TokenView::Number(a), TokenView::Number(b), TokenView::Op(operator)],
                Seq::empty(),
            ),
        ) == applied(oracle, operator, numeral_value(oracle, a), numeral_value(oracle, b)),
{
    let queue = seq![TokenView::Number(a), TokenView::Number(b), TokenView::Op(operator)];
    let left = numeral_value(oracle, a);
    let right = numeral_value(oracle, b);
    let one: Seq<Binary64> = seq![left];
    let two: Seq<Binary64> = seq![left, right];
    assert(Seq::<Binary64>::empty().push(left) =~= one);
    assert(one.push(right) =~= two);
    assert(top(two) == Some(right));
    assert(below(two) =~= one);
    assert(top(one) == Some(left));
    assert(below(one) =~= Seq::<Binary64>::empty());
    let rest = queue.skip(1).skip(1).skip(1);
    match operate(operator, Some(left), Some(right)) {
        Ok(calculation) => {
            let last: Seq<Binary64> = seq![oracle(calculation)];
            assert(Seq::<Binary64>::empty().push(oracle(calculation)) =~= last);
            assert(stack_with(oracle, rest, last) == Ok::<Seq<Binary64>, EvalError>(last));
        },
        Err(_) => {},
    }
    assert(stack_with(oracle, queue.skip(1).skip(1), two) == match applied(
        oracle,
        operator,
        left,
        right,
    ) {
        Ok(value) => Ok::<Seq<Binary64>, EvalError>(seq![value]),
        Err(failure) => Err::<Seq<Binary64>, EvalError>(failure),
    });
    assert(stack_with(oracle, queue.skip(1), one) == stack_with(
        oracle,
        queue.skip(1).skip(1),
        two,
    ));
    assert(stack_with(oracle, queue, Seq::empty()) == stack_with(oracle, queue.skip(1), one));
}

/// A single operation between two numbers has the value that the
/// arithmetic gives to that operation on the two numbers: `A op B` becomes
/// `A B op`, and its value is the answer to `op` with the value of `A` as the
/// left operand and the value of `B` as the right one.
pub proof fn lemma_binary_expression(
    oracle: spec_fn(CalculationView) -> Binary64,
    a: NumeralView,
    operator: OperatorView,
    b: NumeralView,
)
    requires
        operator.number_of_operands != 1,
    ensures
        tokens_value(
            oracle,
            seq![TokenView::Number(a), TokenView::Op(operator), TokenView::Number(b)],
        ) == applied(oracle, operator, numeral_value(oracle, a), numeral_value(oracle, b)),
{
    lemma_binary_postfix(a, operator, b);
    lemma_binary_value(oracle, a, operator, b);
}

/// A division whose divisor has the value zero, of either sign, fails as
/// an arithmetic failure, whatever the dividend.
pub proof fn lemma_division_by_zero(
    oracle: spec_fn(CalculationView) -> Binary64,
    a: NumeralView,
    operator: OperatorView,
    b: NumeralView,
)
    requires
        operator.number_of_operands != 1,
        operator.op == OperatorType::Divide,
        numeral_value(oracle, b).is_zero(),
    ensures
        tokens_value(
            oracle,
            seq![TokenView::Number(a), TokenView::Op(operator), TokenView::Number(b)],
        ) == Err::<Binary64, EvalError>(EvalError::Arithmetic),
{
    lemma_binary_expression(oracle, a, operator, b);
}

/// An operator with a number before it and nothing behind it fails for want
/// of an operand.
pub proof fn lemma_dangling_operator(
    oracle: spec_fn(CalculationView) -> Binary64,
    a: NumeralView,
    operator: OperatorView,
)
    requires
        operator.number_of_operands != 1,
    ensures
        tokens_value(oracle, seq![TokenView::Number(a), TokenView::Op(operator)]) == Err::<
            Binary64,
            EvalError,
        >(EvalError::Arity),
{
    let tokens = seq![TokenView::Number(a), TokenView::Op(operator)];
    let after_a = Yard { operators: Seq::empty(), output: seq![TokenView::Number(a)] };
    let after_op = Yard {
        operators: seq![TokenView::Op(operator)],
        output: seq![TokenView::Number(a)],
    };
    assert(feed(empty_yard(), tokens[0]) == Ok::<Yard, EvalError>(after_a)) by {
        assert(empty_yard().output.push(tokens[0]) =~= after_a.output);
    }
    assert(feed(after_a, tokens[1]) == Ok::<Yard, EvalError>(after_op)) by {
        assert(settle(after_a, operator) == after_a);
        assert(seq![TokenView::Op(operator)] + after_a.operators =~= after_op.operators);
    }
    assert(feed_all(after_op, tokens.skip(1).skip(1)) == Ok::<Yard, EvalError>(after_op));
    assert(feed_all(after_a, tokens.skip(1)) == Ok::<Yard, EvalError>(after_op));
    assert(feed_all(empty_yard(), tokens) == Ok::<Yard, EvalError>(after_op));
    assert(after_op.output + after_op.operators =~= tokens);

    let left = numeral_value(oracle, a);
    let one: Seq<Binary64> = seq![left];
    assert(Seq::<Binary64>::empty().push(left) =~= one);
    assert(top(one) == Some(left));
    assert(below(one) =~= Seq::<Binary64>::empty());
    assert(top(below(one)) == None::<Binary64>);
    assert(stack_with(oracle, tokens.skip(1), one) == Err::<Seq<Binary64>, EvalError>(
        EvalError::Arity,
    ));
    assert(stack_with(oracle, tokens, Seq::empty()) == stack_with(oracle, tokens.skip(1), one));
}

/// A chain of two operators groups to the right where the second one is
/// right-associative: `A op B op' C` becomes `A B C op' op` and has the
/// value of `A op (B op' C)`. So `2 ^ 2 ^ 3` is `2 ^ (2 ^ 3)`.
pub proof fn lemma_right_associative_chain(
    oracle: spec_fn(CalculationView) -> Binary64,
    a: NumeralView,
    first: OperatorView,
    b: NumeralView,
    second: OperatorView,
    c: NumeralView,
)
    requires
        first.number_of_operands != 1,
        second.number_of_operands != 1,
        second.associativity == Associativity::Right,
    ensures
        postfix_of(
            seq![
                TokenView::Number(a),
                TokenView::Op(first),
                TokenView::Number(b),
                TokenView::Op(second),
                TokenView::Number(c),
            ],
        ) == Ok::<Seq<TokenView>, EvalError>(
            seq![
                TokenView::Number(a),
                TokenView::Number(b),
                TokenView::Number(c),
                TokenView::Op(second),
                TokenView::Op(first),
            ],
        ),
        tokens_value(
            oracle,
            seq![
                TokenView::Number(a),
                TokenView::Op(first),
                TokenView::Number(b),
                TokenView::Op(second),
                TokenView::Number(c),
            ],
        ) == match applied(oracle, second, numeral_value(oracle, b), numeral_value(oracle, c)) {
            Ok(inner) => applied(oracle, first, numeral_value(oracle, a), inner),
            Err(failure) => Err(failure),
        },
{
    let na = TokenView::Number(a);
    let nb = TokenView::Number(b);
    let nc = TokenView::Number(c);
    let o1 = TokenView::Op(first);
    let o2 = TokenView::Op(second);
    let tokens = seq![na, o1, nb, o2, nc];
    let y1 = Yard { operators: Seq::empty(), output: seq![na] };
    let y2 = Yard { operators: seq![o1], output: seq![na] };
    let y3 = Yard { operators: seq![o1], output: seq![na, nb] };
    let y4 = Yard { operators: seq![o2, o1], output: seq![na, nb] };
    let y5 = Yard { operators: seq![o2, o1], output: seq![na, nb, nc] };
    let t1 = tokens.skip(1);
    let t2 = t1.skip(1);
    let t3 = t2.skip(1);
    let t4 = t3.skip(1);
    let t5 = t4.skip(1);
    assert(feed(empty_yard(), tokens[0]) == Ok::<Yard, EvalError>(y1)) by {
        assert(empty_yard().output.push(na) =~= y1.output);
    }
    assert(feed(y1, t1[0]) == Ok::<Yard, EvalError>(y2)) by {
        assert(settle(y1, first) == y1);
        assert(seq![o1] + y1.operators =~= y2.operators);
    }
    assert(feed(y2, t2[0]) == Ok::<Yard, EvalError>(y3)) by {
        assert(y2.output.push(nb) =~= y3.output);
    }
    assert(feed(y3, t3[0]) == Ok::<Yard, EvalError>(y4)) by {
        assert(settle(y3, second) == y3);
        assert(seq![o2] + y3.operators =~= y4.operators);
    }
    assert(feed(y4, t4[0]) == Ok::<Yard, EvalError>(y5)) by {
        assert(y4.output.push(nc) =~= y5.output);
    }
    assert(feed_all(y5, t5) == Ok::<Yard, EvalError>(y5));
    assert(feed_all(y4, t4) == Ok::<Yard, EvalError>(y5));
    assert(feed_all(y3, t3) == Ok::<Yard, EvalError>(y5));
    assert(feed_all(y2, t2) == Ok::<Yard, EvalError>(y5));
    assert(feed_all(y1, t1) == Ok::<Yard, EvalError>(y5));
    assert(feed_all(empty_yard(), tokens) == Ok::<Yard, EvalError>(y5));
    let queue = seq![na, nb, nc, o2, o1];
    assert(y5.output + y5.operators =~= queue);

    let va = numeral_value(oracle, a);
    let vb = numeral_value(oracle, b);
    let vc = numeral_value(oracle, c);
    let s1: Seq<Binary64> = seq![va];
    let s2: Seq<Binary64> = seq![va, vb];
    let s3: Seq<Binary64> = seq![va, vb, vc];
    let q1 = queue.skip(1);
    let q2 = q1.skip(1);
    let q3 = q2.skip(1);
    let q4 = q3.skip(1);
    let q5 = q4.skip(1);
    assert(Seq::<Binary64>::empty().push(va) =~= s1);
    assert(s1.push(vb) =~= s2);
    assert(s2.push(vc) =~= s3);
    assert(top(s3) == Some(vc));
    assert(below(s3) =~= s2);
    assert(top(s2) == Some(vb));
    assert(below(s2) =~= s1);
    assert(top(s1) == Some(va));
    assert(below(s1) =~= Seq::<Binary64>::empty());
    assert(stack_with(oracle, queue, Seq::empty()) == stack_with(oracle, q1, s1));
    assert(stack_with(oracle, q1, s1) == stack_with(oracle, q2, s2));
    assert(stack_with(oracle, q2, s2) == stack_with(oracle, q3, s3));
    match applied(oracle, second, vb, vc) {
        Ok(inner) => {
            let s4: Seq<Binary64> = seq![va, inner];
            assert(s1.push(inner) =~= s4);
            assert(top(s4) == Some(inner));
            assert(below(s4) =~= s1);
            assert(stack_with(oracle, q3, s3) == stack_with(oracle, q4, s4));
            match applied(oracle, first, va, inner) {
                Ok(outer) => {
                    let s5: Seq<Binary64> = seq![outer];
                    assert(Seq::<Binary64>::empty().push(outer) =~= s5);
                    assert(stack_with(oracle, q5, s5) == Ok::<Seq<Binary64>, EvalError>(s5));
                    assert(stack_with(oracle, q4, s4) == stack_with(oracle, q5, s5));
                },
                Err(failure) => {
                    assert(stack_with(oracle, q4, s4) == Err::<Seq<Binary64>, EvalError>(
                        failure,
                    ));
                },
            }
        },
        Err(failure) => {
            assert(stack_with(oracle, q3, s3) == Err::<Seq<Binary64>, EvalError>(failure));
        },
    }
}

/// A function of one argument is applied to its argument: `f ( A )` becomes
/// `A f`, and its value is the answer to `f` on the value of `A`.
pub proof fn lemma_function_of_one(
    oracle: spec_fn(CalculationView) -> Binary64,
    function: OperatorView,
    a: NumeralView,
)
    requires
        function.precedence == FUNCTION_PRECEDENCE,
        function.number_of_operands == 1,
    ensures
        postfix_of(
            seq![
                TokenView::Op(function),
                TokenView::ParenthesisLeft,
                TokenView::Number(a),
                TokenView::ParenthesisRight,
            ],
        ) == Ok::<Seq<TokenView>, EvalError>(seq![TokenView::Number(a), TokenView::Op(function)]),
        tokens_value(
            oracle,
            seq![
                TokenView::Op(function),
                TokenView::ParenthesisLeft,
                TokenView::Number(a),
                TokenView::ParenthesisRight,
            ],
        ) == match operate(function, None, Some(numeral_value(oracle, a))) {
            Ok(calculation) => Ok::<Binary64, EvalError>(oracle(calculation)),
            Err(failure) => Err::<Binary64, EvalError>(failure),
        },
{
    let f = TokenView::Op(function);
    let open = TokenView::ParenthesisLeft;
    let na = TokenView::Number(a);
    let tokens = seq![f, open, na, TokenView::ParenthesisRight];
    let y1 = Yard { operators: seq![f], output: Seq::empty() };
    let y2 = Yard { operators: seq![open, f], output: Seq::empty() };
    let y3 = Yard { operators: seq![open, f], output: seq![na] };
    let y4 = Yard { operators: Seq::empty(), output: seq![na, f] };
    let t1 = tokens.skip(1);
    let t2 = t1.skip(1);
    let t3 = t2.skip(1);
    let t4 = t3.skip(1);
    assert(feed(empty_yard(), tokens[0]) == Ok::<Yard, EvalError>(y1)) by {
        assert(settle(empty_yard(), function) == empty_yard());
        assert(seq![f] + empty_yard().operators =~= y1.operators);
    }
    assert(feed(y1, t1[0]) == Ok::<Yard, EvalError>(y2)) by {
        assert(seq![open] + y1.operators =~= y2.operators);
    }
    assert(feed(y2, t2[0]) == Ok::<Yard, EvalError>(y3)) by {
        assert(y2.output.push(na) =~= y3.output);
    }
    assert(feed(y3, t3[0]) == Ok::<Yard, EvalError>(y4)) by {
        assert(y3.operators.skip(1) =~= seq![f]);
        assert(y3.operators.skip(1).skip(1) =~= y4.operators);
        assert(y3.output.push(f) =~= y4.output);
        assert(close_parenthesis(y3).yard == y4);
    }
    assert(feed_all(y4, t4) == Ok::<Yard, EvalError>(y4));
    assert(feed_all(y3, t3) == Ok::<Yard, EvalError>(y4));
    assert(feed_all(y2, t2) == Ok::<Yard, EvalError>(y4));
    assert(feed_all(y1, t1) == Ok::<Yard, EvalError>(y4));
    assert(feed_all(empty_yard(), tokens) == Ok::<Yard, EvalError>(y4));
    let queue = seq![na, f];
    assert(y4.output + y4.operators =~= queue);

    let va = numeral_value(oracle, a);
    let s1: Seq<Binary64> = seq![va];
    let q1 = queue.skip(1);
    let q2 = q1.skip(1);
    assert(Seq::<Binary64>::empty().push(va) =~= s1);
    assert(top(s1) == Some(va));
    assert(below(s1) =~= Seq::<Binary64>::empty());
    assert(stack_with(oracle, queue, Seq::empty()) == stack_with(oracle, q1, s1));
    match operate(function, None, Some(va)) {
        Ok(calculation) => {
            let s2: Seq<Binary64> = seq![oracle(calculation)];
            assert(Seq::<Binary64>::empty().push(oracle(calculation)) =~= s2);
            assert(stack_with(oracle, q2, s2) == Ok::<Seq<Binary64>, EvalError>(s2));
            assert(stack_with(oracle, q1, s1) == stack_with(oracle, q2, s2));
        },
        Err(failure) => {
            assert(stack_with(oracle, q1, s1) == Err::<Seq<Binary64>, EvalError>(failure));
        },
    }
}

/// A function of two arguments is applied to them in the order in which
/// they are written: `f ( A B )` becomes `A B f`, and its value is the answer
/// to `f` with the value of `A` as the left operand. A comma between the
/// arguments is no token and changes nothing.
pub proof fn lemma_function_of_two(
    oracle: spec_fn(CalculationView) -> Binary64,
    function: OperatorView,
    a: NumeralView,
    b: NumeralView,
)
    requires
        function.precedence == FUNCTION_PRECEDENCE,
        function.number_of_operands != 1,
    ensures
        postfix_of(
            seq![
                TokenView::Op(function),
                TokenView::ParenthesisLeft,
                TokenView::Number(a),
                TokenView::Number(b),
                TokenView::ParenthesisRight,
            ],
        ) == Ok::<Seq<TokenView>, EvalError>(
            seq![TokenView::Number(a), TokenView::Number(b), TokenView::Op(function)],
        ),
        tokens_value(
            oracle,
            seq![
                TokenView::Op(function),
                TokenView::ParenthesisLeft,
                TokenView::Number(a),
                TokenView::Number(b),
                TokenView::ParenthesisRight,
            ],
        ) == applied(oracle, function, numeral_value(oracle, a), numeral_value(oracle, b)),
{
    let f = TokenView::Op(function);
    let open = TokenView::ParenthesisLeft;
    let na = TokenView::Number(a);
    let nb = TokenView::Number(b);
    let tokens = seq![f, open, na, nb, TokenView::ParenthesisRight];
    let y1 = Yard { operators: seq![f], output: Seq::empty() };
    let y2 = Yard { operators: seq![open, f], output: Seq::empty() };
    let y3 = Yard { operators: seq![open, f], output: seq![na] };
    let y4 = Yard { operators: seq![open, f], output: seq![na, nb] };
    let y5 = Yard { operators: Seq::empty(), output: seq![na, nb, f] };
    let t1 = tokens.skip(1);
    let t2 = t1.skip(1);
    let t3 = t2.skip(1);
    let t4 = t3.skip(1);
    let t5 = t4.skip(1);
    assert(feed(empty_yard(), tokens[0]) == Ok::<Yard, EvalError>(y1)) by {
        assert(settle(empty_yard(), function) == empty_yard());
        assert(seq![f] + empty_yard().operators =~= y1.operators);
    }
    assert(feed(y1, t1[0]) == Ok::<Yard, EvalError>(y2)) by {
        assert(seq![open] + y1.operators =~= y2.operators);
    }
    assert(feed(y2, t2[0]) == Ok::<Yard, EvalError>(y3)) by {
        assert(y2.output.push(na) =~= y3.output);
    }
    assert(feed(y3, t3[0]) == Ok::<Yard, EvalError>(y4)) by {
        assert(y3.output.push(nb) =~= y4.output);
    }
    assert(feed(y4, t4[0]) == Ok::<Yard, EvalError>(y5)) by {
        assert(y4.operators.skip(1) =~= seq![f]);
        assert(y4.operators.skip(1).skip(1) =~= y5.operators);
        assert(y4.output.push(f) =~= y5.output);
        assert(close_parenthesis(y4).yard == y5);
    }
    assert(feed_all(y5, t5) == Ok::<Yard, EvalError>(y5));
    assert(feed_all(y4, t4) == Ok::<Yard, EvalError>(y5));
    assert(feed_all(y3, t3) == Ok::<Yard, EvalError>(y5));
    assert(feed_all(y2, t2) == Ok::<Yard, EvalError>(y5));
    assert(feed_all(y1, t1) == Ok::<Yard, EvalError>(y5));
    assert(feed_all(empty_yard(), tokens) == Ok::<Yard, EvalError>(y5));
    assert(y5.output + y5.operators =~= seq![na, nb, f]);
    lemma_binary_value(oracle, a, function, b);
}

/// A chain of two operators of one precedence groups to the left where the
/// second one is left-associative: `A op B op' C` becomes `A B op C op'`
/// and has the value of `(A op B) op' C`. So `8 - 3 - 2` is `(8 - 3) - 2`.
pub proof fn lemma_left_associative_chain(
    oracle: spec_fn(CalculationView) -> Binary64,
    a: NumeralView,
    first: OperatorView,
    b: NumeralView,
    second: OperatorView,
    c: NumeralView,
)
    requires
        first.number_of_operands != 1,
        second.number_of_operands != 1,
        first.precedence == second.precedence,
        second.associativity == Associativity::Left,
    ensures
        postfix_of(
            seq![
                TokenView::Number(a),
                TokenView::Op(first),
                TokenView::Number(b),
                TokenView::Op(second),
                TokenView::Number(c),
            ],
        ) == Ok::<Seq<TokenView>, EvalError>(
            seq![
                TokenView::Number(a),
                TokenView::Number(b),
                TokenView::Op(first),
                TokenView::Number(c),
                TokenView::Op(second),
            ],
        ),
        tokens_value(
            oracle,
            seq![
                TokenView::Number(a),
                TokenView::Op(first),
                TokenView::Number(b),
                TokenView::Op(second),
                TokenView::Number(c),
            ],
        ) == match applied(oracle, first, numeral_value(oracle, a), numeral_value(oracle, b)) {
            Ok(inner) => applied(oracle, second, inner, numeral_value(oracle, c)),
            Err(failure) => Err(failure),
        },
{
    let na = TokenView::Number(a);
    let nb = TokenView::Number(b);
    let nc = TokenView::Number(c);
    let o1 = TokenView::Op(first);
    let o2 = TokenView::Op(second);
    let tokens = seq![na, o1, nb, o2, nc];
    let y1 = Yard { operators: Seq::empty(), output: seq![na] };
    let y2 = Yard { operators: seq![o1], output: seq![na] };
    let y3 = Yard { operators: seq![o1], output: seq![na, nb] };
    let settled = Yard { operators: Seq::empty(), output: seq![na, nb, o1] };
    let y4 = Yard { operators: seq![o2], output: seq![na, nb, o1] };
    let y5 = Yard { operators: seq![o2], output: seq![na, nb, o1, nc] };
    let t1 = tokens.skip(1);
    let t2 = t1.skip(1);
    let t3 = t2.skip(1);
    let t4 = t3.skip(1);
    let t5 = t4.skip(1);
    assert(feed(empty_yard(), tokens[0]) == Ok::<Yard, EvalError>(y1)) by {
        assert(empty_yard().output.push(na) =~= y1.output);
    }
    assert(feed(y1, t1[0]) == Ok::<Yard, EvalError>(y2)) by {
        assert(settle(y1, first) == y1);
        assert(seq![o1] + y1.operators =~= y2.operators);
    }
    assert(feed(y2, t2[0]) == Ok::<Yard, EvalError>(y3)) by {
        assert(y2.output.push(nb) =~= y3.output);
    }
    assert(feed(y3, t3[0]) == Ok::<Yard, EvalError>(y4)) by {
        assert(y3.operators.skip(1) =~= settled.operators);
        assert(y3.output.push(o1) =~= settled.output);
        assert(settle(settled, second) == settled);
        assert(settle(y3, second) == settled);
        assert(seq![o2] + settled.operators =~= y4.operators);
    }
    assert(feed(y4, t4[0]) == Ok::<Yard, EvalError>(y5)) by {
        assert(y4.output.push(nc) =~= y5.output);
    }
    assert(feed_all(y5, t5) == Ok::<Yard, EvalError>(y5));
    assert(feed_all(y4, t4) == Ok::<Yard, EvalError>(y5));
    assert(feed_all(y3, t3) == Ok::<Yard, EvalError>(y5));
    assert(feed_all(y2, t2) == Ok::<Yard, EvalError>(y5));
    assert(feed_all(y1, t1) == Ok::<Yard, EvalError>(y5));
    assert(feed_all(empty_yard(), tokens) == Ok::<Yard, EvalError>(y5));
    let queue = seq![na, nb, o1, nc, o2];
    assert(y5.output + y5.operators =~= queue);

    let va = numeral_value(oracle, a);
    let vb = numeral_value(oracle, b);
    let vc = numeral_value(oracle, c);
    let s1: Seq<Binary64> = seq![va];
    let s2: Seq<Binary64> = seq![va, vb];
    let q1 = queue.skip(1);
    let q2 = q1.skip(1);
    let q3 = q2.skip(1);
    let q4 = q3.skip(1);
    let q5 = q4.skip(1);
    assert(Seq::<Binary64>::empty().push(va) =~= s1);
    assert(s1.push(vb) =~= s2);
    assert(top(s2) == Some(vb));
    assert(below(s2) =~= s1);
    assert(top(s1) == Some(va));
    assert(below(s1) =~= Seq::<Binary64>::empty());
    assert(stack_with(oracle, queue, Seq::empty()) == stack_with(oracle, q1, s1));
    assert(stack_with(oracle, q1, s1) == stack_with(oracle, q2, s2));
    match applied(oracle, first, va, vb) {
        Ok(inner) => {
            let s3: Seq<Binary64> = seq![inner];
            let s4: Seq<Binary64> = seq![inner, vc];
            assert(Seq::<Binary64>::empty().push(inner) =~= s3);
            assert(s3.push(vc) =~= s4);
            assert(top(s4) == Some(vc));
            assert(below(s4) =~= s3);
            assert(top(s3) == Some(inner));
            assert(below(s3) =~= Seq::<Binary64>::empty());
            assert(stack_with(oracle, q2, s2) == stack_with(oracle, q3, s3));
            assert(stack_with(oracle, q3, s3) == stack_with(oracle, q4, s4));
            match applied(oracle, second, inner, vc) {
                Ok(outer) => {
                    let s5: Seq<Binary64> = seq![outer];
                    assert(Seq::<Binary64>::empty().push(outer) =~= s5);
                    assert(stack_with(oracle, q5, s5) == Ok::<Seq<Binary64>, EvalError>(s5));
                    assert(stack_with(oracle, q4, s4) == stack_with(oracle, q5, s5));
                },
                Err(failure) => {
                    assert(stack_with(oracle, q4, s4) == Err::<Seq<Binary64>, EvalError>(
                        failure,
                    ));
                },
            }
        },
        Err(failure) => {
            assert(stack_with(oracle, q2, s2) == Err::<Seq<Binary64>, EvalError>(failure));
        },
    }
}

/// One operation between two numbers, written as text, has the value that
/// the arithmetic gives to that operation on the two numbers: where the text
/// spells `A op B`, its value is the answer to `op` with the value of `A` as
/// the left operand and the value of `B` as the right one.
pub proof fn lemma_binary_expression_text(
    oracle: spec_fn(CalculationView) -> Binary64,
    lexemes: Seq<Lexeme>,
    trail: Seq<char>,
    a: NumeralView,
    operator: OperatorView,
    b: NumeralView,
)
    requires
        well_written(lexemes, trail),
        tokens_of(lexemes) == seq![
            TokenView::Number(a),
            TokenView::Op(operator),
            TokenView::Number(b),
        ],
        operator.number_of_operands != 1,
    ensures
        value_with(oracle, written(lexemes, trail)) == applied(
            oracle,
            operator,
            numeral_value(oracle, a),
            numeral_value(oracle, b),
        ),
{
    lemma_written_value(oracle, lexemes, trail);
    lemma_binary_expression(oracle, a, operator, b);
}

/// A division of one number by another, written as text, fails as an
/// arithmetic failure where the divisor has the value zero, of either sign:
/// `2 / 0` has no value.
pub proof fn lemma_division_by_zero_text(
    oracle: spec_fn(CalculationView) -> Binary64,
    lexemes: Seq<Lexeme>,
    trail: Seq<char>,
    a: NumeralView,
    operator: OperatorView,
    b: NumeralView,
)
    requires
        well_written(lexemes, trail),
        tokens_of(lexemes) == seq![
            TokenView::Number(a),
            TokenView::Op(operator),
            TokenView::Number(b),
        ],
        operator.number_of_operands != 1,
        operator.op == OperatorType::Divide,
        numeral_value(oracle, b).is_zero(),
    ensures
        value_with(oracle, written(lexemes, trail)) == Err::<Binary64, EvalError>(
            EvalError::Arithmetic,
        ),
{
    lemma_written_value(oracle, lexemes, trail);
    lemma_division_by_zero(oracle, a, operator, b);
}

/// A number and an operator with nothing behind it, written as text, fail
/// for want of an operand: `2 +` has no value.
pub proof fn lemma_dangling_operator_text(
    oracle: spec_fn(CalculationView) -> Binary64,
    lexemes: Seq<Lexeme>,
    trail: Seq<char>,
    a: NumeralView,
    operator: OperatorView,
)
    requires
        well_written(lexemes, trail),
        tokens_of(lexemes) == seq![TokenView::Number(a), TokenView::Op(operator)],
        operator.number_of_operands != 1,
    ensures
        value_with(oracle, written(lexemes, trail)) == Err::<Binary64, EvalError>(
            EvalError::Arity,
        ),
{
    lemma_written_value(oracle, lexemes, trail);
    lemma_dangling_operator(oracle, a, operator);
}

/// An exponent chain, written as text, groups to the right: where the text
/// spells `A op B op' C` and `op'` is right-associative, its value is that
/// of `A op (B op' C)`. So `2 ^ 2 ^ 3` is `2 ^ (2 ^ 3)` and not
/// `(2 ^ 2) ^ 3`.
pub proof fn lemma_right_associative_chain_text(
    oracle: spec_fn(CalculationView) -> Binary64,
    lexemes: Seq<Lexeme>,
    trail: Seq<char>,
    a: NumeralView,
    first: OperatorView,
    b: NumeralView,
    second: OperatorView,
    c: NumeralView,
)
    requires
        well_written(lexemes, trail),
        tokens_of(lexemes) == seq![
            TokenView::Number(a),
            TokenView::Op(first),
            TokenView::Number(b),
            TokenView::Op(second),
            TokenView::Number(c),
        ],
        first.number_of_operands != 1,
        second.number_of_operands != 1,
        second.associativity == Associativity::Right,
    ensures
        value_with(oracle, written(lexemes, trail)) == match applied(
            oracle,
            second,
            numeral_value(oracle, b),
            numeral_value(oracle, c),
        ) {
            Ok(inner) => applied(oracle, first, numeral_value(oracle, a), inner),
            Err(failure) => Err(failure),
        },
{
    lemma_written_value(oracle, lexemes, trail);
    lemma_right_associative_chain(oracle, a, first, b, second, c);
}

/// A call of a function of one argument, written as text, has the value of
/// the function on its argument: where the text spells `f ( A )`, its value
/// is the answer to `f` on the value of `A`.
pub proof fn lemma_function_of_one_text(
    oracle: spec_fn(CalculationView) -> Binary64,
    lexemes: Seq<Lexeme>,
    trail: Seq<char>,
    function: OperatorView,
    a: NumeralView,
)
    requires
        well_written(lexemes, trail),
        tokens_of(lexemes) == seq![
            TokenView::Op(function),
            TokenView::ParenthesisLeft,
            TokenView::Number(a),
            TokenView::ParenthesisRight,
        ],
        function.precedence == FUNCTION_PRECEDENCE,
        function.number_of_operands == 1,
    ensures
        value_with(oracle, written(lexemes, trail)) == match operate(
            function,
            None,
            Some(numeral_value(oracle, a)),
        ) {
            Ok(calculation) => Ok::<Binary64, EvalError>(oracle(calculation)),
            Err(failure) => Err::<Binary64, EvalError>(failure),
        },
{
    lemma_written_value(oracle, lexemes, trail);
    lemma_function_of_one(oracle, function, a);
}

/// A call of a function of two arguments, written as text with a comma or
/// any other separator between the arguments, has the value of the function
/// on its arguments: where the text spells `f ( A , B )`, its value is the
/// answer to `f` with the value of `A` as the left operand.
pub proof fn lemma_function_of_two_text(
    oracle: spec_fn(CalculationView) -> Binary64,
    lexemes: Seq<Lexeme>,
    trail: Seq<char>,
    function: OperatorView,
    a: NumeralView,
    b: NumeralView,
)
    requires
        well_written(lexemes, trail),
        tokens_of(lexemes) == seq![
            TokenView::Op(function),
            TokenView::ParenthesisLeft,
            TokenView::Number(a),
            TokenView::Number(b),
            TokenView::ParenthesisRight,
        ],
        function.precedence == FUNCTION_PRECEDENCE,
        function.number_of_operands != 1,
    ensures
        value_with(oracle, written(lexemes, trail)) == applied(
            oracle,
            function,
            numeral_value(oracle, a),
            numeral_value(oracle, b),
        ),
{
    lemma_written_value(oracle, lexemes, trail);
    lemma_function_of_two(oracle, function, a, b);
}

} // verus!
