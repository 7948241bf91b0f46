//! Conversion of a token stream from infix to postfix order, with one
//! output queue and one stack of waiting operators.

use crate::arithmetic::EvalError;
use crate::lexer::{lemma_next_token_advances, token_stream, Lexer, TokenStream};
use crate::tokens::{
    token_views, Associativity, Operator, OperatorView, Token, TokenView, FUNCTION_PRECEDENCE,
};
use std::collections::VecDeque;
use vstd::prelude::*;

verus! {

/// The state of a conversion: the operators that wait, the one pushed last
/// in front, and the postfix order made so far.
pub ghost struct Yard {
    pub operators: Seq<TokenView>,
    pub output: Seq<TokenView>,
}

/// The state before the first token.
pub open spec fn empty_yard() -> Yard {
    Yard { operators: Seq::empty(), output: Seq::empty() }
}

/// The state that a stack of waiting operators and an output queue make.
pub open spec fn yard_of(operators: Seq<Token>, out: Seq<Token>) -> Yard {
    Yard { operators: token_views(operators), output: token_views(out) }
}

/// Whether the waiting `top` leaves the stack when `incoming` arrives: it
/// is an operator of the same precedence, and `incoming` groups to the left.
/// An operator of another precedence always stays.
pub open spec fn gives_way(top: TokenView, incoming: OperatorView) -> bool {
    top matches TokenView::Op(waiting) && waiting.precedence == incoming.precedence
        && incoming.associativity != Associativity::Right
}

/// Whether `token` is an operator written as a function call.
pub open spec fn is_function(token: TokenView) -> bool {
    token matches TokenView::Op(operator) && operator.precedence == FUNCTION_PRECEDENCE
}

/// The state after every operator on top of the stack that gives way to
/// `incoming` has moved to the output.
pub open spec fn settle(yard: Yard, incoming: OperatorView) -> Yard
    decreases yard.operators.len(),
{
    if yard.operators.len() > 0 && gives_way(yard.operators[0], incoming) {
        settle(
            Yard {
                operators: yard.operators.skip(1),
                output: yard.output.push(yard.operators[0]),
            },
            incoming,
        )
    } else {
        yard
    }
}

/// The state after the operator `incoming`: what gives way has moved to the
/// output, and `incoming` waits on top.
pub open spec fn push_operator(yard: Yard, incoming: OperatorView) -> Yard {
    let settled = settle(yard, incoming);
    Yard { operators: seq![TokenView::Op(incoming)] + settled.operators, output: settled.output }
}

/// What a closing parenthesis leaves behind.
pub ghost struct Closing {
    pub yard: Yard,
    /// Whether an opening parenthesis was found for it.
    pub matched: bool,
}

/// The state after a closing parenthesis. Everything above the nearest
/// opening parenthesis moves to the output and the parenthesis is dropped; a
/// function that waits right below it moves to the output as well, behind
/// its arguments. Without an opening parenthesis the whole stack moves to
/// the output and nothing is matched.
pub open spec fn close_parenthesis(yard: Yard) -> Closing
    decreases yard.operators.len(),
{
    if yard.operators.len() == 0 {
        Closing { yard, matched: false }
    } else if yard.operators[0] is ParenthesisLeft {
        let below = yard.operators.skip(1);
        if below.len() > 0 && is_function(below[0]) {
            Closing {
                yard: Yard { operators: below.skip(1), output: yard.output.push(below[0]) },
                matched: true,
            }
        } else {
            Closing { yard: Yard { operators: below, output: yard.output }, matched: true }
        }
    } else {
        close_parenthesis(
            Yard {
                operators: yard.operators.skip(1),
                output: yard.output.push(yard.operators[0]),
            },
        )
    }
}

/// The state after one more token, or the failure that the token brings.
pub open spec fn feed(yard: Yard, token: TokenView) -> Result<Yard, EvalError> {
    match token {
        TokenView::Number(_) => Ok(
            Yard { operators: yard.operators, output: yard.output.push(token) },
        ),
        TokenView::ParenthesisLeft => Ok(
            Yard { operators: seq![token] + yard.operators, output: yard.output },
        ),
        TokenView::ParenthesisRight => {
            let closing = close_parenthesis(yard);
            if closing.matched {
                Ok(closing.yard)
            } else {
                Err(EvalError::Unbalanced)
            }
        },
        TokenView::Op(operator) => Ok(push_operator(yard, operator)),
    }
}

/// The state after the tokens `tokens`, fed in order, or the first failure.
pub open spec fn feed_all(yard: Yard, tokens: Seq<TokenView>) -> Result<Yard, EvalError>
    decreases tokens.len(),
{
    if tokens.len() == 0 {
        Ok(yard)
    } else {
        match feed(yard, tokens[0]) {
            Ok(next) => feed_all(next, tokens.skip(1)),
            Err(failure) => Err(failure),
        }
    }
}

/// The postfix order of the tokens `tokens`: the output after the last
/// token, followed by the operators that still wait, top first.
pub open spec fn postfix_of(tokens: Seq<TokenView>) -> Result<Seq<TokenView>, EvalError> {
    match feed_all(empty_yard(), tokens) {
        Ok(yard) => Ok(yard.output + yard.operators),
        Err(failure) => Err(failure),
    }
}

/// The postfix order of a token stream. A closing parenthesis without its
/// opening one fails where it stands; a stream that stops before the end of
/// its text fails after the tokens that could be read.
pub open spec fn postfix(stream: TokenStream) -> Result<Seq<TokenView>, EvalError> {
    match postfix_of(stream.tokens) {
        Ok(queue) => if stream.complete {
            Ok(queue)
        } else {
            Err(EvalError::Lex)
        },
        Err(failure) => Err(failure),
    }
}

/// Whether `queue` is the conversion result `expected`.
pub open spec fn converts_to(
    queue: Result<VecDeque<Token>, EvalError>,
    expected: Result<Seq<TokenView>, EvalError>,
) -> bool {
    match expected {
        Ok(tokens) => queue matches Ok(made) && token_views(made@) == tokens,
        Err(failure) => queue matches Err(found) && found == failure,
    }
}

/// Feeding two runs of tokens one after the other is feeding them as one.
pub proof fn lemma_feed_all_concat(
    yard: Yard,
    first: Seq<TokenView>,
    second: Seq<TokenView>,
)
    ensures
        feed_all(yard, first + second) == match feed_all(yard, first) {
            Ok(next) => feed_all(next, second),
            Err(failure) => Err(failure),
        },
    decreases first.len(),
{
    if first.len() == 0 {
    } else {
        assert((first + second).skip(1) =~= first.skip(1) + second);
        match feed(yard, first[0]) {
            Ok(next) => {
                lemma_feed_all_concat(next, first.skip(1), second);
            },
            Err(_) => {},
        }
    }
}

/// Handles a closing parenthesis: moves the operators above the nearest
/// opening parenthesis to `out`, drops the parenthesis, and moves a function
/// that waits below it to `out` too. Fails, with the whole stack moved to
/// `out`, where the stack holds no opening parenthesis.
pub fn parse_parenthesis(operators: &mut VecDeque<Token>, out: &mut VecDeque<Token>) -> (result:
    Result<(), EvalError>)
    ensures
        yard_of(final(operators)@, final(out)@) == close_parenthesis(
            yard_of(old(operators)@, old(out)@),
        ).yard,
        result == if close_parenthesis(yard_of(old(operators)@, old(out)@)).matched {
            Ok::<(), EvalError>(())
        } else {
            Err::<(), EvalError>(EvalError::Unbalanced)
        },
{
    while operators.len() > 0
        invariant
            close_parenthesis(yard_of(operators@, out@)) == close_parenthesis(
                yard_of(old(operators)@, old(out)@),
            ),
        decreases operators@.len(),
    {
        let ghost before = yard_of(operators@, out@);
        let token = operators.pop_front().unwrap();
        assert(token_views(operators@) =~= before.operators.skip(1));
        if let Token::ParenthesisLeft = token {
            if operators.len() > 0 && function_token(&operators[0]) {
                let function = operators.pop_front().unwrap();
                assert(token_views(operators@) =~= before.operators.skip(1).skip(1));
                out.push_back(function);
                assert(token_views(out@) =~= before.output.push(before.operators.skip(1)[0]));
            }
            return Ok(());
        }
        out.push_back(token);
        assert(token_views(out@) =~= before.output.push(before.operators[0]));
    }
    Err(EvalError::Unbalanced)
}

/// Handles an operator: moves the waiting operators that give way to it to
/// `out`, then puts it on top of the stack.
pub fn parse_operator(
    operator: Operator,
    operators: &mut VecDeque<Token>,
    out: &mut VecDeque<Token>,
)
    ensures
        yard_of(final(operators)@, final(out)@) == push_operator(
            yard_of(old(operators)@, old(out)@),
            operator@,
        ),
{
    while operators.len() > 0 && yields(&operators[0], &operator)
        invariant
            settle(yard_of(operators@, out@), operator@) == settle(
                yard_of(old(operators)@, old(out)@),
                operator@,
            ),
        decreases operators@.len(),
    {
        let ghost before = yard_of(operators@, out@);
        let token = operators.pop_front().unwrap();
        out.push_back(token);
        assert(token_views(operators@) =~= before.operators.skip(1));
        assert(token_views(out@) =~= before.output.push(before.operators[0]));
    }
    let ghost settled = yard_of(operators@, out@);
    let ghost incoming = operator@;
    operators.push_front(Token::Op(operator));
    assert(token_views(operators@) =~= seq![TokenView::Op(incoming)] + settled.operators);
}

/// Whether the waiting token `top` gives way to `incoming`.
fn yields(top: &Token, incoming: &Operator) -> (moves: bool)
    ensures
        moves == gives_way(top@, incoming@),
{
    match top {
        Token::Op(waiting) => {
            let groups_right = match incoming.associativity {
                Associativity::Right => true,
                Associativity::Left => false,
            };
            waiting.precedence == incoming.precedence && !groups_right
        },
        _ => false,
    }
}

/// Whether `token` is an operator written as a function call.
fn function_token(token: &Token) -> (found: bool)
    ensures
        found == is_function(token@),
{
    match token {
        Token::Op(operator) => operator.precedence == FUNCTION_PRECEDENCE,
        _ => false,
    }
}

/// Reads `lexer` to its end and gives its tokens in postfix order.
///
/// Fails with [`EvalError::Unbalanced`] at a closing parenthesis that has
/// no opening one, and with [`EvalError::Lex`] where a read of the lexer
/// fails, as [`Lexer::has_failed`] tells. An opening parenthesis that is
/// never closed is no failure here: it stays in the queue. A failure of the
/// lexer before the call is of no account.
pub fn shunting_yard(lexer: Lexer) -> (queue: Result<VecDeque<Token>, EvalError>)
    ensures
        converts_to(queue, postfix(token_stream(lexer.text(), lexer.cursor()))),
{
    let ghost text = lexer.text();
    let ghost whole = token_stream(lexer.text(), lexer.cursor());
    let mut reader = lexer;
    let mut out: VecDeque<Token> = VecDeque::new();
    let mut operators: VecDeque<Token> = VecDeque::new();
    let ghost mut seen: Seq<TokenView> = Seq::empty();
    assert(token_views(out@) =~= Seq::empty());
    assert(token_views(operators@) =~= Seq::empty());
    assert(seen + whole.tokens =~= whole.tokens);
    loop
        invariant
            text == lexer.text(),
            whole == token_stream(lexer.text(), lexer.cursor()),
            reader.text() == text,
            whole.tokens == seen + token_stream(text, reader.cursor()).tokens,
            whole.complete == token_stream(text, reader.cursor()).complete,
            feed_all(empty_yard(), seen) == Ok::<Yard, EvalError>(yard_of(operators@, out@)),
        decreases text.len() - reader.cursor(),
    {
        let ghost from = reader.cursor();
        let ghost yard = yard_of(operators@, out@);
        proof {
            lemma_next_token_advances(text, from);
        }
        match reader.next_token() {
            None => {
                assert(whole.tokens =~= seen);
                if reader.has_failed() {
                    return Err(EvalError::Lex);
                }
                out.append(&mut operators);
                assert(token_views(out@) =~= yard.output + yard.operators);
                return Ok(out);
            },
            Some(token) => {
                let ghost fed = token@;
                let ghost rest = token_stream(text, reader.cursor());
                proof {
                    reveal_with_fuel(feed_all, 2);
                    lemma_feed_all_concat(empty_yard(), seen, seq![fed]);
                    lemma_feed_all_concat(empty_yard(), seen.push(fed), rest.tokens);
                    assert(seq![fed].skip(1) =~= Seq::empty());
                    assert(feed_all(yard, seq![fed]) == feed(yard, fed));
                    assert(seen + seq![fed] =~= seen.push(fed));
                    assert(whole.tokens =~= seen.push(fed) + rest.tokens);
                    seen = seen.push(fed);
                }
                match token {
                    Token::Number(_) => {
                        out.push_back(token);
                        assert(token_views(out@) =~= yard.output.push(fed));
                    },
                    Token::ParenthesisLeft => {
                        operators.push_front(token);
                        assert(token_views(operators@) =~= seq![fed] + yard.operators);
                    },
                    Token::ParenthesisRight => {
                        match parse_parenthesis(&mut operators, &mut out) {
                            Ok(_) => {},
                            Err(failure) => {
                                return Err(failure);
                            },
                        }
                    },
                    Token::Op(operator) => {
                        parse_operator(operator, &mut operators, &mut out);
                    },
                }
            },
        }
    }
}

} // verus!
