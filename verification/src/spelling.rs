//! How tokens are written, and the proof that the lexer reads back what was
//! written: an expression spelled token by token, with separators between
//! the tokens, is read as those tokens and to its end. The other way round,
//! every token that is read is one that can be written.

use crate::arithmetic::{Binary64, CalculationView};
use crate::eval::{tokens_value, value_with};
use crate::lexer::{
    first_word, has_word, is_blank, is_decimal, is_numeric, is_separator, lemma_count_points_agree,
    lemma_first_word, lemma_next_token_advances, lemma_number_end, lemma_reads_end,
    lemma_reads_number, lemma_reads_symbol, lemma_skip_separators, lemma_skips_to, next_token_at,
    number_end, skip_separators, token_stream, TokenStream,
};
use crate::tokens::{function_words, symbol_operator, NumeralView, OperatorView, TokenView};
use vstd::prelude::*;

verus! {

/// How a token is written.
pub open spec fn spelling(token: TokenView) -> Seq<char> {
    match token {
        TokenView::Number(NumeralView::Decimal(text)) => text,
        TokenView::Number(NumeralView::Pi) => seq!['p', 'i'],
        TokenView::Number(NumeralView::E) => seq!['e'],
        TokenView::Op(operator) => operator.literal,
        TokenView::ParenthesisLeft => seq!['('],
        TokenView::ParenthesisRight => seq![')'],
    }
}

/// Whether `operator` is the descriptor of a single operator character.
pub open spec fn is_symbol(operator: OperatorView) -> bool {
    operator.literal.len() == 1 && symbol_operator(operator.literal[0]) == Some(operator)
}

/// Whether `operator` is the descriptor that entry `entry` of the keyword
/// table holds.
pub open spec fn is_keyword(operator: OperatorView, entry: int) -> bool {
    0 <= entry < function_words().len() && function_words()[entry].1 == operator
}

/// Whether `token` is one that the lexer makes: a decimal literal is well
/// formed, and an operator has the descriptor of its spelling.
pub open spec fn is_lexical(token: TokenView) -> bool {
    match token {
        TokenView::Number(NumeralView::Decimal(text)) => is_decimal(text),
        TokenView::Op(operator) => is_symbol(operator) || exists|entry: int|
            is_keyword(operator, entry),
        _ => true,
    }
}

/// Whether `token` ends where its spelling ends when `rest` is written
/// right behind it. A number runs on into a digit or a point, and one star
/// into a second one; nothing else runs on.
pub open spec fn ends_before(token: TokenView, rest: Seq<char>) -> bool {
    match token {
        TokenView::Number(NumeralView::Decimal(_)) => rest.len() == 0 || !is_numeric(rest[0]),
        TokenView::Op(operator) => operator.literal == seq!['*'] ==> rest.len() == 0 || rest[0]
            != '*',
        _ => true,
    }
}

/// A token with the separators that are written before it.
pub ghost struct Lexeme {
    pub gap: Seq<char>,
    pub token: TokenView,
}

/// The text that spells `lexemes` in order, each behind its gap, and ends
/// with `trail`.
pub open spec fn written(lexemes: Seq<Lexeme>, trail: Seq<char>) -> Seq<char>
    decreases lexemes.len(),
{
    if lexemes.len() == 0 {
        trail
    } else {
        lexemes[0].gap + spelling(lexemes[0].token) + written(lexemes.skip(1), trail)
    }
}

/// Whether `lexemes` and `trail` are written so that they can be read
/// back: gaps and trail hold separators only, every token is one that the
/// lexer makes, and none runs on into what follows it.
pub open spec fn well_written(lexemes: Seq<Lexeme>, trail: Seq<char>) -> bool
    decreases lexemes.len(),
{
    if lexemes.len() == 0 {
        is_blank(trail)
    } else {
        &&& is_blank(lexemes[0].gap)
        &&& is_lexical(lexemes[0].token)
        &&& ends_before(lexemes[0].token, written(lexemes.skip(1), trail))
        &&& well_written(lexemes.skip(1), trail)
    }
}

/// The tokens of `lexemes`, in order.
pub open spec fn tokens_of(lexemes: Seq<Lexeme>) -> Seq<TokenView> {
    Seq::new(lexemes.len(), |i: int| lexemes[i].token)
}

/// A keyword that stands at `at`, behind separators only, is read as its
/// operator.
proof fn lemma_reads_keyword(text: Seq<char>, from: int, at: int, entry: int)
    requires
        0 <= from <= at,
        0 <= entry < function_words().len(),
        forall|i: int| from <= i < at ==> is_separator(#[trigger] text[i]),
        has_word(text, at, function_words()[entry].0),
        entry == 1 ==> at + 1 == text.len() || text[at + 1] != '*',
    ensures
        next_token_at(text, from) == Some(
            (TokenView::Op(function_words()[entry].1), at + function_words()[entry].0.len()),
        ),
{
    let word = function_words()[entry].0;
    let found = text.subrange(at, at + word.len());
    assert(found[0] == text[at]);
    assert(text[at] == '*' || text[at] == 's' || text[at] == 'c' || text[at] == 'm');
    lemma_skips_to(text, from, at);
    assert(!has_word(text, at, seq!['p', 'i'])) by {
        if has_word(text, at, seq!['p', 'i']) {
            assert(text.subrange(at, at + 2)[0] == 'p');
        }
    }
    assert forall|j: int| 0 <= j < entry implies !has_word(text, at, function_words()[j].0) by {
        let other = function_words()[j].0;
        if has_word(text, at, other) {
            let seen = text.subrange(at, at + other.len());
            assert(seen[0] == text[at]);
            if j == 0 {
                assert(seen[1] == text[at + 1]);
                if entry > 1 {
                    assert(found[0] == word[0]);
                }
            }
        }
    }
    reveal_with_fuel(first_word, 6);
    assert(first_word(text, at, 0) == Some(entry));
}

/// A token that is written at `from`, behind its gap and before `rest`, is
/// the next token that is read there.
pub proof fn lemma_reads_lexeme(
    text: Seq<char>,
    from: int,
    gap: Seq<char>,
    token: TokenView,
    rest: Seq<char>,
)
    requires
        0 <= from <= text.len(),
        text.subrange(from, text.len() as int) == gap + spelling(token) + rest,
        is_blank(gap),
        is_lexical(token),
        ends_before(token, rest),
    ensures
        next_token_at(text, from) == Some((token, from + gap.len() + spelling(token).len())),
        from + gap.len() + spelling(token).len() + rest.len() == text.len(),
        text.subrange(from + gap.len() + spelling(token).len(), text.len() as int) == rest,
{
    let tail = text.subrange(from, text.len() as int);
    let word = spelling(token);
    let at = from + gap.len();
    let end = at + word.len();
    assert(tail.len() == gap.len() + word.len() + rest.len());
    assert forall|i: int| from <= i < at implies is_separator(#[trigger] text[i]) by {
        assert(text[i] == tail[i - from]);
        assert(tail[i - from] == gap[i - from]);
    }
    assert(text.subrange(at, end) =~= word) by {
        assert forall|i: int| 0 <= i < word.len() implies text.subrange(at, end)[i] == word[i] by {
            assert(text[at + i] == tail[at + i - from]);
        }
    }
    assert(text.subrange(end, text.len() as int) =~= rest) by {
        assert forall|i: int| 0 <= i < rest.len() implies text.subrange(
            end,
            text.len() as int,
        )[i] == rest[i] by {
            assert(text[end + i] == tail[end + i - from]);
        }
    }
    if end < text.len() {
        assert(text[end] == tail[end - from]);
        assert(text[end] == rest[0]);
    }
    if word.len() > 0 {
        assert(text[at] == text.subrange(at, end)[0]);
    }
    match token {
        TokenView::Number(NumeralView::Decimal(literal)) => {
            lemma_reads_number(text, from, at, literal);
        },
        TokenView::Number(NumeralView::Pi) => {
            lemma_skips_to(text, from, at);
            assert(has_word(text, at, seq!['p', 'i']));
        },
        TokenView::Number(NumeralView::E) => {
            lemma_skips_to(text, from, at);
            assert(!has_word(text, at, seq!['p', 'i'])) by {
                if has_word(text, at, seq!['p', 'i']) {
                    assert(text.subrange(at, at + 2)[0] == 'p');
                }
            }
        },
        TokenView::Op(operator) => {
            if is_symbol(operator) {
                lemma_reads_symbol(text, from, at);
                assert(operator.literal =~= seq![operator.literal[0]]);
            } else {
                let entry = choose|entry: int| is_keyword(operator, entry);
                assert(function_words()[entry].0 == operator.literal);
                if entry == 1 && end < text.len() {
                    assert(operator.literal =~= seq!['*']);
                }
                lemma_reads_keyword(text, from, at, entry);
            }
        },
        TokenView::ParenthesisLeft => {
            lemma_skips_to(text, from, at);
        },
        TokenView::ParenthesisRight => {
            lemma_skips_to(text, from, at);
        },
    }
}

/// What is written from `from` on is what is read from `from` on.
pub proof fn lemma_reads_written(
    text: Seq<char>,
    from: int,
    lexemes: Seq<Lexeme>,
    trail: Seq<char>,
)
    requires
        0 <= from <= text.len(),
        text.subrange(from, text.len() as int) == written(lexemes, trail),
        well_written(lexemes, trail),
    ensures
        token_stream(text, from) == (TokenStream { tokens: tokens_of(lexemes), complete: true }),
    decreases lexemes.len(),
{
    if lexemes.len() == 0 {
        assert forall|i: int| from <= i < text.len() implies is_separator(#[trigger] text[i]) by {
            assert(text[i] == text.subrange(from, text.len() as int)[i - from]);
        }
        lemma_reads_end(text, from);
        assert(tokens_of(lexemes) =~= Seq::empty());
    } else {
        let head = lexemes[0];
        let others = lexemes.skip(1);
        let rest = written(others, trail);
        lemma_reads_lexeme(text, from, head.gap, head.token, rest);
        let next = from + head.gap.len() + spelling(head.token).len();
        lemma_reads_written(text, next, others, trail);
        assert(seq![head.token] + tokens_of(others) =~= tokens_of(lexemes));
    }
}

/// An expression that is written token by token is read as those tokens,
/// and to its end.
pub proof fn lemma_reads_back(lexemes: Seq<Lexeme>, trail: Seq<char>)
    requires
        well_written(lexemes, trail),
    ensures
        token_stream(written(lexemes, trail), 0) == (TokenStream {
            tokens: tokens_of(lexemes),
            complete: true,
        }),
{
    let text = written(lexemes, trail);
    assert(text.subrange(0, text.len() as int) =~= text);
    lemma_reads_written(text, 0, lexemes, trail);
}

/// An expression that is written token by token has the value of its
/// tokens: nothing of the spelling but the tokens enters an evaluation.
pub proof fn lemma_written_value(
    oracle: spec_fn(CalculationView) -> Binary64,
    lexemes: Seq<Lexeme>,
    trail: Seq<char>,
)
    requires
        well_written(lexemes, trail),
    ensures
        value_with(oracle, written(lexemes, trail)) == tokens_value(oracle, tokens_of(lexemes)),
{
    lemma_reads_back(lexemes, trail);
}

/// Whether every token of `tokens` is one that the lexer makes.
pub open spec fn all_lexical(tokens: Seq<TokenView>) -> bool {
    forall|i: int| 0 <= i < tokens.len() ==> is_lexical(#[trigger] tokens[i])
}

/// The token that is read at `from` is one that the lexer makes: a number
/// is a well-formed decimal literal, and an operator has the descriptor of
/// its spelling.
pub proof fn lemma_reads_lexical(text: Seq<char>, from: int)
    ensures
        next_token_at(text, from) matches Some((token, _)) ==> is_lexical(token),
{
    if 0 <= from <= text.len() {
        lemma_skip_separators(text, from);
    }
    let at = skip_separators(text, from);
    lemma_first_word(text, at, 0);
    match next_token_at(text, from) {
        Some((TokenView::Number(NumeralView::Decimal(literal)), _)) => {
            let end = number_end(text, at);
            lemma_number_end(text, at);
            assert(literal == text.subrange(at, end));
            assert(literal[0] == text[at]);
            assert forall|i: int| 0 <= i < literal.len() implies is_numeric(
                #[trigger] literal[i],
            ) by {
                assert(literal[i] == text[at + i]);
            }
            assert(literal.subrange(0, literal.len() as int) =~= literal);
            lemma_count_points_agree(text, at, literal, 0, literal.len() as int);
        },
        Some((TokenView::Op(operator), _)) => {
            if !is_symbol(operator) {
                let entry = first_word(text, at, 0)->0;
                assert(is_keyword(operator, entry));
            }
        },
        _ => {},
    }
}

/// Every token that is read is one that the lexer makes.
pub proof fn lemma_reads_lexical_tokens(text: Seq<char>, from: int)
    ensures
        all_lexical(token_stream(text, from).tokens),
    decreases text.len() - from,
{
    match next_token_at(text, from) {
        Some((token, next)) => {
            lemma_next_token_advances(text, from);
            lemma_reads_lexical(text, from);
            lemma_reads_lexical_tokens(text, next);
            let rest = token_stream(text, next).tokens;
            let all = token_stream(text, from).tokens;
            assert(all =~= seq![token] + rest);
            assert forall|i: int| 0 <= i < all.len() implies is_lexical(#[trigger] all[i]) by {
                if i > 0 {
                    assert(all[i] == rest[i - 1]);
                }
            }
        },
        None => {},
    }
}

} // verus!
