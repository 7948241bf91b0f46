//! The lexer: a cursor over the characters of an expression that hands out
//! one token at a time.

use crate::tokens::{
    function_words, get_function_words, get_token_operator, is_operator_char, operator_char,
    symbol_operator, Numeral, NumeralView, Token, TokenView,
};
use vstd::prelude::*;
use vstd::string::*;

verus! {

/// What `str::to_lowercase` makes of a text: its lower-case equivalent
/// under the Unicode rules for case.
pub uninterp spec fn lowercase(text: Seq<char>) -> Seq<char>;

/// `str::to_lowercase` of the standard library. Its result is a function of
/// the text alone; the rules it applies are those of Unicode and fill a
/// table, so the result is named here and not spelled out.
pub assume_specification[ str::to_lowercase ](text: &str) -> (lowered: String)
    ensures
        lowered@ == lowercase(text@),
;

/// Characters that separate tokens and mean nothing else. The comma is one
/// of them: it only sets the arguments of a function call apart for the eye.
pub open spec fn is_separator(c: char) -> bool {
    c == ' ' || c == ',' || c == '\n'
}

/// The ten ASCII digits.
pub open spec fn is_digit(c: char) -> bool {
    '0' <= c && c <= '9'
}

/// Characters that a decimal literal is made of.
pub open spec fn is_numeric(c: char) -> bool {
    is_digit(c) || c == '.'
}

/// The character at index `at`, or the NUL character beyond the text.
pub open spec fn char_at(text: Seq<char>, at: int) -> char {
    if 0 <= at < text.len() {
        text[at]
    } else {
        '\0'
    }
}

/// The first index from `from` on that holds no separator; the length of
/// the text if only separators follow.
pub open spec fn skip_separators(text: Seq<char>, from: int) -> int
    decreases text.len() - from,
{
    if 0 <= from < text.len() && is_separator(text[from]) {
        skip_separators(text, from + 1)
    } else {
        from
    }
}

/// The end of the longest run of digits and decimal points that starts at
/// `from`.
pub open spec fn number_end(text: Seq<char>, from: int) -> int
    decreases text.len() - from,
{
    if 0 <= from < text.len() && is_numeric(text[from]) {
        number_end(text, from + 1)
    } else {
        from
    }
}

/// How many decimal points stand in `text` from `from` up to `to`.
pub open spec fn count_points(text: Seq<char>, from: int, to: int) -> nat
    decreases to - from,
{
    if from >= to {
        0
    } else {
        count_points(text, from, to - 1) + if text[to - 1] == '.' {
            1nat
        } else {
            0nat
        }
    }
}

/// Whether `word` stands in `text` at index `at`, whole.
pub open spec fn has_word(text: Seq<char>, at: int, word: Seq<char>) -> bool {
    0 <= at && at + word.len() <= text.len() && text.subrange(at, at + word.len()) == word
}

/// The index of the first entry of the keyword table, from entry `from` on,
/// whose spelling stands in `text` at `at`.
pub open spec fn first_word(text: Seq<char>, at: int, from: int) -> Option<int>
    decreases function_words().len() - from,
{
    if from < 0 || from >= function_words().len() {
        None
    } else if has_word(text, at, function_words()[from].0) {
        Some(from)
    } else {
        first_word(text, at, from + 1)
    }
}

/// The decimal literal that starts with the digit at `at`, with the index
/// behind it. The literal is the whole run of digits and points; a run with
/// a second point is no number.
pub open spec fn scan_number(text: Seq<char>, at: int) -> Option<(TokenView, int)> {
    let end = number_end(text, at);
    if count_points(text, at, end) <= 1 {
        Some((TokenView::Number(NumeralView::Decimal(text.subrange(at, end))), end))
    } else {
        None
    }
}

/// The constant or keyword that starts at `at`, with the index behind it.
pub open spec fn scan_word(text: Seq<char>, at: int) -> Option<(TokenView, int)> {
    if has_word(text, at, seq!['p', 'i']) {
        Some((TokenView::Number(NumeralView::Pi), at + 2))
    } else if char_at(text, at) == 'e' {
        Some((TokenView::Number(NumeralView::E), at + 1))
    } else {
        match first_word(text, at, 0) {
            Some(entry) => Some(
                (TokenView::Op(function_words()[entry].1), at + function_words()[entry].0.len()),
            ),
            None => None,
        }
    }
}

/// The operator that starts at `at`, with the index behind it: one of the
/// single-character operators, or else a constant or keyword.
pub open spec fn scan_operator(text: Seq<char>, at: int) -> Option<(TokenView, int)> {
    let c = char_at(text, at);
    if is_operator_char(c) {
        Some((TokenView::Op(symbol_operator(c)->0), at + 1))
    } else {
        scan_word(text, at)
    }
}

/// The token that starts at `at`, an index inside the text that holds no
/// separator, with the index behind the token. `None` where no token starts.
pub open spec fn scan(text: Seq<char>, at: int) -> Option<(TokenView, int)> {
    let c = char_at(text, at);
    if c == '(' {
        Some((TokenView::ParenthesisLeft, at + 1))
    } else if c == ')' {
        Some((TokenView::ParenthesisRight, at + 1))
    } else if is_digit(c) {
        scan_number(text, at)
    } else {
        scan_operator(text, at)
    }
}

/// The next token of `text` for a cursor at `from`, with the cursor behind
/// it. `None` at the end of the text, and where the text goes on with
/// something that is no token.
pub open spec fn next_token_at(text: Seq<char>, from: int) -> Option<(TokenView, int)> {
    let at = skip_separators(text, from);
    if at >= text.len() {
        None
    } else {
        scan(text, at)
    }
}

/// Where the cursor rests after a read at `at`, an index that holds no
/// separator, has found no token: behind the run of digits and points that
/// starts there, which is passed over whole, and at `at` where no such run
/// starts.
pub open spec fn rest_of_scan(text: Seq<char>, at: int) -> int {
    if is_digit(char_at(text, at)) {
        number_end(text, at)
    } else {
        at
    }
}

/// Where the cursor rests after a read for a cursor at `from` has found no
/// token: at the end of the text, behind a number with a second point, or
/// on the first character of a word that is no token.
pub open spec fn rest_at(text: Seq<char>, from: int) -> int {
    rest_of_scan(text, skip_separators(text, from))
}

/// Whether a read for a cursor at `from` fails: it finds no token though
/// the text goes on with something that is no separator.
pub open spec fn unreadable_at(text: Seq<char>, from: int) -> bool {
    next_token_at(text, from) is None && skip_separators(text, from) < text.len()
}

/// Whether a read that should give `outcome` did so: the token is the one
/// expected and the cursor stands behind it, or there is no token and the
/// cursor stands at `rest`.
pub open spec fn delivers(
    outcome: Option<(TokenView, int)>,
    token: Option<Token>,
    cursor: int,
    rest: int,
) -> bool {
    match outcome {
        Some((expected, next)) => token matches Some(t) && t@ == expected && cursor == next,
        None => token is None && cursor == rest,
    }
}

/// The tokens of a text from some cursor on, up to its end or up to the
/// first place where no token can be read.
pub ghost struct TokenStream {
    pub tokens: Seq<TokenView>,
    /// Whether the tokens reach the end of the text.
    pub complete: bool,
}

/// Everything that a lexer with its cursor at `from` hands out, call after
/// call.
pub open spec fn token_stream(text: Seq<char>, from: int) -> TokenStream
    decreases text.len() - from,
    via token_stream_decreases
{
    match next_token_at(text, from) {
        Some((token, next)) => {
            let rest = token_stream(text, next);
            TokenStream { tokens: seq![token] + rest.tokens, complete: rest.complete }
        },
        None => TokenStream { tokens: Seq::empty(), complete: !unreadable_at(text, from) },
    }
}

#[via_fn]
proof fn token_stream_decreases(text: Seq<char>, from: int) {
    lemma_next_token_advances(text, from);
}

/// Skipping separators moves forward, stays inside the text, passes
/// separators only and stops at the end or at another character.
pub proof fn lemma_skip_separators(text: Seq<char>, from: int)
    requires
        0 <= from <= text.len(),
    ensures
        from <= skip_separators(text, from) <= text.len(),
        skip_separators(text, from) < text.len() ==> !is_separator(
            text[skip_separators(text, from)],
        ),
        forall|i: int| from <= i < skip_separators(text, from) ==> is_separator(text[i]),
        skip_separators(text, skip_separators(text, from)) == skip_separators(text, from),
    decreases text.len() - from,
{
    if from < text.len() && is_separator(text[from]) {
        lemma_skip_separators(text, from + 1);
    }
}

/// The run of a number stays inside the text, holds digits and points only
/// and cannot be made longer.
pub proof fn lemma_number_end(text: Seq<char>, from: int)
    requires
        0 <= from <= text.len(),
    ensures
        from <= number_end(text, from) <= text.len(),
        number_end(text, from) < text.len() ==> !is_numeric(text[number_end(text, from)]),
        forall|i: int| from <= i < number_end(text, from) ==> is_numeric(text[i]),
        from < text.len() && is_numeric(text[from]) ==> from < number_end(text, from),
    decreases text.len() - from,
{
    if from < text.len() && is_numeric(text[from]) {
        lemma_number_end(text, from + 1);
    }
}

/// A keyword that is found is an entry of the table at or behind `from`,
/// its spelling stands at `at`, and no entry between `from` and it does.
pub proof fn lemma_first_word(text: Seq<char>, at: int, from: int)
    requires
        0 <= from,
    ensures
        match first_word(text, at, from) {
            Some(entry) => from <= entry < function_words().len() && has_word(
                text,
                at,
                function_words()[entry].0,
            ) && forall|j: int| from <= j < entry ==> !has_word(text, at, function_words()[j].0),
            None => forall|j: int|
                from <= j < function_words().len() ==> !has_word(text, at, function_words()[j].0),
        },
    decreases function_words().len() - from,
{
    if from < function_words().len() && !has_word(text, at, function_words()[from].0) {
        lemma_first_word(text, at, from + 1);
    }
}

/// A token that is read ends behind the place where the cursor stood, and
/// inside the text.
pub proof fn lemma_next_token_advances(text: Seq<char>, from: int)
    ensures
        next_token_at(text, from) matches Some((_, next)) ==> from < next <= text.len(),
{
    if 0 <= from <= text.len() {
        lemma_skip_separators(text, from);
    }
    let at = skip_separators(text, from);
    if 0 <= at < text.len() {
        lemma_number_end(text, at);
    }
    lemma_first_word(text, at, 0);
}

/// Whether `literal` is a decimal literal as the lexer reads one: digits
/// and at most one decimal point, with a digit in front.
pub open spec fn is_decimal(literal: Seq<char>) -> bool {
    &&& literal.len() > 0
    &&& is_digit(literal[0])
    &&& forall|i: int| 0 <= i < literal.len() ==> is_numeric(#[trigger] literal[i])
    &&& count_points(literal, 0, literal.len() as int) <= 1
}

/// Whether `run` holds separators only.
pub open spec fn is_blank(run: Seq<char>) -> bool {
    forall|i: int| 0 <= i < run.len() ==> is_separator(#[trigger] run[i])
}

/// Separators from `from` up to `at`, and none at `at`, are skipped up to
/// `at`.
pub proof fn lemma_skips_to(text: Seq<char>, from: int, at: int)
    requires
        0 <= from <= at <= text.len(),
        forall|i: int| from <= i < at ==> is_separator(#[trigger] text[i]),
        at < text.len() ==> !is_separator(text[at]),
    ensures
        skip_separators(text, from) == at,
    decreases at - from,
{
    if from < at {
        lemma_skips_to(text, from + 1, at);
    }
}

/// Digits and points from `at` up to `end`, and neither at `end`, are one
/// run.
pub proof fn lemma_number_ends_at(text: Seq<char>, at: int, end: int)
    requires
        0 <= at <= end <= text.len(),
        forall|i: int| at <= i < end ==> is_numeric(#[trigger] text[i]),
        end < text.len() ==> !is_numeric(text[end]),
    ensures
        number_end(text, at) == end,
    decreases end - at,
{
    if at < end {
        lemma_number_ends_at(text, at + 1, end);
    }
}

/// Two stretches of text that hold the same characters hold the same
/// number of decimal points.
pub proof fn lemma_count_points_agree(
    first: Seq<char>,
    from: int,
    second: Seq<char>,
    start: int,
    length: int,
)
    requires
        0 <= length,
        0 <= from,
        from + length <= first.len(),
        0 <= start,
        start + length <= second.len(),
        first.subrange(from, from + length) == second.subrange(start, start + length),
    ensures
        count_points(first, from, from + length) == count_points(second, start, start + length),
    decreases length,
{
    if length > 0 {
        let common = first.subrange(from, from + length);
        assert(first.subrange(from, from + length - 1) =~= common.subrange(0, length - 1));
        assert(second.subrange(start, start + length - 1) =~= common.subrange(0, length - 1));
        assert(first[from + length - 1] == common[length - 1]);
        assert(second[start + length - 1] == second.subrange(start, start + length)[length - 1]);
        lemma_count_points_agree(first, from, second, start, length - 1);
    }
}

/// A decimal literal that stands at `at`, behind separators only, and has
/// no digit or point behind it is read as one number.
pub proof fn lemma_reads_number(text: Seq<char>, from: int, at: int, literal: Seq<char>)
    requires
        0 <= from <= at,
        at + literal.len() <= text.len(),
        forall|i: int| from <= i < at ==> is_separator(#[trigger] text[i]),
        is_decimal(literal),
        text.subrange(at, at + literal.len()) == literal,
        at + literal.len() < text.len() ==> !is_numeric(text[at + literal.len()]),
    ensures
        next_token_at(text, from) == Some(
            (TokenView::Number(NumeralView::Decimal(literal)), at + literal.len()),
        ),
{
    let end = at + literal.len();
    assert forall|i: int| at <= i < end implies is_numeric(#[trigger] text[i]) by {
        assert(text[i] == text.subrange(at, end)[i - at]);
    }
    assert(text[at] == text.subrange(at, end)[0]);
    lemma_skips_to(text, from, at);
    lemma_number_ends_at(text, at, end);
    assert(literal.subrange(0, literal.len() as int) =~= literal);
    lemma_count_points_agree(text, at, literal, 0, literal.len() as int);
}

/// An operator character that stands at `at`, behind separators only, is
/// read as its operator.
pub proof fn lemma_reads_symbol(text: Seq<char>, from: int, at: int)
    requires
        0 <= from <= at < text.len(),
        forall|i: int| from <= i < at ==> is_separator(#[trigger] text[i]),
        is_operator_char(text[at]),
    ensures
        next_token_at(text, from) == Some(
            (TokenView::Op(symbol_operator(text[at])->0), at + 1),
        ),
{
    lemma_skips_to(text, from, at);
}

/// Behind the last token, separators only lead to the end of the text.
pub proof fn lemma_reads_end(text: Seq<char>, from: int)
    requires
        0 <= from <= text.len(),
        forall|i: int| from <= i < text.len() ==> is_separator(#[trigger] text[i]),
    ensures
        token_stream(text, from) == (TokenStream { tokens: Seq::empty(), complete: true }),
{
    lemma_skips_to(text, from, text.len() as int);
}

/// A cursor over the characters of an expression.
///
/// The cursor never leaves the text. A read that finds no token has either
/// reached the end of the text or failed on something that is no token; the
/// lexer remembers which, and [`Lexer::has_failed`] tells. The place of the
/// cursor does not: a number with a second decimal point is passed over
/// whole, and may well be the last thing in the text.
#[derive(Debug)]
pub struct Lexer {
    data: String,
    length: usize,
    position: usize,
    unreadable: bool,
}

impl Lexer {
    #[verifier::type_invariant]
    spec fn well_formed(&self) -> bool {
        self.length == self.data@.len() && self.position <= self.length
    }

    /// The text that the lexer reads.
    pub closed spec fn text(&self) -> Seq<char> {
        self.data@
    }

    /// The index of the next character to be read.
    pub closed spec fn cursor(&self) -> int {
        self.position as int
    }

    /// Whether the last read failed: it found no token, and not because the
    /// text had ended. A lexer that has not read yet has not failed.
    pub closed spec fn failed(&self) -> bool {
        self.unreadable
    }

    /// A lexer at the start of `data` turned to lower case, so that keywords
    /// are found however they are capitalised.
    pub fn new(data: String) -> (lexer: Lexer)
        ensures
            lexer.text() == lowercase(data@),
            lexer.cursor() == 0,
            !lexer.failed(),
    {
        Lexer::verbatim(data.as_str().to_lowercase())
    }

    /// A lexer at the start of `data`, taken as it is.
    pub fn verbatim(data: String) -> (lexer: Lexer)
        ensures
            lexer.text() == data@,
            lexer.cursor() == 0,
            !lexer.failed(),
    {
        let length = data.as_str().unicode_len();
        Lexer { data, length, position: 0, unreadable: false }
    }

    /// Whether the last read failed; see [`Lexer::failed`].
    pub fn has_failed(&self) -> (failed: bool)
        ensures
            failed == self.failed(),
    {
        self.unreadable
    }

    /// Whether the cursor stands at the end of the text.
    pub fn exhausted(&self) -> (done: bool)
        ensures
            done == (self.cursor() >= self.text().len()),
            0 <= self.cursor() <= self.text().len(),
    {
        proof {
            use_type_invariant(self);
        }
        self.position >= self.length
    }

    /// The character under the cursor; NUL at the end of the text.
    pub fn curr_char(&self) -> (c: char)
        ensures
            c == char_at(self.text(), self.cursor()),
    {
        proof {
            use_type_invariant(self);
        }
        if self.position < self.length {
            self.data.as_str().get_char(self.position)
        } else {
            '\0'
        }
    }

    /// The character `offset` places behind the cursor; NUL beyond the text.
    pub fn next_char(&self, offset: usize) -> (c: char)
        ensures
            c == char_at(self.text(), self.cursor() + offset),
    {
        proof {
            use_type_invariant(self);
        }
        if offset < self.length - self.position {
            self.data.as_str().get_char(self.position + offset)
        } else {
            '\0'
        }
    }

    /// The next `length` characters from the cursor on; fewer where the text
    /// ends before.
    pub fn next_chars(&self, length: usize) -> (window: String)
        ensures
            window@ == self.text().subrange(
                self.cursor(),
                if self.cursor() + length <= self.text().len() {
                    self.cursor() + length
                } else {
                    self.text().len() as int
                },
            ),
    {
        proof {
            use_type_invariant(self);
        }
        let end = if length <= self.length - self.position {
            self.position + length
        } else {
            self.length
        };
        String::from_str(self.data.as_str().substring_char(self.position, end))
    }

    /// Reads the decimal literal that starts with the digit under the
    /// cursor. The cursor passes over the whole run of digits and points,
    /// whether the run is a number or not.
    fn parse_number(&mut self) -> (token: Option<Token>)
        requires
            is_digit(char_at(old(self).text(), old(self).cursor())),
        ensures
            final(self).text() == old(self).text(),
            final(self).failed() == old(self).failed(),
            final(self).cursor() == number_end(old(self).text(), old(self).cursor()),
            delivers(
                scan_number(old(self).text(), old(self).cursor()),
                token,
                final(self).cursor(),
                number_end(old(self).text(), old(self).cursor()),
            ),
    {
        proof {
            use_type_invariant(&*self);
        }
        let start = self.position;
        let mut end = start;
        let mut points: usize = 0;
        while end < self.length && numeric_char(self.data.as_str().get_char(end))
            invariant
                self.length == self.data@.len(),
                start <= end <= self.length,
                points <= end - start,
                points == count_points(self.data@, start as int, end as int),
                number_end(self.data@, end as int) == number_end(self.data@, start as int),
            decreases self.length - end,
        {
            if self.data.as_str().get_char(end) == '.' {
                points += 1;
            }
            end += 1;
        }
        self.position = end;
        if points <= 1 {
            let literal = String::from_str(self.data.as_str().substring_char(start, end));
            Some(Token::Number(Numeral::Decimal(literal)))
        } else {
            None
        }
    }

    /// Reads the constant or keyword under the cursor.
    fn parse_words(&mut self) -> (token: Option<Token>)
        ensures
            final(self).text() == old(self).text(),
            final(self).failed() == old(self).failed(),
            delivers(
                scan_word(old(self).text(), old(self).cursor()),
                token,
                final(self).cursor(),
                old(self).cursor(),
            ),
    {
        proof {
            use_type_invariant(&*self);
        }
        let c = self.curr_char();
        if c == 'p' && self.next_char(1) == 'i' {
            assert(self.data@.subrange(self.position as int, self.position + 2) =~= seq!['p', 'i']);
            self.position += 2;
            return Some(Token::Number(Numeral::Pi));
        }
        assert(!has_word(self.data@, self.position as int, seq!['p', 'i'])) by {
            if has_word(self.data@, self.position as int, seq!['p', 'i']) {
                let word = self.data@.subrange(self.position as int, self.position + 2);
                assert(word[0] == 'p' && word[1] == 'i');
            }
        }
        if c == 'e' {
            self.position += 1;
            return Some(Token::Number(Numeral::E));
        }
        let words = get_function_words();
        let mut entry: usize = 0;
        while entry < words.len()
            invariant
                self.length == self.data@.len(),
                self.position <= self.length,
                self.data@ == old(self).data@,
                self.position == old(self).position,
                self.unreadable == old(self).unreadable,
                !has_word(self.data@, self.position as int, seq!['p', 'i']),
                char_at(self.data@, self.position as int) != 'e',
                entry <= words@.len() == function_words().len(),
                forall|i: int|
                    0 <= i < words@.len() ==> (#[trigger] words@[i]).0@ == function_words()[i].0
                        && words@[i].1@ == function_words()[i].1,
                first_word(self.data@, self.position as int, entry as int) == first_word(
                    self.data@,
                    self.position as int,
                    0,
                ),
            decreases words.len() - entry,
        {
            let key = words[entry].0;
            let length = key.unicode_len();
            let window = self.next_chars(length);
            if window == String::from_str(key) {
                let operator = words[entry].1.duplicate();
                assert(has_word(
                    self.data@,
                    self.position as int,
                    function_words()[entry as int].0,
                ));
                self.position += length;
                return Some(Token::Op(operator));
            }
            assert(!has_word(self.data@, self.position as int, function_words()[entry as int].0));
            entry += 1;
        }
        None
    }

    /// Reads the operator under the cursor: a single character, or else a
    /// constant or keyword.
    fn parse_operator(&mut self) -> (token: Option<Token>)
        ensures
            final(self).text() == old(self).text(),
            final(self).failed() == old(self).failed(),
            delivers(
                scan_operator(old(self).text(), old(self).cursor()),
                token,
                final(self).cursor(),
                old(self).cursor(),
            ),
    {
        proof {
            use_type_invariant(&*self);
        }
        let c = self.curr_char();
        if operator_char(c) {
            self.position += 1;
            get_token_operator(c)
        } else {
            self.parse_words()
        }
    }

    /// Reads the token that starts with `c`, the character under the cursor.
    fn parse_char(&mut self, c: char) -> (token: Option<Token>)
        requires
            c == char_at(old(self).text(), old(self).cursor()),
            !is_separator(c),
        ensures
            final(self).text() == old(self).text(),
            final(self).failed() == old(self).failed(),
            delivers(
                scan(old(self).text(), old(self).cursor()),
                token,
                final(self).cursor(),
                rest_of_scan(old(self).text(), old(self).cursor()),
            ),
    {
        proof {
            use_type_invariant(&*self);
        }
        if c == '(' {
            self.position += 1;
            Some(Token::ParenthesisLeft)
        } else if c == ')' {
            self.position += 1;
            Some(Token::ParenthesisRight)
        } else if digit_char(c) {
            self.parse_number()
        } else {
            self.parse_operator()
        }
    }

    /// Hands out the next token and moves the cursor behind it.
    ///
    /// Separators before the token are passed over. The result is `None` at
    /// the end of the text, and also where the text goes on with something
    /// that is no token: the read has then failed, and
    /// [`Lexer::has_failed`] says so until the next read. After a failure
    /// the cursor rests behind the run of digits and points that was no
    /// number, or on the first character of the word that is no token.
    pub fn next_token(&mut self) -> (token: Option<Token>)
        ensures
            final(self).text() == old(self).text(),
            0 <= final(self).cursor() <= final(self).text().len(),
            final(self).failed() == unreadable_at(old(self).text(), old(self).cursor()),
            delivers(
                next_token_at(old(self).text(), old(self).cursor()),
                token,
                final(self).cursor(),
                rest_at(old(self).text(), old(self).cursor()),
            ),
    {
        proof {
            use_type_invariant(&*self);
            lemma_next_token_advances(self.data@, self.position as int);
            lemma_skip_separators(self.data@, self.position as int);
        }
        while self.position < self.length && separator_char(
            self.data.as_str().get_char(self.position),
        )
            invariant
                self.length == self.data@.len(),
                self.position <= self.length,
                self.data@ == old(self).data@,
                skip_separators(self.data@, self.position as int) == skip_separators(
                    old(self).data@,
                    old(self).position as int,
                ),
            decreases self.length - self.position,
        {
            self.position += 1;
        }
        if self.position >= self.length {
            self.unreadable = false;
            return None;
        }
        let c = self.curr_char();
        let token = self.parse_char(c);
        proof {
            use_type_invariant(&*self);
        }
        self.unreadable = token.is_none();
        token
    }

    /// The next token, as [`Lexer::next_token`] gives it.
    pub fn next(&mut self) -> (token: Option<Token>)
        ensures
            final(self).text() == old(self).text(),
            0 <= final(self).cursor() <= final(self).text().len(),
            final(self).failed() == unreadable_at(old(self).text(), old(self).cursor()),
            delivers(
                next_token_at(old(self).text(), old(self).cursor()),
                token,
                final(self).cursor(),
                rest_at(old(self).text(), old(self).cursor()),
            ),
    {
        self.next_token()
    }
}

/// Whether `c` separates tokens.
fn separator_char(c: char) -> (found: bool)
    ensures
        found == is_separator(c),
{
    c == ' ' || c == ',' || c == '\n'
}

/// Whether `c` is an ASCII digit.
fn digit_char(c: char) -> (found: bool)
    ensures
        found == is_digit(c),
{
    '0' <= c && c <= '9'
}

/// Whether `c` can stand in a decimal literal.
fn numeric_char(c: char) -> (found: bool)
    ensures
        found == is_numeric(c),
{
    digit_char(c) || c == '.'
}

} // verus!
