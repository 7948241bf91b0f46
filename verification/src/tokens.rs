//! The token vocabulary shared by the lexer, the postfix converter and the
//! evaluator, together with the two tables that map source spellings to
//! operator descriptors.

use vstd::prelude::*;
use vstd::string::*;

verus! {

/// The operation an operator token stands for.
#[derive(Debug, Clone, Copy, PartialEq, Eq, Structural)]
pub enum OperatorType {
    Add,
    Subtract,
    Multiply,
    Divide,
    Exponent,
    Modulus,
    Sin,
    Cos,
    Max,
}

/// How a run of operators of one precedence groups.
#[derive(Debug, Clone, Copy, PartialEq, Eq, Structural)]
pub enum Associativity {
    Left,
    Right,
}

/// Precedence of `+` and `-`.
pub const ADDITIVE_PRECEDENCE: u8 = 2;

/// Precedence of `*`, `/` and `%`.
pub const MULTIPLICATIVE_PRECEDENCE: u8 = 3;

/// Precedence of `^`.
pub const EXPONENT_PRECEDENCE: u8 = 4;

/// Precedence reserved for operators written as a function call, such as
/// `sin(..)`. The converter recognises a call by this level alone.
pub const FUNCTION_PRECEDENCE: u8 = 5;

/// One occurrence of an operator or function in the source text.
#[derive(Debug, Clone, PartialEq, Eq)]
pub struct Operator {
    pub op: OperatorType,
    pub associativity: Associativity,
    pub precedence: u8,
    /// The spelling found in the source; kept for diagnostics only.
    pub literal: String,
    pub number_of_operands: u8,
}

/// Mathematical model of an [`Operator`]: the same fields, with the spelling
/// as a sequence of characters.
pub ghost struct OperatorView {
    pub op: OperatorType,
    pub associativity: Associativity,
    pub precedence: u8,
    pub literal: Seq<char>,
    pub number_of_operands: u8,
}

impl View for Operator {
    type V = OperatorView;

    open spec fn view(&self) -> OperatorView {
        OperatorView {
            op: self.op,
            associativity: self.associativity,
            precedence: self.precedence,
            literal: self.literal@,
            number_of_operands: self.number_of_operands,
        }
    }
}

impl Operator {
    /// A fresh descriptor equal to this one.
    pub fn duplicate(&self) -> (copy: Operator)
        ensures
            copy@ == self@,
    {
        Operator {
            op: self.op,
            associativity: self.associativity,
            precedence: self.precedence,
            literal: self.literal.clone(),
            number_of_operands: self.number_of_operands,
        }
    }
}

/// A number as it stands in the source, before any arithmetic has looked at it.
#[derive(Debug, Clone, PartialEq, Eq)]
pub enum Numeral {
    /// A decimal literal: digits with at most one decimal point, starting
    /// with a digit.
    Decimal(String),
    /// The constant written `pi`.
    Pi,
    /// The constant written `e`.
    E,
}

/// Mathematical model of a [`Numeral`].
pub ghost enum NumeralView {
    Decimal(Seq<char>),
    Pi,
    E,
}

impl View for Numeral {
    type V = NumeralView;

    open spec fn view(&self) -> NumeralView {
        match *self {
            Numeral::Decimal(text) => NumeralView::Decimal(text@),
            Numeral::Pi => NumeralView::Pi,
            Numeral::E => NumeralView::E,
        }
    }
}

/// A lexical unit of an expression.
#[derive(Debug, Clone, PartialEq, Eq)]
pub enum Token {
    Number(Numeral),
    Op(Operator),
    ParenthesisLeft,
    ParenthesisRight,
}

/// Mathematical model of a [`Token`].
pub ghost enum TokenView {
    Number(NumeralView),
    Op(OperatorView),
    ParenthesisLeft,
    ParenthesisRight,
}

impl View for Token {
    type V = TokenView;

    open spec fn view(&self) -> TokenView {
        match *self {
            Token::Number(numeral) => TokenView::Number(numeral@),
            Token::Op(operator) => TokenView::Op(operator@),
            Token::ParenthesisLeft => TokenView::ParenthesisLeft,
            Token::ParenthesisRight => TokenView::ParenthesisRight,
        }
    }
}

/// The models of a sequence of tokens, in order.
pub open spec fn token_views(tokens: Seq<Token>) -> Seq<TokenView> {
    Seq::new(tokens.len(), |i: int| tokens[i]@)
}

/// The descriptor of a two-operand operator.
pub open spec fn binary_operator(
    op: OperatorType,
    associativity: Associativity,
    precedence: u8,
    literal: Seq<char>,
) -> OperatorView {
    OperatorView { op, associativity, precedence, literal, number_of_operands: 2 }
}

/// The descriptor of a function-call operator.
pub open spec fn function_operator(
    op: OperatorType,
    associativity: Associativity,
    literal: Seq<char>,
    number_of_operands: u8,
) -> OperatorView {
    OperatorView {
        op,
        associativity,
        precedence: FUNCTION_PRECEDENCE,
        literal,
        number_of_operands,
    }
}

/// The characters that are an operator on their own.
pub const OPERATOR_CHARS: [char; 9] = ['+', '-', '−', 'x', '×', '/', '÷', '^', '%'];

/// Whether `c` is one of the nine characters that are an operator on their
/// own.
pub open spec fn is_operator_char(c: char) -> bool {
    c == '+' || c == '-' || c == '−' || c == 'x' || c == '×' || c == '/' || c == '÷' || c == '^'
        || c == '%'
}

/// The operator characters are those of [`OPERATOR_CHARS`], and no others.
pub proof fn lemma_operator_chars(c: char)
    ensures
        is_operator_char(c) <==> OPERATOR_CHARS@.contains(c),
{
    let table = OPERATOR_CHARS@;
    assert(table.len() == 9);
    assert(table[0] == '+' && table[1] == '-' && table[2] == '−');
    assert(table[3] == 'x' && table[4] == '×' && table[5] == '/');
    assert(table[6] == '÷' && table[7] == '^' && table[8] == '%');
}

/// The operator that the single character `c` spells, if any. The literal of
/// the descriptor is the character itself, so `-` and `−` give descriptors
/// that differ in their literal only.
pub open spec fn symbol_operator(c: char) -> Option<OperatorView> {
    if c == '+' {
        Some(binary_operator(OperatorType::Add, Associativity::Left, ADDITIVE_PRECEDENCE, seq![c]))
    } else if c == '-' || c == '−' {
        Some(
            binary_operator(
                OperatorType::Subtract,
                Associativity::Left,
                ADDITIVE_PRECEDENCE,
                seq![c],
            ),
        )
    } else if c == '/' || c == '÷' {
        Some(
            binary_operator(
                OperatorType::Divide,
                Associativity::Left,
                MULTIPLICATIVE_PRECEDENCE,
                seq![c],
            ),
        )
    } else if c == 'x' || c == '×' {
        Some(
            binary_operator(
                OperatorType::Multiply,
                Associativity::Left,
                MULTIPLICATIVE_PRECEDENCE,
                seq![c],
            ),
        )
    } else if c == '^' {
        Some(
            binary_operator(
                OperatorType::Exponent,
                Associativity::Right,
                EXPONENT_PRECEDENCE,
                seq![c],
            ),
        )
    } else if c == '%' {
        Some(
            binary_operator(
                OperatorType::Modulus,
                Associativity::Left,
                MULTIPLICATIVE_PRECEDENCE,
                seq![c],
            ),
        )
    } else {
        None
    }
}

/// The keyword table: each spelling with the operator it names, in the order
/// in which the lexer tries them. `**` stands before `*`, so that two stars
/// are never read as two multiplications.
pub open spec fn function_words() -> Seq<(Seq<char>, OperatorView)> {
    seq![
        (
            seq!['*', '*'],
            binary_operator(
                OperatorType::Exponent,
                Associativity::Right,
                EXPONENT_PRECEDENCE,
                seq!['*', '*'],
            ),
        ),
        (
            seq!['*'],
            binary_operator(
                OperatorType::Multiply,
                Associativity::Left,
                MULTIPLICATIVE_PRECEDENCE,
                seq!['*'],
            ),
        ),
        (
            seq!['s', 'i', 'n'],
            function_operator(OperatorType::Sin, Associativity::Right, seq!['s', 'i', 'n'], 1),
        ),
        (
            seq!['c', 'o', 's'],
            function_operator(OperatorType::Cos, Associativity::Right, seq!['c', 'o', 's'], 1),
        ),
        (
            seq!['m', 'a', 'x'],
            function_operator(OperatorType::Max, Associativity::Left, seq!['m', 'a', 'x'], 2),
        ),
    ]
}

/// Whether `c` is one of the single-character operators.
pub fn operator_char(c: char) -> (found: bool)
    ensures
        found == is_operator_char(c),
{
    c == '+' || c == '-' || c == '−' || c == 'x' || c == '×' || c == '/' || c == '÷' || c == '^'
        || c == '%'
}

/// The string that holds the operator character `c` alone.
fn symbol_literal(c: char) -> (literal: String)
    requires
        is_operator_char(c),
    ensures
        literal@ == seq![c],
{
    proof {
        reveal_strlit("+");
        reveal_strlit("-");
        reveal_strlit("−");
        reveal_strlit("x");
        reveal_strlit("×");
        reveal_strlit("/");
        reveal_strlit("÷");
        reveal_strlit("^");
        reveal_strlit("%");
    }
    let spelling = if c == '+' {
        "+"
    } else if c == '-' {
        "-"
    } else if c == '−' {
        "−"
    } else if c == 'x' {
        "x"
    } else if c == '×' {
        "×"
    } else if c == '/' {
        "/"
    } else if c == '÷' {
        "÷"
    } else if c == '^' {
        "^"
    } else {
        "%"
    };
    assert(spelling@ =~= seq![c]);
    String::from_str(spelling)
}

/// The keyword table as values: the spellings and descriptors of
/// [`function_words`], in the same order.
pub fn get_function_words() -> (words: Vec<(&'static str, Operator)>)
    ensures
        words@.len() == function_words().len(),
        forall|i: int|
            0 <= i < words@.len() ==> (#[trigger] words@[i]).0@ == function_words()[i].0
                && words@[i].1@ == function_words()[i].1,
{
    proof {
        reveal_strlit("**");
        reveal_strlit("*");
        reveal_strlit("sin");
        reveal_strlit("cos");
        reveal_strlit("max");
    }
    let mut words: Vec<(&'static str, Operator)> = Vec::new();
    words.push(
        (
            "**",
            Operator {
                op: OperatorType::Exponent,
                associativity: Associativity::Right,
                precedence: EXPONENT_PRECEDENCE,
                number_of_operands: 2,
                literal: String::from_str("**"),
            },
        ),
    );
    words.push(
        (
            "*",
            Operator {
                op: OperatorType::Multiply,
                associativity: Associativity::Left,
                precedence: MULTIPLICATIVE_PRECEDENCE,
                number_of_operands: 2,
                literal: String::from_str("*"),
            },
        ),
    );
    words.push(
        (
            "sin",
            Operator {
                op: OperatorType::Sin,
                associativity: Associativity::Right,
                precedence: FUNCTION_PRECEDENCE,
                number_of_operands: 1,
                literal: String::from_str("sin"),
            },
        ),
    );
    words.push(
        (
            "cos",
            Operator {
                op: OperatorType::Cos,
                associativity: Associativity::Right,
                precedence: FUNCTION_PRECEDENCE,
                number_of_operands: 1,
                literal: String::from_str("cos"),
            },
        ),
    );
    words.push(
        (
            "max",
            Operator {
                op: OperatorType::Max,
                associativity: Associativity::Left,
                precedence: FUNCTION_PRECEDENCE,
                number_of_operands: 2,
                literal: String::from_str("max"),
            },
        ),
    );
    assert forall|i: int| 0 <= i < words@.len() implies (#[trigger] words@[i]).0@
        == function_words()[i].0 && words@[i].1@ == function_words()[i].1 by {
        assert(words@[i].0@ =~= function_words()[i].0);
        assert(words@[i].1@.literal =~= function_words()[i].1.literal);
    }
    words
}

/// The operator token that the single character `c` spells: `Some` exactly
/// for the nine operator characters.
pub fn get_token_operator(c: char) -> (token: Option<Token>)
    ensures
        match symbol_operator(c) {
            Some(operator) => token matches Some(t) && t@ == TokenView::Op(operator),
            None => token is None,
        },
        token is Some <==> is_operator_char(c),
{
    if !operator_char(c) {
        return None;
    }
    let literal = symbol_literal(c);
    let operator = if c == '+' {
        Operator {
            op: OperatorType::Add,
            associativity: Associativity::Left,
            precedence: ADDITIVE_PRECEDENCE,
            number_of_operands: 2,
            literal,
        }
    } else if c == '-' || c == '−' {
        Operator {
            op: OperatorType::Subtract,
            associativity: Associativity::Left,
            precedence: ADDITIVE_PRECEDENCE,
            number_of_operands: 2,
            literal,
        }
    } else if c == '/' || c == '÷' {
        Operator {
            op: OperatorType::Divide,
            associativity: Associativity::Left,
            precedence: MULTIPLICATIVE_PRECEDENCE,
            number_of_operands: 2,
            literal,
        }
    } else if c == 'x' || c == '×' {
        Operator {
            op: OperatorType::Multiply,
            associativity: Associativity::Left,
            precedence: MULTIPLICATIVE_PRECEDENCE,
            number_of_operands: 2,
            literal,
        }
    } else if c == '^' {
        Operator {
            op: OperatorType::Exponent,
            associativity: Associativity::Right,
            precedence: EXPONENT_PRECEDENCE,
            number_of_operands: 2,
            literal,
        }
    } else {
        Operator {
            op: OperatorType::Modulus,
            associativity: Associativity::Left,
            precedence: MULTIPLICATIVE_PRECEDENCE,
            number_of_operands: 2,
            literal,
        }
    };
    Some(Token::Op(operator))
}

} // verus!
