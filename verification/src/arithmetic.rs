//! Numbers as the evaluator sees them, the arithmetic it asks for, and the
//! ways an evaluation can fail.
//!
//! The evaluator never computes with a number. It moves 64-bit patterns
//! between its value stack and a caller-supplied arithmetic, and looks at a
//! pattern only to refuse a division by zero.

use vstd::prelude::*;

verus! {

/// An IEEE 754 binary64 number, held by its bit pattern.
///
/// `==` on this type compares patterns: the two zeros differ, and a NaN is
/// equal to itself.
#[derive(Debug, Clone, Copy, PartialEq, Eq, Structural)]
pub struct Binary64 {
    pub bits: u64,
}

/// The pattern of the zero with the sign bit set.
pub const NEGATIVE_ZERO_BITS: u64 = 0x8000_0000_0000_0000;

impl Binary64 {
    /// Whether the pattern is that of positive or of negative zero, the two
    /// values that compare equal to zero.
    pub open spec fn is_zero_spec(self) -> bool {
        self.bits == 0 || self.bits == NEGATIVE_ZERO_BITS
    }

    /// Whether this number compares equal to zero.
    #[verifier::when_used_as_spec(is_zero_spec)]
    pub fn is_zero(self) -> (zero: bool)
        ensures
            zero == self.is_zero_spec(),
    {
        self.bits == 0 || self.bits == NEGATIVE_ZERO_BITS
    }
}

/// One piece of arithmetic that the evaluator hands to its caller: the value
/// of a numeral, or an operation on values that are already known.
///
/// In the two-operand variants the left operand comes first.
#[derive(Debug, Clone, PartialEq, Eq)]
pub enum Calculation {
    /// The value of a decimal literal, given by its text. A literal that
    /// was read from a text holds digits and at most one decimal point, and
    /// starts with a digit.
    Literal(String),
    /// The constant pi.
    Pi,
    /// Euler's number.
    E,
    /// Sine of an angle in radians.
    Sin(Binary64),
    /// Cosine of an angle in radians.
    Cos(Binary64),
    Add(Binary64, Binary64),
    Subtract(Binary64, Binary64),
    Multiply(Binary64, Binary64),
    /// Quotient; the evaluator never asks for one whose divisor is zero.
    Divide(Binary64, Binary64),
    /// The left operand raised to the right one.
    Exponent(Binary64, Binary64),
    /// Remainder of the division, with the sign of the left operand.
    Modulus(Binary64, Binary64),
    /// The larger of the two operands.
    Max(Binary64, Binary64),
}

/// Mathematical model of a [`Calculation`].
pub ghost enum CalculationView {
    Literal(Seq<char>),
    Pi,
    E,
    Sin(Binary64),
    Cos(Binary64),
    Add(Binary64, Binary64),
    Subtract(Binary64, Binary64),
    Multiply(Binary64, Binary64),
    Divide(Binary64, Binary64),
    Exponent(Binary64, Binary64),
    Modulus(Binary64, Binary64),
    Max(Binary64, Binary64),
}

impl View for Calculation {
    type V = CalculationView;

    open spec fn view(&self) -> CalculationView {
        match *self {
            Calculation::Literal(text) => CalculationView::Literal(text@),
            Calculation::Pi => CalculationView::Pi,
            Calculation::E => CalculationView::E,
            Calculation::Sin(x) => CalculationView::Sin(x),
            Calculation::Cos(x) => CalculationView::Cos(x),
            Calculation::Add(l, r) => CalculationView::Add(l, r),
            Calculation::Subtract(l, r) => CalculationView::Subtract(l, r),
            Calculation::Multiply(l, r) => CalculationView::Multiply(l, r),
            Calculation::Divide(l, r) => CalculationView::Divide(l, r),
            Calculation::Exponent(l, r) => CalculationView::Exponent(l, r),
            Calculation::Modulus(l, r) => CalculationView::Modulus(l, r),
            Calculation::Max(l, r) => CalculationView::Max(l, r),
        }
    }
}

/// Why an expression has no value.
#[derive(Debug, Clone, Copy, PartialEq, Eq, Structural)]
pub enum EvalError {
    /// The text holds a character or word that is no token, or a number
    /// with more than one decimal point.
    Lex,
    /// The parentheses do not balance.
    Unbalanced,
    /// An operator found fewer operands than it takes.
    Arity,
    /// A division by zero.
    Arithmetic,
    /// The expression leaves no value, or more than one.
    Shape,
    /// An operator descriptor whose kind does not fit its number of
    /// operands. No descriptor that the lexer makes is of this sort.
    Defect,
}

/// Whether `compute`, asked for `calculation`, may answer `value`.
pub open spec fn answers<F: Fn(Calculation) -> Binary64>(
    compute: F,
    calculation: CalculationView,
    value: Binary64,
) -> bool {
    exists|asked: Calculation| asked@ == calculation && call_ensures(compute, (asked,), value)
}

/// The arithmetic that `compute` does, as a relation: which values it may
/// answer to which calculation.
pub open spec fn arithmetic_of<F: Fn(Calculation) -> Binary64>(compute: F) -> spec_fn(
    CalculationView,
    Binary64,
) -> bool {
    |calculation: CalculationView, value: Binary64| answers(compute, calculation, value)
}

/// Whether `compute` computes `model`: whatever it answers to a calculation
/// is the value that `model` gives to it.
pub open spec fn computes<F: Fn(Calculation) -> Binary64>(
    compute: F,
    model: spec_fn(CalculationView) -> Binary64,
) -> bool {
    forall|asked: Calculation, value: Binary64| #[trigger]
        call_ensures(compute, (asked,), value) ==> value == model(asked@)
}

/// Whether `compute` accepts every calculation.
pub open spec fn accepts_all<F: Fn(Calculation) -> Binary64>(compute: F) -> bool {
    forall|asked: Calculation| call_requires(compute, (asked,))
}

} // verus!
