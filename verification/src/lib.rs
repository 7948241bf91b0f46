//! Evaluation of arithmetic expressions written as text.
//!
//! An expression passes three stages: the [`lexer`] cuts the text into
//! [`tokens`], the [`shunting_yard`] puts them in postfix order, and
//! [`eval`] evaluates the postfix queue on a stack of values. The numbers
//! are 64-bit floating-point values that the library carries but never
//! computes with: the caller supplies the [`arithmetic`].
//!
//! The modules [`laws`], [`spelling`] and [`expressions`] hold no code to
//! run. They state and prove what every evaluation obeys.

pub mod arithmetic;
pub mod eval;
pub mod expressions;
pub mod laws;
pub mod lexer;
pub mod shunting_yard;
pub mod spelling;
pub mod tokens;
