//! The error taxonomy of the parser.
//!
//! Parsing aborts at the first grammar violation; every production propagates
//! the first error it meets upward unchanged, so the caller of the top-level
//! entry point sees exactly one of these values.  All fields are plain data,
//! which lets contracts state precisely which error each malformed input
//! produces.

use vstd::prelude::*;

verus! {

/// What the grammar wanted to see at the point of a mismatch.
#[derive(Clone, Copy, Debug, PartialEq, Eq, Structural)]
pub enum Expected {
    /// One specific character (a bracket, a comma, a colon, a quote).
    Char(char),
    /// The first character of any value production.
    Value,
    /// A decimal digit.
    Digit,
    /// An ASCII letter.
    Letter,
    /// The end of the input after the top-level element.
    End,
}

/// Why a numeric literal was rejected.
#[derive(Clone, Copy, Debug, PartialEq, Eq, Structural)]
pub enum NumberError {
    /// An accumulation (integer part, fraction, exponent, or negative
    /// magnitude) left the representable range.
    Overflow,
    /// A digit was required — at the start of the number, after `.`, or
    /// after the exponent marker — and something else stood there.
    MissingDigits,
}

/// The first grammar violation found in the input.
///
/// Offsets count unicode scalar values from the start of the input; an
/// offset equal to the input length stands for the end of the input.
#[derive(Clone, Copy, Debug, PartialEq, Eq, Structural)]
pub enum ParseError {
    /// A grammar violation at a specific character.
    UnexpectedCharacter { expected: Expected, found: char, offset: usize },
    /// The input ended in the middle of a construct.
    UnexpectedEnd { offset: usize },
    /// An overflowing accumulation, or a malformed fraction or exponent;
    /// the offset locates the part that is at fault.
    InvalidNumber { offset: usize, reason: NumberError },
    /// A malformed or unsupported string escape.
    InvalidEscape { offset: usize },
    /// A literal prefix that does not resolve to `true`, `false` or `null`.
    /// The candidate consumed so far is the input span from `start` to
    /// `offset` (to the end of the input when the input ended inside the
    /// literal).
    InvalidLiteral { start: usize, offset: usize },
    /// The nesting guard tripped.
    MaxDepthExceeded,
}

} // verus!
