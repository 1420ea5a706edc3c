use vstd::prelude::*;
use crate::token::TokenKind;

verus! {

/// Why a token sequence is not a program.
#[derive(Debug, PartialEq, Eq, Clone, Copy, Structural)]
pub enum ParseError {
    /// A token of the first kind was required; a token of the second kind stood there.
    InvalidTokenFound(TokenKind, TokenKind),
    /// The token sequence ended before a required token.
    FailedToReadToken,
    /// No expression starts with a token of this kind.
    NoSuchExpressionStartWith(TokenKind),
    /// An integer literal is not a valid 64-bit signed integer.
    InvalidIntegerLiteral,
}

} // verus!
