//! Errors reported while parsing.
use vstd::prelude::*;

use crate::tokens::{Span, TokenKind};

verus! {

/// An error, with the bytes and the line it was found at.
#[derive(Clone, Copy, Debug, PartialEq, Eq, Structural)]
pub struct ParseError {
    pub kind: ParseErrorKind,
    pub span: Span,
    pub line: usize,
}

impl ParseError {
    pub fn new(kind: ParseErrorKind, span: Span, line: usize) -> (r: Self)
        ensures
            r == (ParseError { kind, span, line }),
    {
        ParseError { kind, span, line }
    }

    pub fn kind(&self) -> (r: ParseErrorKind)
        ensures
            r == self.kind,
    {
        self.kind
    }

    pub fn span(&self) -> (r: Span)
        ensures
            r == self.span,
    {
        self.span
    }

    pub fn line(&self) -> (r: usize)
        ensures
            r == self.line,
    {
        self.line
    }
}

/// Why parsing an integer failed.
#[derive(Clone, Copy, Debug, PartialEq, Eq, Structural)]
pub enum IntErrorKind {
    Empty,
    InvalidDigit,
    PosOverflow,
    NegOverflow,
    Zero,
}

/// The kinds of errors the parser reports.
#[derive(Clone, Copy, Debug, PartialEq, Eq, Structural)]
pub enum ParseErrorKind {
    InvalidToken(TokenKind, TokenKind),
    UnexpectedToken(TokenKind),
    ExpectedToken(TokenKind),
    InvalidReturnTypeToken(TokenKind),
    ExpectedReturnType,
    ExpectedIntegerFoundFloating,
    LiteralExpected(LiteralKind, Option<TokenKind>),
    LiteralsExpected(Option<TokenKind>),
    EmptyChar,
    EmptyEscapeSequence,
    UnknownEscapeSequence,
    CharOutOfRange,
    UnterminatedChar,
    UnterminatedString(usize),
    InvalidTokenForNewExpr(TokenKind),
    ExpectedIdentifierForNewExpr,
    IntError(IntErrorKind),
    UnexpectedLiteralKind(LiteralKind),
    InvalidStructToken(TokenKind),
    UnterminatedStruct,
    FloatError,
}

/// The kinds of literals.
#[derive(Clone, Copy, Debug, PartialEq, Eq, Structural)]
pub enum LiteralKind {
    String,
    Char,
    Integer,
    Float,
    Boolean,
}

} // verus!
