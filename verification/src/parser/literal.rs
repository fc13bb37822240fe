//! Literals: strings, characters, numbers, booleans and `null`.
use vstd::prelude::*;

use crate::ast::expression::{Expression, ExpressionKind, LiteralExpression, SExpression, SExpressionKind, SLiteral, expr_view, lemma_expr_view_shape, maybe_expr_view};
use crate::chars::{char_digit, chars_of, is_base_digit, text_len, text_len_within};
use crate::error::{LiteralKind, ParseError, ParseErrorKind};
use crate::lexer::text_between;
use crate::parser::expression::parsed_expr;
use crate::parser::{
    PState, Parser, end_error, kept, measure, p_next, p_next_if_kind_errored, p_peek, steps_to,
    with_error,
};
use crate::string::{
    char_escape_sequence_map_str, float_text_ok, float_text_valid, char_at_byte, hex_escape_sequence, hex_escape_value,
    digit_value, digits_value, parse_radix, radix_value, simple_escape_value, spec_unescape,
};
use crate::tokens::{BaseN, CharacterEscapeType, Span, StringOptions, Token, TokenKind};
use vstd::string::StringExecFns;

verus! {

// ---------------------------------------------------------------------------
// Literals.

/// The state after a literal parser refused the token `t` that `next`
/// handed out in the state `q`: the token is kept back and `e` recorded.
pub open spec fn refuse(q: PState, t: Option<Token>, e: ParseError) -> PState {
    with_error(kept(q, t), e)
}

/// The error for a token where a literal of kind `lk` was expected, or for
/// the end of the text.
pub open spec fn literal_expected(p: PState, lk: LiteralKind, t: Option<Token>) -> ParseError {
    match t {
        Some(tok) => ParseError {
            kind: ParseErrorKind::LiteralExpected(lk, Some(tok.kind)),
            span: tok.span,
            line: tok.line,
        },
        None => end_error(p, ParseErrorKind::LiteralExpected(lk, None)),
    }
}

/// The literal expression `l` over `span`.
pub open spec fn literal(l: SLiteral, span: Span) -> SExpression {
    SExpression { kind: SExpressionKind::Literal(l), span }
}

/// The characters between the quotes of a string literal token: from the
/// byte after its opening quote to before its closing quote (two quote
/// characters for a multi-line string).
pub open spec fn string_body(p: PState, quote_start: usize, options: StringOptions, span: Span) -> Seq<
    char,
> {
    let end = span.end - if options.has(StringOptions { bits: 2 }) {
        2int
    } else {
        1int
    };
    text_between(p.st.text, quote_start + 1, end)
}

/// A string literal. Raw strings are taken as they stand; in the others
/// escapes are replaced by the characters they stand for, and an error is
/// recorded for a backslash at the end.
#[verifier::opaque]
pub open spec fn p_string_literal(p: PState) -> (PState, Option<SExpression>) {
    let (q, t) = p_next(p);
    match t {
        Some(tok) => match tok.kind {
            TokenKind::StringLiteral { options, quote_start, terminated, ending_line } => {
                if terminated {
                    let body = string_body(p, quote_start, options, tok.span);
                    if options.has(StringOptions { bits: 1 }) || text_len(body) + tok.line
                        > usize::MAX {
                        (q, Some(literal(SLiteral::String(body), tok.span)))
                    } else {
                        let (value, bad_end) = spec_unescape(body, 0);
                        let q1 = if bad_end {
                            with_error(
                                q,
                                crate::string::empty_escape_error(
                                    body,
                                    crate::string::spec_unescape_end(body, 0) - 1,
                                    tok.line as int,
                                ),
                            )
                        } else {
                            q
                        };
                        (q1, Some(literal(SLiteral::String(value), tok.span)))
                    }
                } else {
                    (
                        refuse(
                            q,
                            t,
                            ParseError {
                                kind: ParseErrorKind::UnterminatedString(ending_line),
                                span: tok.span,
                                line: tok.line,
                            },
                        ),
                        None,
                    )
                }
            },
            _ => (refuse(q, t, literal_expected(p, LiteralKind::String, t)), None),
        },
        None => (refuse(q, t, literal_expected(p, LiteralKind::String, t)), None),
    }
}

/// The character a character literal's text (without its quotes) stands
/// for.
pub open spec fn char_value(raw: Seq<char>, escape: CharacterEscapeType) -> Option<char> {
    match escape {
        CharacterEscapeType::Unescaped => if raw.len() > 0 {
            Some(raw[0])
        } else {
            None
        },
        CharacterEscapeType::Simple => simple_escape_value(raw),
        _ => hex_escape_value(raw),
    }
}

/// A character literal; `UnknownEscapeSequence` when its escape stands for
/// no character.
#[verifier::opaque]
pub open spec fn p_char_literal(p: PState) -> (PState, Option<SExpression>) {
    let (q, t) = p_next(p);
    match t {
        Some(tok) => match tok.kind {
            TokenKind::CharacterLiteral { escape_type, terminated } => if terminated {
                let raw = text_between(p.st.text, tok.span.start + 1, tok.span.end - 1);
                match char_value(raw, escape_type) {
                    Some(c) => (q, Some(literal(SLiteral::Char(c), tok.span))),
                    None => (
                        with_error(
                            q,
                            ParseError {
                                kind: ParseErrorKind::UnknownEscapeSequence,
                                span: tok.span,
                                line: tok.line,
                            },
                        ),
                        None,
                    ),
                }
            } else {
                (
                    refuse(
                        q,
                        t,
                        ParseError {
                            kind: ParseErrorKind::UnterminatedChar,
                            span: tok.span,
                            line: tok.line,
                        },
                    ),
                    None,
                )
            },
            _ => (refuse(q, t, literal_expected(p, LiteralKind::Char, t)), None),
        },
        None => (refuse(q, t, literal_expected(p, LiteralKind::Char, t)), None),
    }
}

/// The digits of an integer literal: its text without the two-character
/// prefix of a non-decimal base.
pub open spec fn integer_digits(p: PState, base: BaseN, span: Span) -> Seq<char> {
    if base != BaseN::Decimal {
        text_between(p.st.text, span.start + 2, span.end as int)
    } else {
        text_between(p.st.text, span.start as int, span.end as int)
    }
}

/// An integer literal, read as `u128::from_str_radix` reads it.
#[verifier::opaque]
pub open spec fn p_integer_literal(p: PState) -> (PState, Option<SExpression>) {
    let (q, t) = p_next(p);
    match t {
        Some(tok) => match tok.kind {
            TokenKind::NumberLiteral { base, is_floating } => if is_floating {
                (
                    refuse(
                        q,
                        t,
                        ParseError {
                            kind: ParseErrorKind::ExpectedIntegerFoundFloating,
                            span: tok.span,
                            line: tok.line,
                        },
                    ),
                    None,
                )
            } else {
                match radix_value(integer_digits(p, base, tok.span), base.radix(), u128::MAX as nat) {
                    Ok(v) => (q, Some(literal(SLiteral::Integer(v as u128), tok.span))),
                    Err(e) => (
                        with_error(
                            q,
                            ParseError {
                                kind: ParseErrorKind::IntError(e),
                                span: tok.span,
                                line: tok.line,
                            },
                        ),
                        None,
                    ),
                }
            },
            _ => (refuse(q, t, literal_expected(p, LiteralKind::Integer, t)), None),
        },
        None => (refuse(q, t, literal_expected(p, LiteralKind::Integer, t)), None),
    }
}

/// A floating-point literal: a decimal number token whose text `f64`
/// accepts; the text is kept.
#[verifier::opaque]
pub open spec fn p_float_literal(p: PState) -> (PState, Option<SExpression>) {
    let (q, t) = p_next(p);
    match t {
        Some(tok) => match tok.kind {
            TokenKind::NumberLiteral { base: BaseN::Decimal, .. } => {
                let text = text_between(p.st.text, tok.span.start as int, tok.span.end as int);
                if float_text_ok(text) {
                    (q, Some(literal(SLiteral::Floating(text), tok.span)))
                } else {
                    (
                        with_error(
                            q,
                            ParseError {
                                kind: ParseErrorKind::FloatError,
                                span: tok.span,
                                line: tok.line,
                            },
                        ),
                        None,
                    )
                }
            },
            _ => (refuse(q, t, literal_expected(p, LiteralKind::Float, t)), None),
        },
        None => (refuse(q, t, literal_expected(p, LiteralKind::Float, t)), None),
    }
}

/// `true` or `false`.
#[verifier::opaque]
pub open spec fn p_boolean_literal(p: PState) -> (PState, Option<SExpression>) {
    let (q, t) = p_next(p);
    match t {
        Some(tok) => if tok.kind == TokenKind::TrueKeyword {
            (q, Some(literal(SLiteral::Bool(true), tok.span)))
        } else if tok.kind == TokenKind::FalseKeyword {
            (q, Some(literal(SLiteral::Bool(false), tok.span)))
        } else {
            (refuse(q, t, literal_expected(p, LiteralKind::Boolean, t)), None)
        },
        None => (refuse(q, t, literal_expected(p, LiteralKind::Boolean, t)), None),
    }
}

/// `null`.
#[verifier::opaque]
pub open spec fn p_null_literal(p: PState) -> (PState, Option<SExpression>) {
    let (q, t) = p_next_if_kind_errored(p, TokenKind::NullKeyword);
    match t {
        None => (q, None),
        Some(tok) => (q, Some(literal(SLiteral::Null, tok.span))),
    }
}

/// A literal of any kind. A token that starts none is skipped with a
/// `LiteralsExpected` error.
#[verifier::opaque]
pub open spec fn p_literal(p: PState) -> (PState, Option<SExpression>)
    decreases measure(p),
{
    let (q, t) = p_peek(p);
    match t {
        None => (q, None),
        Some(tok) => match tok.kind {
            TokenKind::StringLiteral { .. } => p_string_literal(q),
            TokenKind::CharacterLiteral { .. } => p_char_literal(q),
            TokenKind::NumberLiteral { is_floating, .. } => if is_floating {
                p_float_literal(q)
            } else {
                p_integer_literal(q)
            },
            TokenKind::FalseKeyword => p_boolean_literal(q),
            TokenKind::TrueKeyword => p_boolean_literal(q),
            TokenKind::NullKeyword => p_null_literal(q),
            _ => {
                let q1 = with_error(
                    p_next(q).0,
                    ParseError {
                        kind: ParseErrorKind::LiteralsExpected(Some(tok.kind)),
                        span: tok.span,
                        line: tok.line,
                    },
                );
                if measure(q1) < measure(p) {
                    p_literal(q1)
                } else {
                    (q1, None)
                }
            },
        },
    }
}

/// Parses a literal of any kind.
pub fn literal_expression<'t>(parser: &mut Parser<'t>) -> (r: Option<Expression<'t>>)
    requires
        old(parser).wf(),
    ensures
        parsed_expr(*old(parser), *final(parser), p_literal(old(parser)@), r),
    decreases measure(old(parser)@),
{
    proof {
        reveal_with_fuel(p_literal, 1);
    }
    let tok = match parser.peek() {
        Some(tok) => tok,
        None => return None,
    };
    match tok.kind {
        TokenKind::StringLiteral { .. } => string_literal(parser),
        TokenKind::CharacterLiteral { .. } => char_literal(parser),
        TokenKind::NumberLiteral { is_floating, .. } => if is_floating {
            float_literal(parser)
        } else {
            integer_literal(parser)
        },
        TokenKind::FalseKeyword => boolean_literal(parser),
        TokenKind::TrueKeyword => boolean_literal(parser),
        TokenKind::NullKeyword => null_literal(parser),
        _ => {
            parser.next();
            parser.error(
                ParseError::new(ParseErrorKind::LiteralsExpected(Some(tok.kind)), tok.span, tok.line),
            );
            literal_expression(parser)
        },
    }
}

/// Hands the token `t` back to the parser and records the error of a
/// literal parser that expected a literal of kind `lk`.
fn refuse_literal<'t>(
    parser: &mut Parser<'t>,
    t: Option<Token>,
    lk: LiteralKind,
    line: usize,
    len: usize,
)
    requires
        old(parser).wf(),
    ensures
        final(parser).wf(),
        final(parser).input() == old(parser).input(),
        final(parser)@ == refuse(
            old(parser)@,
            t,
            match t {
                Some(tok) => ParseError {
                    kind: ParseErrorKind::LiteralExpected(lk, Some(tok.kind)),
                    span: tok.span,
                    line: tok.line,
                },
                None => ParseError {
                    kind: ParseErrorKind::LiteralExpected(lk, None),
                    span: Span { start: len, end: len },
                    line,
                },
            },
        ),
{
    parser.keep(t);
    match t {
        Some(tok) => parser.error(
            ParseError::new(ParseErrorKind::LiteralExpected(lk, Some(tok.kind)), tok.span, tok.line),
        ),
        None => parser.error(
            ParseError::new(ParseErrorKind::LiteralExpected(lk, None), Span { start: len, end: len }, line),
        ),
    }
}

/// Parses a string literal.
pub fn string_literal<'t>(parser: &mut Parser<'t>) -> (r: Option<Expression<'t>>)
    requires
        old(parser).wf(),
    ensures
        parsed_expr(*old(parser), *final(parser), p_string_literal(old(parser)@), r),
{
    proof {
        reveal(p_string_literal);
    }
    let line = parser.line();
    let len = parser.input_len();
    let t = parser.next();
    let tok = match t {
        Some(tok) => tok,
        None => {
            refuse_literal(parser, t, LiteralKind::String, line, len);
            return None;
        },
    };
    match tok.kind {
        TokenKind::StringLiteral { options, quote_start, terminated, ending_line } => {
            if !terminated {
                parser.keep(t);
                parser.error(
                    ParseError::new(ParseErrorKind::UnterminatedString(ending_line), tok.span, tok.line),
                );
                return None;
            }
            let closing: usize = if options.contains(StringOptions::multiline_str()) {
                2
            } else {
                1
            };
            let body = parser.text_in(quote_start, 1, tok.span.end, closing);
            let value = if options.contains(StringOptions::rawstr()) || !text_len_within(
                body,
                usize::MAX - tok.line,
            ) {
                String::from_str(body)
            } else {
                parser.unescape(body, tok.line)
            };
            {
                let e = Expression { kind: ExpressionKind::Literal(LiteralExpression::String(value)), span: tok.span };
                proof {
                    lemma_expr_view_shape(e);
                }
                Some(e)
            }
        },
        _ => {
            refuse_literal(parser, t, LiteralKind::String, line, len);
            None
        },
    }
}

/// Parses a character literal.
pub fn char_literal<'t>(parser: &mut Parser<'t>) -> (r: Option<Expression<'t>>)
    requires
        old(parser).wf(),
    ensures
        parsed_expr(*old(parser), *final(parser), p_char_literal(old(parser)@), r),
{
    proof {
        reveal(p_char_literal);
    }
    let line = parser.line();
    let len = parser.input_len();
    let t = parser.next();
    let tok = match t {
        Some(tok) => tok,
        None => {
            refuse_literal(parser, t, LiteralKind::Char, line, len);
            return None;
        },
    };
    match tok.kind {
        TokenKind::CharacterLiteral { escape_type, terminated } => {
            if !terminated {
                parser.keep(t);
                parser.error(ParseError::new(ParseErrorKind::UnterminatedChar, tok.span, tok.line));
                return None;
            }
            let raw = parser.text_in(tok.span.start, 1, tok.span.end, 1);
            let c = match escape_type {
                CharacterEscapeType::Unescaped => {
                    let cs = chars_of(raw);
                    if cs.len() > 0 {
                        Some(cs[0])
                    } else {
                        None
                    }
                },
                CharacterEscapeType::Simple => char_escape_sequence_map_str(raw),
                _ => {
                    let cs = chars_of(raw);
                    if char_at_byte(&cs, 2).is_some() {
                        hex_escape_sequence(raw)
                    } else {
                        None
                    }
                },
            };
            match c {
                Some(c) => {
                    let e = Expression { kind: ExpressionKind::Literal(LiteralExpression::Char(c)), span: tok.span };
                    proof {
                        lemma_expr_view_shape(e);
                    }
                    Some(e)
                },
                None => {
                    parser.error(ParseError::new(ParseErrorKind::UnknownEscapeSequence, tok.span, tok.line));
                    None
                },
            }
        },
        _ => {
            refuse_literal(parser, t, LiteralKind::Char, line, len);
            None
        },
    }
}

/// Parses an integer literal.
pub fn integer_literal<'t>(parser: &mut Parser<'t>) -> (r: Option<Expression<'t>>)
    requires
        old(parser).wf(),
    ensures
        parsed_expr(*old(parser), *final(parser), p_integer_literal(old(parser)@), r),
{
    proof {
        reveal(p_integer_literal);
    }
    let line = parser.line();
    let len = parser.input_len();
    let t = parser.next();
    let tok = match t {
        Some(tok) => tok,
        None => {
            refuse_literal(parser, t, LiteralKind::Integer, line, len);
            return None;
        },
    };
    match tok.kind {
        TokenKind::NumberLiteral { base, is_floating } => {
            if is_floating {
                parser.keep(t);
                parser.error(ParseError::new(ParseErrorKind::ExpectedIntegerFoundFloating, tok.span, tok.line));
                return None;
            }
            let prefix: usize = if base != BaseN::Decimal {
                2
            } else {
                0
            };
            let digits = parser.text_in(tok.span.start, prefix, tok.span.end, 0);
            let cs = chars_of(digits);
            proof {
                assert(cs@.subrange(0, cs@.len() as int) =~= digits@);
            }
            match parse_radix(&cs, 0, cs.len(), base.as_radix(), u128::MAX) {
                Ok(v) => {
                    let e = Expression { kind: ExpressionKind::Literal(LiteralExpression::Integer(v)), span: tok.span };
                    proof {
                        lemma_expr_view_shape(e);
                    }
                    Some(e)
                },
                Err(e) => {
                    parser.error(ParseError::new(ParseErrorKind::IntError(e), tok.span, tok.line));
                    None
                },
            }
        },
        _ => {
            refuse_literal(parser, t, LiteralKind::Integer, line, len);
            None
        },
    }
}

/// Parses a floating-point literal.
pub fn float_literal<'t>(parser: &mut Parser<'t>) -> (r: Option<Expression<'t>>)
    requires
        old(parser).wf(),
    ensures
        parsed_expr(*old(parser), *final(parser), p_float_literal(old(parser)@), r),
{
    proof {
        reveal(p_float_literal);
    }
    let line = parser.line();
    let len = parser.input_len();
    let t = parser.next();
    let tok = match t {
        Some(tok) => tok,
        None => {
            refuse_literal(parser, t, LiteralKind::Float, line, len);
            return None;
        },
    };
    match tok.kind {
        TokenKind::NumberLiteral { base: BaseN::Decimal, .. } => {
            let text = parser.text_in(tok.span.start, 0, tok.span.end, 0);
            let cs = chars_of(text);
            if float_text_valid(&cs) {
                {
                    let e = Expression { kind: ExpressionKind::Literal(LiteralExpression::Floating(String::from_str(text))), span: tok.span };
                    proof {
                        lemma_expr_view_shape(e);
                    }
                    Some(e)
                }
            } else {
                parser.error(ParseError::new(ParseErrorKind::FloatError, tok.span, tok.line));
                None
            }
        },
        _ => {
            refuse_literal(parser, t, LiteralKind::Float, line, len);
            None
        },
    }
}

/// Parses `true` or `false`.
pub fn boolean_literal<'t>(parser: &mut Parser<'t>) -> (r: Option<Expression<'t>>)
    requires
        old(parser).wf(),
    ensures
        parsed_expr(*old(parser), *final(parser), p_boolean_literal(old(parser)@), r),
{
    proof {
        reveal(p_boolean_literal);
    }
    let line = parser.line();
    let len = parser.input_len();
    let t = parser.next();
    match t {
        Some(tok) => if tok.kind == TokenKind::TrueKeyword {
            {
                let e = Expression { kind: ExpressionKind::Literal(LiteralExpression::Bool(true)), span: tok.span };
                proof {
                    lemma_expr_view_shape(e);
                }
                Some(e)
            }
        } else if tok.kind == TokenKind::FalseKeyword {
            {
                let e = Expression { kind: ExpressionKind::Literal(LiteralExpression::Bool(false)), span: tok.span };
                proof {
                    lemma_expr_view_shape(e);
                }
                Some(e)
            }
        } else {
            refuse_literal(parser, t, LiteralKind::Boolean, line, len);
            None
        },
        None => {
            refuse_literal(parser, t, LiteralKind::Boolean, line, len);
            None
        },
    }
}

/// Parses `null`.
pub fn null_literal<'t>(parser: &mut Parser<'t>) -> (r: Option<Expression<'t>>)
    requires
        old(parser).wf(),
    ensures
        parsed_expr(*old(parser), *final(parser), p_null_literal(old(parser)@), r),
{
    proof {
        reveal(p_null_literal);
    }
    match parser.next_if_kind_errored(TokenKind::NullKeyword) {
        Some(tok) => {
            let e = Expression { kind: ExpressionKind::Literal(LiteralExpression::Null), span: tok.span };
            proof {
                lemma_expr_view_shape(e);
            }
            Some(e)
        },
        None => None,
    }
}


/// The value of the digits `s` in base `b`, the most significant first.
pub open spec fn value_in_base(s: Seq<char>, b: nat) -> nat
    decreases s.len(),
{
    if s.len() == 0 {
        0
    } else {
        value_in_base(s.drop_last(), b) * b + char_digit(s.last()) as nat
    }
}

proof fn lemma_digits_value_in_base(s: Seq<char>, b: nat, max: nat)
    requires
        b == 2 || b == 8 || b == 10 || b == 16,
        forall|i: int| 0 <= i < s.len() ==> is_base_digit(#[trigger] s[i], b),
        value_in_base(s, b) <= max,
    ensures
        digits_value(s, b as u32, max) == Ok::<nat, crate::error::IntErrorKind>(value_in_base(s, b)),
    decreases s.len(),
{
    if s.len() > 0 {
        let init = s.drop_last();
        let v = value_in_base(init, b);
        let c = s.last();
        assert(is_base_digit(c, b));
        assert(v <= v * b) by (nonlinear_arith)
            requires
                b >= 1,
        ;
        assert forall|i: int| 0 <= i < init.len() implies is_base_digit(#[trigger] init[i], b) by {
            assert(init[i] == s[i]);
        }
        lemma_digits_value_in_base(init, b, max);
        assert(digit_value(c, b as u32) == Some(char_digit(c) as nat));
    }
}

/// An integer literal is its digits read in the base its prefix names:
/// none for 10, `0b` for 2, `0o` for 8 and `0x` for 16. When those digits
/// are all digits of that base and their value fits in a `u128`, the
/// literal is that value, over the token's span, and no error is recorded.
pub proof fn lemma_integer_literal_value(p: PState, tok: Token, base: BaseN)
    requires
        p_next(p).1 == Some(tok),
        tok.kind == (TokenKind::NumberLiteral { base, is_floating: false }),
        integer_digits(p, base, tok.span).len() > 0,
        forall|i: int|
            0 <= i < integer_digits(p, base, tok.span).len() ==> is_base_digit(
                #[trigger] integer_digits(p, base, tok.span)[i],
                match base {
                    BaseN::Bin => 2nat,
                    BaseN::Octal => 8nat,
                    BaseN::Decimal => 10nat,
                    BaseN::Hex => 16nat,
                },
            ),
        value_in_base(
            integer_digits(p, base, tok.span),
            match base {
                BaseN::Bin => 2nat,
                BaseN::Octal => 8nat,
                BaseN::Decimal => 10nat,
                BaseN::Hex => 16nat,
            },
        ) <= u128::MAX,
    ensures
        p_integer_literal(p) == (
            p_next(p).0,
            Some(
                literal(
                    SLiteral::Integer(
                        value_in_base(
                            integer_digits(p, base, tok.span),
                            match base {
                                BaseN::Bin => 2nat,
                                BaseN::Octal => 8nat,
                                BaseN::Decimal => 10nat,
                                BaseN::Hex => 16nat,
                            },
                        ) as u128,
                    ),
                    tok.span,
                ),
            ),
        ),
{
    reveal(p_integer_literal);
    let s = integer_digits(p, base, tok.span);
    let b: nat = match base {
        BaseN::Bin => 2nat,
        BaseN::Octal => 8nat,
        BaseN::Decimal => 10nat,
        BaseN::Hex => 16nat,
    };
    lemma_digits_value_in_base(s, b, u128::MAX as nat);
    assert(is_base_digit(s[0], b));
    assert(base.radix() == b);
}

} // verus!
