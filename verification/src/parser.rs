//! The parser: builds a syntax tree from the token stream.
//!
//! A parser's abstract state ([`PState`]) is the state of its token stream
//! and the list of errors recorded so far. Each parse function's contract
//! states, as a spec function of the state it starts from, the state it
//! leaves and the abstract value of the tree it builds.
use vstd::prelude::*;
use vstd::string::StrSliceExecFns;

pub mod expression;
pub mod items;
pub mod literal;
pub mod statement;

use crate::ast::statement::{IdentifierOrUnderscore, SIdentOrUnderscore, iou_view};
use crate::ast::{Path, SPath, names_view};
use crate::chars::{newlines, text_len};
use crate::error::{ParseError, ParseErrorKind};
use crate::lexer::{
    StreamState, TokenStream, lemma_char_index_out, stream_measure, stream_next, stream_peek,
    text_between,
};
use crate::string::{UnescapedStringBuilder, empty_escape_error, spec_unescape, spec_unescape_end};
use crate::tokens::{Span, Spanned, Token, TokenKind};

verus! {

/// Where the text ended: its last line and its length in bytes.
#[derive(Clone, Copy, Debug, PartialEq, Eq, Structural)]
pub struct EndLineInformation {
    pub line: usize,
    pub len: usize,
}

impl EndLineInformation {
    pub fn new(line: usize, len: usize) -> (r: Self)
        ensures
            r == (EndLineInformation { line, len }),
    {
        EndLineInformation { line, len }
    }

    pub fn line(&self) -> (r: usize)
        ensures
            r == self.line,
    {
        self.line
    }

    pub fn input_len(&self) -> (r: usize)
        ensures
            r == self.len,
    {
        self.len
    }
}

/// A failure of a parse step whose errors were already recorded.
#[derive(Clone, Copy, Debug, PartialEq, Eq, Structural)]
pub struct ParseErrored;

/// The abstract state of a parser: its token stream and its errors.
pub struct PState {
    pub st: StreamState,
    pub errors: Seq<ParseError>,
}

/// How much of the text is left to parse: falls whenever a token is taken.
pub open spec fn measure(p: PState) -> nat {
    if stream_measure(p.st) >= 0 {
        stream_measure(p.st) as nat
    } else {
        0
    }
}

/// The span from the start of `a` to the end of `b`.
pub open spec fn merge(a: Span, b: Span) -> Span {
    Span { start: a.start, end: b.end }
}

/// The line the lexer is on.
pub open spec fn line_of(p: PState) -> usize {
    newlines(p.st.text.take(p.st.pos)) as usize
}

/// The length of the text in bytes.
pub open spec fn len_of(p: PState) -> usize {
    text_len(p.st.text) as usize
}

/// The error for a missing token at the end of the text.
pub open spec fn end_error(p: PState, kind: ParseErrorKind) -> ParseError {
    ParseError { kind, span: Span { start: len_of(p), end: len_of(p) }, line: line_of(p) }
}

pub open spec fn with_stream(p: PState, st: StreamState) -> PState {
    PState { st, errors: p.errors }
}

pub open spec fn with_error(p: PState, e: ParseError) -> PState {
    PState { st: p.st, errors: p.errors.push(e) }
}

/// The state with `t` kept back as the next token.
pub open spec fn kept(p: PState, t: Option<Token>) -> PState {
    PState { st: StreamState { text: p.st.text, pos: p.st.pos, peeked: Some(t) }, errors: p.errors }
}

pub open spec fn p_peek(p: PState) -> (PState, Option<Token>) {
    let (st, t) = stream_peek(p.st);
    (with_stream(p, st), t)
}

pub open spec fn p_next(p: PState) -> (PState, Option<Token>) {
    let (st, t) = stream_next(p.st);
    (with_stream(p, st), t)
}

pub open spec fn p_is_next(p: PState, kind: TokenKind) -> (PState, bool) {
    let (q, t) = p_peek(p);
    (q, t matches Some(x) && x.kind == kind)
}

/// Takes the next token if it is of `kind`.
pub open spec fn p_next_if_kind(p: PState, kind: TokenKind) -> (PState, Option<Token>) {
    let (q, t) = p_peek(p);
    match t {
        Some(tok) => if tok.kind == kind {
            (p_next(q).0, Some(tok))
        } else {
            (q, None)
        },
        None => (q, None),
    }
}

/// Takes the next token if it is of `expected`; otherwise records an error
/// and keeps the token.
pub open spec fn p_next_if_kind_errored(p: PState, expected: TokenKind) -> (PState, Option<Token>) {
    let (q, t) = p_next(p);
    match t {
        Some(tok) => if tok.kind == expected {
            (q, Some(tok))
        } else {
            (
                with_error(
                    kept(q, t),
                    ParseError {
                        kind: ParseErrorKind::InvalidToken(expected, tok.kind),
                        span: tok.span,
                        line: tok.line,
                    },
                ),
                None,
            )
        },
        None => (with_error(kept(q, t), end_error(p, ParseErrorKind::ExpectedToken(expected))), None),
    }
}

/// Peeking does not change the token `next` hands out, nor the state after
/// it.
pub proof fn lemma_peek_then_next(p: PState)
    ensures
        p_next(p_peek(p).0) == p_next(p),
{
}

/// Peeking twice shows the same token as peeking once, and leaves the same
/// state.
pub proof fn lemma_peek_twice(p: PState)
    ensures
        p_peek(p_peek(p).0) == p_peek(p),
{
}

/// `next_if_kind` takes a token exactly when the next token has that kind,
/// and then does what `next` does; otherwise it only peeks.
pub proof fn lemma_next_if_kind(p: PState, k: TokenKind)
    ensures
        (p_next_if_kind(p, k).1 is Some) == (p_peek(p).1 matches Some(t) && t.kind == k),
        p_next_if_kind(p, k).1 is Some ==> p_next_if_kind(p, k) == p_next(p),
        p_next_if_kind(p, k).1 is None ==> p_next_if_kind(p, k).0 == p_peek(p).0,
{
}

/// Recording an error keeps the errors recorded before it.
pub proof fn lemma_error_keeps(p: PState, e: ParseError)
    ensures
        keeps_errors(p, with_error(p, e)),
        with_error(p, e).errors.last() == e,
{
}

/// The tokens an advancing step looks for.
#[derive(Clone, Copy, Debug, PartialEq, Eq, Structural)]
pub enum Accept {
    Kind(TokenKind),
    IdentifierOrUnderscore,
    IdentifierOrSelf,
    StructBody,
}

pub open spec fn accepts(a: Accept, k: TokenKind) -> bool {
    match a {
        Accept::Kind(e) => k == e,
        Accept::IdentifierOrUnderscore => k == TokenKind::Identifier || k == TokenKind::Underscore,
        Accept::IdentifierOrSelf => k == TokenKind::Identifier || k == TokenKind::SelfKeyword,
        Accept::StructBody => k == TokenKind::Semicolon || k == TokenKind::CurlyBracketLeft,
    }
}

/// The error recorded for a token that an advancing step skips.
pub open spec fn skip_error(a: Accept, tok: Token) -> ParseError {
    let kind = match a {
        Accept::Kind(e) => ParseErrorKind::InvalidToken(e, tok.kind),
        Accept::StructBody => ParseErrorKind::InvalidStructToken(tok.kind),
        _ => ParseErrorKind::InvalidToken(TokenKind::Identifier, tok.kind),
    };
    ParseError { kind, span: tok.span, line: tok.line }
}

/// Skips tokens, recording an error for each, until one that `a` accepts,
/// which it takes; `None` at the end of the text.
pub open spec fn p_advance(p: PState, a: Accept) -> (PState, Option<Token>)
    decreases measure(p),
{
    let (q, t) = p_peek(p);
    match t {
        None => (q, None),
        Some(tok) => if accepts(a, tok.kind) {
            (p_next(q).0, Some(tok))
        } else {
            let q2 = with_error(p_next(q).0, skip_error(a, tok));
            if measure(q2) < measure(p) {
                p_advance(q2, a)
            } else {
                (q2, None)
            }
        },
    }
}

/// The text of an identifier token.
pub open spec fn token_text(p: PState, t: Token) -> Seq<char> {
    text_between(p.st.text, t.span.start as int, t.span.end as int)
}

/// Advances to an identifier and gives its text and span.
pub open spec fn p_identifier(p: PState) -> (PState, Option<(Seq<char>, Span)>) {
    let (q, t) = p_advance(p, Accept::Kind(TokenKind::Identifier));
    match t {
        Some(tok) => (q, Some((token_text(p, tok), tok.span))),
        None => (q, None),
    }
}

/// Advances to an identifier or `_`.
pub open spec fn p_identifier_or_underscore(p: PState) -> (PState, Option<(SIdentOrUnderscore, Span)>) {
    let (q, t) = p_advance(p, Accept::IdentifierOrUnderscore);
    match t {
        Some(tok) => if tok.kind == TokenKind::Identifier {
            (q, Some((SIdentOrUnderscore::Identifier(token_text(p, tok)), tok.span)))
        } else {
            (q, Some((SIdentOrUnderscore::Underscore, tok.span)))
        },
        None => (q, None),
    }
}

/// The rest of a path after its first name: `:: name` repeated.
pub open spec fn p_path_tail(p: PState, names: Seq<Seq<char>>, last: Span) -> (
    PState,
    Option<(Seq<Seq<char>>, Span)>,
)
    decreases measure(p),
{
    let (q, c) = p_next_if_kind(p, TokenKind::ColonColon);
    match c {
        None => (q, Some((names, last))),
        Some(_) => {
            let (q2, id) = p_identifier(q);
            match id {
                None => (q2, None),
                Some((name, span)) => if measure(q2) < measure(p) {
                    p_path_tail(q2, names.push(name), span)
                } else {
                    (q2, None)
                },
            }
        },
    }
}

/// Names joined by `::`.
pub open spec fn p_path(p: PState) -> (PState, Option<SPath>) {
    let (q, first) = p_identifier(p);
    match first {
        None => (q, None),
        Some((name, span)) => {
            let (q2, rest) = p_path_tail(q, seq![name], span);
            match rest {
                None => (q2, None),
                Some((names, last)) => (
                    q2,
                    Some(SPath { identifiers: names, span: Span { start: span.start, end: last.end } }),
                ),
            }
        },
    }
}

/// The parser: a token stream over a text and the errors found so far.
#[derive(Debug)]
pub struct Parser<'t> {
    token_stream: TokenStream,
    input: &'t str,
    errors: Vec<ParseError>,
}

impl<'t> View for Parser<'t> {
    type V = PState;

    closed spec fn view(&self) -> PState {
        PState { st: self.token_stream@, errors: self.errors@ }
    }
}

/// The errors of `q` begin with those of `p`: errors are only ever added.
pub open spec fn keeps_errors(p: PState, q: PState) -> bool {
    &&& p.errors.len() <= q.errors.len()
    &&& forall|i: int| 0 <= i < p.errors.len() ==> #[trigger] q.errors[i] == p.errors[i]
}

/// `after` is a well-formed parser over the input of `before`, in the state
/// `q`, and no further from the end of the text than `before`.
pub open spec fn steps_to<'t>(before: Parser<'t>, after: Parser<'t>, q: PState) -> bool {
    &&& after.wf()
    &&& after.input() == before.input()
    &&& after@ == q
    &&& measure(q) <= measure(before@)
    &&& q.st.text == before@.st.text
    &&& keeps_errors(before@, q)
}

impl<'t> Parser<'t> {
    pub closed spec fn wf(&self) -> bool {
        &&& self.token_stream.wf()
        &&& self.token_stream@.text == self.input@
        &&& self.token_stream.spec_line() == newlines(
            self.token_stream@.text.take(self.token_stream@.pos),
        )
    }

    pub closed spec fn input(&self) -> &'t str {
        self.input
    }

    pub fn new(input: &'t str) -> (r: Self)
        requires
            text_len(input@) < usize::MAX,
        ensures
            r.wf(),
            r.input() == input,
            r@ == (PState {
                st: StreamState { text: input@, pos: 0, peeked: None },
                errors: Seq::empty(),
            }),
    {
        let token_stream = TokenStream::new(input);
        proof {
            token_stream.lemma_wf();
        }
        Parser { token_stream, input, errors: Vec::new() }
    }

    /// The errors recorded so far.
    pub fn errors(&self) -> (r: &[ParseError])
        ensures
            r@ == self@.errors,
    {
        self.errors.as_slice()
    }

    /// Parses an expression.
    pub fn expression(&mut self) -> (r: Option<crate::ast::expression::Expression<'t>>)
        requires
            old(self).wf(),
        ensures
            crate::parser::expression::parsed_expr(
                *old(self),
                *final(self),
                crate::parser::expression::p_expression(old(self)@),
                r,
            ),
    {
        crate::parser::expression::expression(self)
    }

    /// Whether no token is left.
    pub fn reached_eof(&mut self) -> (b: bool)
        requires
            old(self).wf(),
        ensures
            final(self).wf(),
            final(self).input() == old(self).input(),
            (final(self)@, b) == (p_peek(old(self)@).0, p_peek(old(self)@).1 is None),
            measure(final(self)@) <= measure(old(self)@),
    {
        let b = self.token_stream.reached_eof();
        proof {
            self.token_stream.lemma_wf();
        }
        b
    }

    pub(crate) fn peek(&mut self) -> (r: Option<Token>)
        requires
            old(self).wf(),
        ensures
            final(self).wf(),
            final(self).input() == old(self).input(),
            (final(self)@, r) == p_peek(old(self)@),
            measure(final(self)@) <= measure(old(self)@),
    {
        let r = self.token_stream.peek();
        proof {
            self.token_stream.lemma_wf();
        }
        r
    }

    pub(crate) fn next(&mut self) -> (r: Option<Token>)
        requires
            old(self).wf(),
        ensures
            final(self).wf(),
            final(self).input() == old(self).input(),
            (final(self)@, r) == p_next(old(self)@),
            measure(final(self)@) <= measure(old(self)@),
            r is Some ==> measure(final(self)@) < measure(old(self)@),
    {
        let r = self.token_stream.next();
        proof {
            self.token_stream.lemma_wf();
        }
        r
    }

    pub(crate) fn line(&self) -> (r: usize)
        requires
            self.wf(),
        ensures
            r == line_of(self@),
    {
        proof {
            self.token_stream.lemma_wf();
        }
        self.token_stream.line()
    }

    pub(crate) fn input_len(&self) -> (r: usize)
        requires
            self.wf(),
        ensures
            r == len_of(self@),
    {
        self.token_stream.input_len()
    }

    pub(crate) fn error(&mut self, error: ParseError)
        requires
            old(self).wf(),
        ensures
            final(self).wf(),
            final(self).input() == old(self).input(),
            final(self)@ == with_error(old(self)@, error),
    {
        self.errors.push(error);
    }

    pub(crate) fn keep(&mut self, t: Option<Token>)
        requires
            old(self).wf(),
        ensures
            final(self).wf(),
            final(self).input() == old(self).input(),
            final(self)@ == kept(old(self)@, t),
    {
        self.token_stream.put_back(t);
    }

    pub(crate) fn is_next(&mut self, kind: TokenKind) -> (b: bool)
        requires
            old(self).wf(),
        ensures
            final(self).wf(),
            final(self).input() == old(self).input(),
            (final(self)@, b) == p_is_next(old(self)@, kind),
            measure(final(self)@) <= measure(old(self)@),
    {
        match self.peek() {
            Some(t) => t.kind == kind,
            None => false,
        }
    }

    pub(crate) fn next_if_kind(&mut self, kind: TokenKind) -> (r: Option<Token>)
        requires
            old(self).wf(),
        ensures
            final(self).wf(),
            final(self).input() == old(self).input(),
            (final(self)@, r) == p_next_if_kind(old(self)@, kind),
            measure(final(self)@) <= measure(old(self)@),
            r is Some ==> measure(final(self)@) < measure(old(self)@),
    {
        match self.peek() {
            Some(t) => {
                if t.kind == kind {
                    self.next();
                    Some(t)
                } else {
                    None
                }
            },
            None => None,
        }
    }

    pub(crate) fn next_if_kind_errored(&mut self, expected: TokenKind) -> (r: Option<Token>)
        requires
            old(self).wf(),
        ensures
            final(self).wf(),
            final(self).input() == old(self).input(),
            (final(self)@, r) == p_next_if_kind_errored(old(self)@, expected),
            measure(final(self)@) <= measure(old(self)@),
            r is Some ==> measure(final(self)@) < measure(old(self)@),
    {
        let line = self.line();
        let len = self.input_len();
        let t = self.next();
        match t {
            Some(token) => {
                if token.kind == expected {
                    Some(token)
                } else {
                    self.keep(t);
                    self.error(
                        ParseError::new(
                            ParseErrorKind::InvalidToken(expected, token.kind),
                            token.span,
                            token.line,
                        ),
                    );
                    None
                }
            },
            None => {
                self.keep(t);
                self.error(
                    ParseError::new(
                        ParseErrorKind::ExpectedToken(expected),
                        Span { start: len, end: len },
                        line,
                    ),
                );
                None
            },
        }
    }

    /// Skips tokens until one that `a` accepts, recording an error for
    /// each skipped token.
    pub(crate) fn advance(&mut self, a: Accept) -> (r: Option<Token>)
        requires
            old(self).wf(),
        ensures
            final(self).wf(),
            keeps_errors(old(self)@, final(self)@),
            final(self)@.st.text == old(self)@.st.text,
            final(self).input() == old(self).input(),
            (final(self)@, r) == p_advance(old(self)@, a),
            measure(final(self)@) <= measure(old(self)@),
            r is Some ==> measure(final(self)@) < measure(old(self)@),
    {
        let ghost p0 = self@;
        loop
            invariant
                self.wf(),
                self.input() == old(self).input(),
                p_advance(self@, a) == p_advance(p0, a),
                keeps_errors(p0, self@),
                self@.st.text == p0.st.text,
                measure(self@) <= measure(p0),
                p0 == old(self)@,
            decreases measure(self@),
        {
            let ghost p = self@;
            match self.peek() {
                None => return None,
                Some(tok) => {
                    let accepted = match a {
                        Accept::Kind(e) => tok.kind == e,
                        Accept::IdentifierOrUnderscore => tok.kind == TokenKind::Identifier
                            || tok.kind == TokenKind::Underscore,
                        Accept::IdentifierOrSelf => tok.kind == TokenKind::Identifier || tok.kind
                            == TokenKind::SelfKeyword,
                        Accept::StructBody => tok.kind == TokenKind::Semicolon || tok.kind
                            == TokenKind::CurlyBracketLeft,
                    };
                    if accepted {
                        self.next();
                        return Some(tok);
                    }
                    let kind = match a {
                        Accept::Kind(e) => ParseErrorKind::InvalidToken(e, tok.kind),
                        Accept::StructBody => ParseErrorKind::InvalidStructToken(tok.kind),
                        _ => ParseErrorKind::InvalidToken(TokenKind::Identifier, tok.kind),
                    };
                    self.next();
                    self.error(ParseError::new(kind, tok.span, tok.line));
                },
            }
        }
    }

    pub(crate) fn advance_until_kind(&mut self, expected: TokenKind) -> (r: Option<Token>)
        requires
            old(self).wf(),
        ensures
            final(self).wf(),
            keeps_errors(old(self)@, final(self)@),
            final(self)@.st.text == old(self)@.st.text,
            final(self).input() == old(self).input(),
            (final(self)@, r) == p_advance(old(self)@, Accept::Kind(expected)),
            measure(final(self)@) <= measure(old(self)@),
            r is Some ==> measure(final(self)@) < measure(old(self)@),
    {
        self.advance(Accept::Kind(expected))
    }

    /// The text covered by the bytes of `span`.
    pub(crate) fn text_of(&self, span: Span) -> (r: &'t str)
        requires
            self.wf(),
        ensures
            r@ == text_between(self@.st.text, span.start as int, span.end as int),
    {
        let a = self.token_stream.char_index(span.start);
        let b = self.token_stream.char_index(span.end);
        proof {
            reveal_strlit("");
            let cs = self@.st.text;
            self.token_stream.lemma_wf();
            crate::chars::lemma_text_len_full(cs);
            crate::chars::lemma_offset_mono(cs, 0, cs.len() as int);
            crate::lexer::lemma_char_index_in(cs, span.start as int);
            crate::lexer::lemma_char_index_in(cs, span.end as int);
        }
        if let (Some(i), Some(j)) = (a, b) {
            if i <= j {
                return self.input.substring_char(i, j);
            }
        }
        ""
    }

    /// The text between the bytes `start + a` and `end - b`.
    pub(crate) fn text_in(&self, start: usize, a: usize, end: usize, b: usize) -> (r: &'t str)
        requires
            self.wf(),
        ensures
            r@ == text_between(self@.st.text, start + a, end - b),
    {
        if start > usize::MAX - a || end < b {
            proof {
                reveal_strlit("");
                self.token_stream.lemma_wf();
                if start + a > usize::MAX {
                    lemma_char_index_out(self@.st.text, start + a);
                } else {
                    lemma_char_index_out(self@.st.text, end - b);
                }
            }
            ""
        } else {
            self.text_of(Span { start: start + a, end: end - b })
        }
    }

    /// Replaces the escapes of `raw` by the characters they stand for,
    /// recording an error for a backslash at its end; `line` is the line
    /// where `raw` starts.
    pub(crate) fn unescape(&mut self, raw: &str, line: usize) -> (r: String)
        requires
            old(self).wf(),
            text_len(raw@) + line <= usize::MAX,
        ensures
            final(self).wf(),
            final(self).input() == old(self).input(),
            r@ == spec_unescape(raw@, 0).0,
            final(self)@ == (if spec_unescape(raw@, 0).1 {
                with_error(
                    old(self)@,
                    empty_escape_error(raw@, spec_unescape_end(raw@, 0) - 1, line as int),
                )
            } else {
                old(self)@
            }),
    {
        let mut builder = UnescapedStringBuilder::new(raw, line);
        builder.collect_string(&mut self.errors)
    }

    pub fn advance_until_identifier(&mut self) -> (r: Option<&'t str>)
        requires
            old(self).wf(),
        ensures
            final(self).wf(),
            keeps_errors(old(self)@, final(self)@),
            final(self)@.st.text == old(self)@.st.text,
            final(self).input() == old(self).input(),
            final(self)@ == p_identifier(old(self)@).0,
            match p_identifier(old(self)@).1 {
                Some((name, _)) => r matches Some(s) && s@ == name,
                None => r is None,
            },
            measure(final(self)@) <= measure(old(self)@),
            r is Some ==> measure(final(self)@) < measure(old(self)@),
    {
        let token = match self.advance_until_kind(TokenKind::Identifier) {
            Some(t) => t,
            None => return None,
        };
        Some(self.text_of(token.span))
    }

    pub fn advance_until_identifier_spanned(&mut self) -> (r: Option<Spanned<&'t str>>)
        requires
            old(self).wf(),
        ensures
            final(self).wf(),
            keeps_errors(old(self)@, final(self)@),
            final(self)@.st.text == old(self)@.st.text,
            final(self).input() == old(self).input(),
            final(self)@ == p_identifier(old(self)@).0,
            match p_identifier(old(self)@).1 {
                Some((name, span)) => r matches Some(s) && s.data@ == name && s.span == span,
                None => r is None,
            },
            measure(final(self)@) <= measure(old(self)@),
            r is Some ==> measure(final(self)@) < measure(old(self)@),
    {
        let token = match self.advance_until_kind(TokenKind::Identifier) {
            Some(t) => t,
            None => return None,
        };
        Some(Spanned::new(self.text_of(token.span), token.span))
    }

    pub fn advance_until_identifier_or_underscore_spanned(&mut self) -> (r: Option<
        Spanned<IdentifierOrUnderscore<'t>>,
    >)
        requires
            old(self).wf(),
        ensures
            final(self).wf(),
            keeps_errors(old(self)@, final(self)@),
            final(self)@.st.text == old(self)@.st.text,
            final(self).input() == old(self).input(),
            final(self)@ == p_identifier_or_underscore(old(self)@).0,
            match p_identifier_or_underscore(old(self)@).1 {
                Some((v, span)) => r matches Some(s) && iou_view(s.data) == v && s.span == span,
                None => r is None,
            },
            measure(final(self)@) <= measure(old(self)@),
            r is Some ==> measure(final(self)@) < measure(old(self)@),
    {
        let token = match self.advance(Accept::IdentifierOrUnderscore) {
            Some(t) => t,
            None => return None,
        };
        if token.kind == TokenKind::Identifier {
            Some(Spanned::new(IdentifierOrUnderscore::Identifier(self.text_of(token.span)), token.span))
        } else {
            Some(Spanned::new(IdentifierOrUnderscore::Underscore, token.span))
        }
    }

    pub fn advance_until_identifier_or_underscore(&mut self) -> (r: Option<IdentifierOrUnderscore<'t>>)
        requires
            old(self).wf(),
        ensures
            final(self).wf(),
            keeps_errors(old(self)@, final(self)@),
            final(self)@.st.text == old(self)@.st.text,
            final(self).input() == old(self).input(),
            final(self)@ == p_identifier_or_underscore(old(self)@).0,
            match p_identifier_or_underscore(old(self)@).1 {
                Some((v, _)) => r matches Some(s) && iou_view(s) == v,
                None => r is None,
            },
            measure(final(self)@) <= measure(old(self)@),
            r is Some ==> measure(final(self)@) < measure(old(self)@),
    {
        match self.advance_until_identifier_or_underscore_spanned() {
            Some(t) => Some(t.data),
            None => None,
        }
    }

    /// Names joined by `::`.
    #[verifier::rlimit(40)]
    pub fn advance_until_path(&mut self) -> (r: Option<Path<'t>>)
        requires
            old(self).wf(),
        ensures
            final(self).wf(),
            keeps_errors(old(self)@, final(self)@),
            final(self)@.st.text == old(self)@.st.text,
            final(self).input() == old(self).input(),
            final(self)@ == p_path(old(self)@).0,
            match p_path(old(self)@).1 {
                Some(v) => r matches Some(x) && crate::ast::path_view(x) == v,
                None => r is None,
            },
            measure(final(self)@) <= measure(old(self)@),
            r is Some ==> measure(final(self)@) < measure(old(self)@),
    {
        let first = match self.advance_until_identifier_spanned() {
            Some(f) => f,
            None => return None,
        };
        let mut identifiers: Vec<&'t str> = Vec::new();
        identifiers.push(first.data);
        let mut last_span = first.span;
        let ghost p1 = self@;
        let ghost start_names = seq![first.data@];
        let ghost mut names = start_names;
        proof {
            assert(names_view(identifiers@) =~= names);
        }
        loop
            invariant
                self.wf(),
                self.input() == old(self).input(),
                names_view(identifiers@) == names,
                self@.st.text == old(self)@.st.text,
                keeps_errors(old(self)@, self@),
                p_path_tail(self@, names, last_span) == p_path_tail(p1, start_names, first.span),
                measure(self@) <= measure(p1),
                measure(p1) < measure(old(self)@),
                p_identifier(old(self)@) == (p1, Some((first.data@, first.span))),
                start_names == seq![first.data@],
            ensures
                p_path_tail(p1, start_names, first.span) == (self@, Some((names, last_span))),
                names_view(identifiers@) == names,
            decreases measure(self@),
        {
            let ghost p = self@;
            match self.next_if_kind(TokenKind::ColonColon) {
                None => {
                    break;
                },
                Some(_) => {
                    let identifier = match self.advance_until_identifier_spanned() {
                        Some(i) => i,
                        None => {
                            proof {
                                assert(p_path_tail(p, names, last_span) == (self@, None::<(Seq<Seq<char>>, Span)>));
                                assert(p_path(old(self)@) == (self@, None::<SPath>));
                            }
                            return None;
                        },
                    };
                    proof {
                        assert(names_view(identifiers@.push(identifier.data)) =~= names.push(
                            identifier.data@,
                        ));
                        names = names.push(identifier.data@);
                    }
                    identifiers.push(identifier.data);
                    last_span = identifier.span;
                },
            }
        }
        let span = Span { start: first.span.start, end: last_span.end };
        Some(Path { identifiers, span })
    }
}

} // verus!
