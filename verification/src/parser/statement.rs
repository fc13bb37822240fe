//! Statements and blocks.
use vstd::prelude::*;

use crate::ast::statement::{
    ForLoopStatement, IdentifierOrUnderscore, SIdentOrUnderscore, SStatement, SStatementKind,
    Statement, StatementKind, WhileLoopStatement, iou_view, ious_view, lemma_statements_push,
    statement_view, statements_view, lemma_statement_view_shape, lemma_block_view,
};
use crate::ast::{Block, SBlock, block_view, opt_return_type_view};
use crate::ast::expression::{maybe_expr_view, expr_view, lemma_empty_views};
use crate::parser::expression::{expression, p_expression};
use crate::parser::items::{p_return_type, return_type};
use crate::parser::{
    keeps_errors,
    Accept, PState, Parser, measure, merge, p_advance, p_identifier_or_underscore, p_is_next,
    p_next_if_kind, p_next_if_kind_errored, p_peek, steps_to,
};
use crate::tokens::{Span, Spanned, TokenKind};

verus! {

/// A block: statements between `{` and `}`.
#[verifier::opaque]
pub open spec fn p_block(p: PState) -> (PState, Option<SBlock>)
    decreases measure(p), 32nat,
{
    let (q, cbl) = p_advance(p, Accept::Kind(TokenKind::CurlyBracketLeft));
    match cbl {
        None => (q, None),
        Some(l) => if measure(q) < measure(p) {
            let (q1, stmts) = p_block_statements(q, Seq::empty());
            match stmts {
                None => (q1, None),
                Some(v) => {
                    let (q2, cbr) = p_advance(q1, Accept::Kind(TokenKind::CurlyBracketRight));
                    match cbr {
                        None => (q2, None),
                        Some(r) => (q2, Some(SBlock { data: v, span: merge(l.span, r.span) })),
                    }
                },
            }
        } else {
            (q, None)
        },
    }
}

/// The statements of a block, up to (not including) its `}`.
#[verifier::opaque]
pub open spec fn p_block_statements(p: PState, acc: Seq<SStatement>) -> (
    PState,
    Option<Seq<SStatement>>,
)
    decreases measure(p), 31nat,
{
    let (q, done) = p_is_next(p, TokenKind::CurlyBracketRight);
    if done {
        (q, Some(acc))
    } else if measure(q) <= measure(p) {
        let (q1, s) = p_statement(q);
        match s {
            None => (q1, None),
            Some(x) => if measure(q1) < measure(p) {
                p_block_statements(q1, acc.push(x))
            } else {
                (q1, None)
            },
        }
    } else {
        (q, None)
    }
}

/// A statement, chosen by its first token; `None` at the end of the text.
#[verifier::opaque]
pub open spec fn p_statement(p: PState) -> (PState, Option<SStatement>)
    decreases measure(p), 30nat,
{
    let (q, t) = p_peek(p);
    match t {
        None => (q, None),
        Some(tok) => if measure(q) <= measure(p) {
            match tok.kind {
                TokenKind::Semicolon => p_empty_statement(q),
                TokenKind::ReturnKeyword => p_return_statement(q),
                TokenKind::LetKeyword => p_let_statement(q),
                TokenKind::ForKeyword => p_for_statement(q),
                TokenKind::WhileKeyword => p_while_statement(q),
                TokenKind::BreakKeyword => p_jump_statement(q, TokenKind::BreakKeyword),
                TokenKind::ContinueKeyword => p_jump_statement(q, TokenKind::ContinueKeyword),
                _ => p_expression_statement(q),
            }
        } else {
            (q, None)
        },
    }
}

/// `;`.
#[verifier::opaque]
pub open spec fn p_empty_statement(p: PState) -> (PState, Option<SStatement>) {
    let (q, semi) = p_next_if_kind(p, TokenKind::Semicolon);
    match semi {
        None => (q, None),
        Some(s) => (q, Some(SStatement { kind: SStatementKind::Empty, span: s.span })),
    }
}

/// An expression, and the `;` after it if there is one.
#[verifier::opaque]
pub open spec fn p_expression_statement(p: PState) -> (PState, Option<SStatement>)
    decreases measure(p), 29nat,
{
    let (q, e) = p_expression(p);
    match e {
        None => (q, None),
        Some(x) => {
            let (q1, semi) = p_next_if_kind(q, TokenKind::Semicolon);
            let end = match semi {
                Some(s) => s.span,
                None => x.span,
            };
            (
                q1,
                Some(
                    SStatement {
                        kind: SStatementKind::Expression(x, semi is None),
                        span: merge(x.span, end),
                    },
                ),
            )
        },
    }
}

/// `return`, an optional expression, and `;`.
#[verifier::opaque]
pub open spec fn p_return_statement(p: PState) -> (PState, Option<SStatement>)
    decreases measure(p), 29nat,
{
    let (q, kw) = p_next_if_kind_errored(p, TokenKind::ReturnKeyword);
    match kw {
        None => (q, None),
        Some(k) => {
            let (q1, bare) = p_is_next(q, TokenKind::Semicolon);
            let (q2, e, ok) = if bare {
                (q1, None, true)
            } else if measure(q1) < measure(p) {
                let (q2, e) = p_expression(q1);
                match e {
                    None => (q2, None, false),
                    Some(x) => (q2, Some(x), true),
                }
            } else {
                (q1, None, false)
            };
            if !ok {
                (q2, None)
            } else {
                let (q3, semi) = p_advance(q2, Accept::Kind(TokenKind::Semicolon));
                match semi {
                    None => (q3, None),
                    Some(s) => (
                        q3,
                        Some(
                            SStatement {
                                kind: SStatementKind::Return(e),
                                span: merge(k.span, s.span),
                            },
                        ),
                    ),
                }
            }
        },
    }
}

/// Names or `_` separated by commas, up to a token of kind `end`.
#[verifier::opaque]
pub open spec fn p_ious(p: PState, end: TokenKind, acc: Seq<SIdentOrUnderscore>) -> (
    PState,
    Option<Seq<SIdentOrUnderscore>>,
)
    decreases measure(p),
{
    let (q, done) = p_is_next(p, end);
    if done {
        (q, Some(acc))
    } else {
        let (q1, x) = p_identifier_or_underscore(q);
        match x {
            None => (q1, None),
            Some((v, _)) => {
                let (q2, done2) = p_is_next(q1, end);
                if done2 {
                    (q2, Some(acc.push(v)))
                } else {
                    let (q3, c) = p_advance(q2, Accept::Kind(TokenKind::Comma));
                    match c {
                        None => (q3, None),
                        Some(_) => if measure(q3) < measure(p) {
                            p_ious(q3, end, acc.push(v))
                        } else {
                            (q3, None)
                        },
                    }
                }
            },
        }
    }
}

/// The names bound by `let` or `for`: one name or `_`, or several between
/// parentheses.
#[verifier::opaque]
pub open spec fn p_bindings(p: PState) -> (PState, Option<Seq<SIdentOrUnderscore>>) {
    let (q, pl) = p_next_if_kind(p, TokenKind::ParanthesisLeft);
    match pl {
        Some(_) => {
            let (q1, ids) = p_ious(q, TokenKind::ParanthesisRight, Seq::empty());
            match ids {
                None => (q1, None),
                Some(v) => {
                    let (q2, pr) = p_advance(q1, Accept::Kind(TokenKind::ParanthesisRight));
                    match pr {
                        None => (q2, None),
                        Some(_) => (q2, Some(v)),
                    }
                },
            }
        },
        None => {
            let (q1, x) = p_identifier_or_underscore(q);
            match x {
                None => (q1, None),
                Some((v, _)) => (q1, Some(seq![v])),
            }
        },
    }
}

/// `let`, the names it binds, an optional `: type`, an optional
/// `= expression`, and `;`.
#[verifier::opaque]
pub open spec fn p_let_statement(p: PState) -> (PState, Option<SStatement>)
    decreases measure(p), 29nat,
{
    let (q, kw) = p_next_if_kind_errored(p, TokenKind::LetKeyword);
    match kw {
        None => (q, None),
        Some(k) => {
            let (q1, ids) = p_bindings(q);
            match ids {
                None => (q1, None),
                Some(names) => {
                    let (q2, colon) = p_next_if_kind(q1, TokenKind::Colon);
                    let (q3, rt, ok) = match colon {
                        Some(_) => {
                            let (q3, rt) = p_return_type(q2);
                            (q3, rt, rt is Some)
                        },
                        None => (q2, None, true),
                    };
                    if !ok {
                        (q3, None)
                    } else {
                        let (q4, eq) = p_is_next(q3, TokenKind::Equals);
                        let (q5, e, ok2) = if eq {
                            let (q5, t) = p_advance(q4, Accept::Kind(TokenKind::Equals));
                            match t {
                                None => (q5, None, false),
                                Some(_) => if measure(q5) < measure(p) {
                                    let (q6, e) = p_expression(q5);
                                    (q6, e, e is Some)
                                } else {
                                    (q5, None, false)
                                },
                            }
                        } else {
                            (q4, None, true)
                        };
                        if !ok2 {
                            (q5, None)
                        } else {
                            let (q6, semi) = p_advance(q5, Accept::Kind(TokenKind::Semicolon));
                            match semi {
                                None => (q6, None),
                                Some(s) => (
                                    q6,
                                    Some(
                                        SStatement {
                                            kind: SStatementKind::Let(names, rt, e),
                                            span: merge(k.span, s.span),
                                        },
                                    ),
                                ),
                            }
                        }
                    }
                },
            }
        },
    }
}

/// `for`, the names it binds, `in`, an expression and a block.
#[verifier::opaque]
pub open spec fn p_for_statement(p: PState) -> (PState, Option<SStatement>)
    decreases measure(p), 29nat,
{
    let (q, kw) = p_next_if_kind_errored(p, TokenKind::ForKeyword);
    match kw {
        None => (q, None),
        Some(k) => {
            let (q1, ids) = p_bindings(q);
            match ids {
                None => (q1, None),
                Some(names) => {
                    let (q2, i) = p_advance(q1, Accept::Kind(TokenKind::InKeyword));
                    match i {
                        None => (q2, None),
                        Some(_) => if measure(q2) < measure(p) {
                            let (q3, e) = p_expression(q2);
                            match e {
                                None => (q3, None),
                                Some(x) => if measure(q3) < measure(p) {
                                    let (q4, b) = p_block(q3);
                                    match b {
                                        None => (q4, None),
                                        Some(blk) => (
                                            q4,
                                            Some(
                                                SStatement {
                                                    kind: SStatementKind::ForLoop(names, x, blk),
                                                    span: merge(k.span, blk.span),
                                                },
                                            ),
                                        ),
                                    }
                                } else {
                                    (q3, None)
                                },
                            }
                        } else {
                            (q2, None)
                        },
                    }
                },
            }
        },
    }
}

/// `while`, an expression and a block.
#[verifier::opaque]
pub open spec fn p_while_statement(p: PState) -> (PState, Option<SStatement>)
    decreases measure(p), 29nat,
{
    let (q, kw) = p_next_if_kind_errored(p, TokenKind::WhileKeyword);
    match kw {
        None => (q, None),
        Some(k) => if measure(q) < measure(p) {
            let (q1, e) = p_expression(q);
            match e {
                None => (q1, None),
                Some(x) => if measure(q1) < measure(p) {
                    let (q2, b) = p_block(q1);
                    match b {
                        None => (q2, None),
                        Some(blk) => (
                            q2,
                            Some(
                                SStatement {
                                    kind: SStatementKind::WhileLoop(x, blk),
                                    span: merge(k.span, blk.span),
                                },
                            ),
                        ),
                    }
                } else {
                    (q1, None)
                },
            }
        } else {
            (q, None)
        },
    }
}

/// `break;` or `continue;`, as `keyword` says.
#[verifier::opaque]
pub open spec fn p_jump_statement(p: PState, keyword: TokenKind) -> (PState, Option<SStatement>) {
    let (q, kw) = p_next_if_kind_errored(p, keyword);
    match kw {
        None => (q, None),
        Some(k) => {
            let (q1, semi) = p_advance(q, Accept::Kind(TokenKind::Semicolon));
            match semi {
                None => (q1, None),
                Some(s) => (
                    q1,
                    Some(
                        SStatement {
                            kind: if keyword == TokenKind::BreakKeyword {
                                SStatementKind::Break
                            } else {
                                SStatementKind::Continue
                            },
                            span: merge(k.span, s.span),
                        },
                    ),
                ),
            }
        },
    }
}

/// `after` is `before` moved to the state of `res`, and `r` is the
/// statement of `res`; a parsed statement took at least one token.
pub open spec fn parsed_statement<'t>(
    before: Parser<'t>,
    after: Parser<'t>,
    res: (PState, Option<SStatement>),
    r: Option<Statement<'t>>,
) -> bool {
    &&& steps_to(before, after, res.0)
    &&& (match r {
        Some(x) => res.1 == Some(statement_view(x)),
        None => res.1 is None,
    })
    &&& (r is Some ==> measure(after@) < measure(before@))
}

/// Parses a block.
pub fn block<'t>(parser: &mut Parser<'t>) -> (r: Option<Block<'t>>)
    requires
        old(parser).wf(),
    ensures
        steps_to(*old(parser), *final(parser), p_block(old(parser)@).0),
        (match r {
            Some(b) => p_block(old(parser)@).1 == Some(block_view(b)),
            None => p_block(old(parser)@).1 is None,
        }),
        r is Some ==> measure(final(parser)@) < measure(old(parser)@),
    decreases measure(old(parser)@), 32nat,
{
    proof {
        reveal_with_fuel(p_block, 1);
        reveal_with_fuel(p_block_statements, 1);
    }
    let ghost p0 = parser@;
    let cbl = match parser.advance_until_kind(TokenKind::CurlyBracketLeft) {
        Some(t) => t,
        None => return None,
    };
    let ghost p1 = parser@;
    let mut statements: Vec<Statement<'t>> = Vec::new();
    proof {
        lemma_empty_views();
        assert(statements_view(statements@) =~= Seq::<SStatement>::empty());
    }
    loop
        invariant
            parser.wf(),
            parser.input() == old(parser).input(),
            keeps_errors(old(parser)@, parser@),
            parser@.st.text == p0.st.text,
            measure(parser@) <= measure(p1),
            measure(p1) < measure(p0),
            p0 == old(parser)@,
            p_advance(p0, Accept::Kind(TokenKind::CurlyBracketLeft)) == (p1, Some(cbl)),
            p_block_statements(parser@, statements_view(statements@)) == p_block_statements(
                p1,
                Seq::empty(),
            ),
        ensures
            parser.wf(),
            parser.input() == old(parser).input(),
            keeps_errors(old(parser)@, parser@),
            parser@.st.text == p0.st.text,
            measure(parser@) <= measure(p1),
            p_block_statements(p1, Seq::empty()) == (parser@, Some(statements_view(statements@))),
        decreases measure(parser@),
    {
        proof {
            reveal_with_fuel(p_block, 1);
            reveal_with_fuel(p_block_statements, 1);
            reveal_with_fuel(p_statement, 1);
        }
        let ghost p = parser@;
        if parser.is_next(TokenKind::CurlyBracketRight) {
            break ;
        }
        let st = match statement(parser) {
            Some(s) => s,
            None => return None,
        };
        proof {
            lemma_statements_push(statements@, st);
        }
        statements.push(st);
    }
    let cbr = match parser.advance_until_kind(TokenKind::CurlyBracketRight) {
        Some(t) => t,
        None => return None,
    };
    let b = Spanned { data: statements, span: Span { start: cbl.span.start, end: cbr.span.end } };
    proof {
        lemma_block_view(b);
    }
    Some(b)
}

/// Parses a statement.
pub fn statement<'t>(parser: &mut Parser<'t>) -> (r: Option<Statement<'t>>)
    requires
        old(parser).wf(),
    ensures
        parsed_statement(*old(parser), *final(parser), p_statement(old(parser)@), r),
    decreases measure(old(parser)@), 30nat,
{
    proof {
        reveal_with_fuel(p_statement, 1);
        reveal_with_fuel(p_expression_statement, 1);
        reveal_with_fuel(p_for_statement, 1);
        reveal_with_fuel(p_let_statement, 1);
        reveal_with_fuel(p_return_statement, 1);
        reveal_with_fuel(p_while_statement, 1);
    }
    let tok = match parser.peek() {
        Some(t) => t,
        None => return None,
    };
    match tok.kind {
        TokenKind::Semicolon => empty_statement(parser),
        TokenKind::ReturnKeyword => return_statement(parser),
        TokenKind::LetKeyword => let_statement(parser),
        TokenKind::ForKeyword => for_statement(parser),
        TokenKind::WhileKeyword => while_statement(parser),
        TokenKind::BreakKeyword => break_statement(parser),
        TokenKind::ContinueKeyword => continue_statement(parser),
        _ => expression_statement(parser),
    }
}

/// Parses `;`.
pub fn empty_statement<'t>(parser: &mut Parser<'t>) -> (r: Option<Statement<'t>>)
    requires
        old(parser).wf(),
    ensures
        parsed_statement(*old(parser), *final(parser), p_empty_statement(old(parser)@), r),
{
    proof {
        reveal(p_empty_statement);
    }
    match parser.next_if_kind(TokenKind::Semicolon) {
        Some(semi) => {
            let e = Statement { kind: StatementKind::Empty, span: semi.span };
            proof {
                lemma_statement_view_shape(e);
            }
            Some(e)
        },
        None => None,
    }
}

/// Parses an expression and an optional `;`.
pub fn expression_statement<'t>(parser: &mut Parser<'t>) -> (r: Option<Statement<'t>>)
    requires
        old(parser).wf(),
    ensures
        parsed_statement(*old(parser), *final(parser), p_expression_statement(old(parser)@), r),
    decreases measure(old(parser)@), 29nat,
{
    proof {
        reveal_with_fuel(p_expression_statement, 1);
        reveal_with_fuel(p_expression, 1);
    }
    let exp = match expression(parser) {
        Some(e) => e,
        None => return None,
    };
    let semicolon = parser.next_if_kind(TokenKind::Semicolon);
    let end = match semicolon {
        Some(s) => s.span,
        None => exp.span,
    };
    let span = Span { start: exp.span.start, end: end.end };
    {
        let e = Statement { kind: StatementKind::Expression(exp, semicolon.is_none()), span };
        proof {
            lemma_statement_view_shape(e);
        }
        Some(e)
    }
}

/// Parses `return`, an optional expression and `;`.
pub fn return_statement<'t>(parser: &mut Parser<'t>) -> (r: Option<Statement<'t>>)
    requires
        old(parser).wf(),
    ensures
        parsed_statement(*old(parser), *final(parser), p_return_statement(old(parser)@), r),
    decreases measure(old(parser)@), 29nat,
{
    proof {
        reveal_with_fuel(p_return_statement, 1);
        reveal_with_fuel(p_expression, 1);
    }
    let kw = match parser.next_if_kind_errored(TokenKind::ReturnKeyword) {
        Some(t) => t,
        None => return None,
    };
    let exp = if !parser.is_next(TokenKind::Semicolon) {
        match expression(parser) {
            Some(e) => Some(e),
            None => return None,
        }
    } else {
        None
    };
    let semi = match parser.advance_until_kind(TokenKind::Semicolon) {
        Some(t) => t,
        None => return None,
    };
    let span = Span { start: kw.span.start, end: semi.span.end };
    {
        let e = Statement { kind: StatementKind::Return(exp), span };
        proof {
            lemma_statement_view_shape(e);
        }
        Some(e)
    }
}

/// Parses names or `_` separated by commas up to a token of kind `end`.
fn ious<'t>(parser: &mut Parser<'t>, end: TokenKind) -> (r: Option<Vec<IdentifierOrUnderscore<'t>>>)
    requires
        old(parser).wf(),
    ensures
        steps_to(*old(parser), *final(parser), p_ious(old(parser)@, end, Seq::empty()).0),
        (match r {
            Some(v) => p_ious(old(parser)@, end, Seq::empty()).1 == Some(ious_view(v@)),
            None => p_ious(old(parser)@, end, Seq::empty()).1 is None,
        }),
{
    let ghost p0 = parser@;
    let mut v: Vec<IdentifierOrUnderscore<'t>> = Vec::new();
    proof {
        assert(ious_view(v@) =~= Seq::<SIdentOrUnderscore>::empty());
    }
    loop
        invariant
            parser.wf(),
            parser.input() == old(parser).input(),
            keeps_errors(old(parser)@, parser@),
            parser@.st.text == p0.st.text,
            measure(parser@) <= measure(p0),
            p0 == old(parser)@,
            p_ious(parser@, end, ious_view(v@)) == p_ious(p0, end, Seq::empty()),
        decreases measure(parser@),
    {
        proof {
            reveal_with_fuel(p_ious, 1);
        }
        let ghost p = parser@;
        if parser.is_next(end) {
            return Some(v);
        }
        let x = match parser.advance_until_identifier_or_underscore() {
            Some(x) => x,
            None => return None,
        };
        proof {
            assert(ious_view(v@.push(x)) =~= ious_view(v@).push(iou_view(x)));
        }
        v.push(x);
        if parser.is_next(end) {
            return Some(v);
        }
        if parser.advance_until_kind(TokenKind::Comma).is_none() {
            return None;
        }
    }
}

/// Parses the names bound by `let` or `for`.
fn bindings<'t>(parser: &mut Parser<'t>) -> (r: Option<Vec<IdentifierOrUnderscore<'t>>>)
    requires
        old(parser).wf(),
    ensures
        steps_to(*old(parser), *final(parser), p_bindings(old(parser)@).0),
        (match r {
            Some(v) => p_bindings(old(parser)@).1 == Some(ious_view(v@)),
            None => p_bindings(old(parser)@).1 is None,
        }),
{
    proof {
        reveal(p_bindings);
    }
    if parser.next_if_kind(TokenKind::ParanthesisLeft).is_some() {
        let ids = match ious(parser, TokenKind::ParanthesisRight) {
            Some(v) => v,
            None => return None,
        };
        if parser.advance_until_kind(TokenKind::ParanthesisRight).is_none() {
            return None;
        }
        Some(ids)
    } else {
        let x = match parser.advance_until_identifier_or_underscore() {
            Some(x) => x,
            None => return None,
        };
        let mut v = Vec::new();
        v.push(x);
        proof {
            assert(ious_view(v@) =~= seq![iou_view(x)]);
        }
        Some(v)
    }
}

/// Parses a `let` statement.
pub fn let_statement<'t>(parser: &mut Parser<'t>) -> (r: Option<Statement<'t>>)
    requires
        old(parser).wf(),
    ensures
        parsed_statement(*old(parser), *final(parser), p_let_statement(old(parser)@), r),
    decreases measure(old(parser)@), 29nat,
{
    proof {
        reveal_with_fuel(p_let_statement, 1);
        reveal_with_fuel(p_expression, 1);
    }
    let kw = match parser.next_if_kind_errored(TokenKind::LetKeyword) {
        Some(t) => t,
        None => return None,
    };
    let identifiers = match bindings(parser) {
        Some(v) => v,
        None => return None,
    };
    let rt = if parser.next_if_kind(TokenKind::Colon).is_some() {
        match return_type(parser) {
            Some(r) => Some(r),
            None => return None,
        }
    } else {
        None
    };
    let exp = if parser.is_next(TokenKind::Equals) {
        if parser.advance_until_kind(TokenKind::Equals).is_none() {
            return None;
        }
        match expression(parser) {
            Some(e) => Some(e),
            None => return None,
        }
    } else {
        None
    };
    let semi = match parser.advance_until_kind(TokenKind::Semicolon) {
        Some(t) => t,
        None => return None,
    };
    let span = Span { start: kw.span.start, end: semi.span.end };
    {
        let e = Statement { kind: StatementKind::Let(identifiers, rt, exp), span };
        proof {
            lemma_statement_view_shape(e);
        }
        Some(e)
    }
}

/// Parses a `for` loop.
pub fn for_statement<'t>(parser: &mut Parser<'t>) -> (r: Option<Statement<'t>>)
    requires
        old(parser).wf(),
    ensures
        parsed_statement(*old(parser), *final(parser), p_for_statement(old(parser)@), r),
    decreases measure(old(parser)@), 29nat,
{
    proof {
        reveal_with_fuel(p_for_statement, 1);
        reveal_with_fuel(p_block, 1);
        reveal_with_fuel(p_expression, 1);
    }
    let kw = match parser.next_if_kind_errored(TokenKind::ForKeyword) {
        Some(t) => t,
        None => return None,
    };
    let identifiers = match bindings(parser) {
        Some(v) => v,
        None => return None,
    };
    if parser.advance_until_kind(TokenKind::InKeyword).is_none() {
        return None;
    }
    let exp = match expression(parser) {
        Some(e) => e,
        None => return None,
    };
    let b = match block(parser) {
        Some(b) => b,
        None => return None,
    };
    let span = Span { start: kw.span.start, end: b.span.end };
    let st = Statement {
        kind: StatementKind::ForLoop(ForLoopStatement { identifiers, expression: exp, block: b }),
        span,
    };
    proof {
        lemma_statement_view_shape(st);
    }
    Some(st)
}

/// Parses a `while` loop.
pub fn while_statement<'t>(parser: &mut Parser<'t>) -> (r: Option<Statement<'t>>)
    requires
        old(parser).wf(),
    ensures
        parsed_statement(*old(parser), *final(parser), p_while_statement(old(parser)@), r),
    decreases measure(old(parser)@), 29nat,
{
    proof {
        reveal_with_fuel(p_while_statement, 1);
        reveal_with_fuel(p_block, 1);
        reveal_with_fuel(p_expression, 1);
    }
    let kw = match parser.next_if_kind_errored(TokenKind::WhileKeyword) {
        Some(t) => t,
        None => return None,
    };
    let exp = match expression(parser) {
        Some(e) => e,
        None => return None,
    };
    let b = match block(parser) {
        Some(b) => b,
        None => return None,
    };
    let span = Span { start: kw.span.start, end: b.span.end };
    let st = Statement {
        kind: StatementKind::WhileLoop(WhileLoopStatement { expression: exp, block: b }),
        span,
    };
    proof {
        lemma_statement_view_shape(st);
    }
    Some(st)
}

/// Parses `keyword ;` for `break` or `continue`.
fn jump_statement<'t>(parser: &mut Parser<'t>, keyword: TokenKind) -> (r: Option<Statement<'t>>)
    requires
        old(parser).wf(),
    ensures
        parsed_statement(*old(parser), *final(parser), p_jump_statement(old(parser)@, keyword), r),
{
    proof {
        reveal(p_jump_statement);
    }
    let kw = match parser.next_if_kind_errored(keyword) {
        Some(t) => t,
        None => return None,
    };
    let semi = match parser.advance_until_kind(TokenKind::Semicolon) {
        Some(t) => t,
        None => return None,
    };
    let span = Span { start: kw.span.start, end: semi.span.end };
    let kind = if keyword == TokenKind::BreakKeyword {
        StatementKind::Break
    } else {
        StatementKind::Continue
    };
    {
        let e = Statement { kind, span };
        proof {
            lemma_statement_view_shape(e);
        }
        Some(e)
    }
}

/// Parses `break;`.
pub fn break_statement<'t>(parser: &mut Parser<'t>) -> (r: Option<Statement<'t>>)
    requires
        old(parser).wf(),
    ensures
        parsed_statement(
            *old(parser),
            *final(parser),
            p_jump_statement(old(parser)@, TokenKind::BreakKeyword),
            r,
        ),
{
    jump_statement(parser, TokenKind::BreakKeyword)
}

/// Parses `continue;`.
pub fn continue_statement<'t>(parser: &mut Parser<'t>) -> (r: Option<Statement<'t>>)
    requires
        old(parser).wf(),
    ensures
        parsed_statement(
            *old(parser),
            *final(parser),
            p_jump_statement(old(parser)@, TokenKind::ContinueKeyword),
            r,
        ),
{
    jump_statement(parser, TokenKind::ContinueKeyword)
}


/// Reading statements after some already read gives those followed by what
/// reading from the same place with none read gives.
proof fn lemma_block_statements_acc(p: PState, acc: Seq<SStatement>)
    ensures
        p_block_statements(p, acc) == (match p_block_statements(p, Seq::empty()) {
            (q, Some(v)) => (q, Some(acc + v)),
            (q, None) => (q, None),
        }),
    decreases measure(p),
{
    reveal_with_fuel(p_block_statements, 1);
    reveal_with_fuel(p_statement, 1);
    let (q, done) = p_is_next(p, TokenKind::CurlyBracketRight);
    if done {
        assert(acc + Seq::<SStatement>::empty() =~= acc);
    } else if measure(q) <= measure(p) {
        let (q1, st) = p_statement(q);
        if let Some(x) = st {
            if measure(q1) < measure(p) {
                lemma_block_statements_acc(q1, acc.push(x));
                lemma_block_statements_acc(q1, Seq::empty().push(x));
                match p_block_statements(q1, Seq::empty()) {
                    (_, Some(v)) => {
                        assert(acc.push(x) + v =~= acc + (Seq::empty().push(x) + v));
                    },
                    (_, None) => {},
                }
            }
        }
    }
}

/// The statements of a block are read in order, between its braces: with
/// `}` next there are none; otherwise, whenever the list is read, it is the
/// first statement followed by the statements read after that one.
pub proof fn lemma_block_statements_in_order(p: PState)
    ensures
        p_is_next(p, TokenKind::CurlyBracketRight).1 ==> p_block_statements(p, Seq::empty()) == (
            p_is_next(p, TokenKind::CurlyBracketRight).0,
            Some(Seq::<SStatement>::empty()),
        ),
        !p_is_next(p, TokenKind::CurlyBracketRight).1 && p_block_statements(p, Seq::empty()).1 is Some
            ==> ({
            let (q1, st) = p_statement(p_is_next(p, TokenKind::CurlyBracketRight).0);
            &&& st is Some
            &&& p_block_statements(q1, Seq::empty()).1 is Some
            &&& p_block_statements(p, Seq::empty()) == (
                p_block_statements(q1, Seq::empty()).0,
                Some(seq![st->0] + p_block_statements(q1, Seq::empty()).1->0),
            )
        }),
{
    reveal_with_fuel(p_block_statements, 1);
    reveal_with_fuel(p_statement, 1);
    let (q, done) = p_is_next(p, TokenKind::CurlyBracketRight);
    if !done && measure(q) <= measure(p) {
        let (q1, st) = p_statement(q);
        if let Some(x) = st {
            if measure(q1) < measure(p) {
                lemma_block_statements_acc(q1, Seq::empty().push(x));
                assert(Seq::<SStatement>::empty().push(x) =~= seq![x]);
            }
        }
    }
}

} // verus!
