//! Statements of the syntax tree, and their abstract values.
use vstd::prelude::*;

use crate::ast::{Block, ReturnType, SBlock, SReturnType};
use crate::ast::expression::{Expression, SExpression, expr_view, maybe_expr_view, opt_expr_view};
use crate::tokens::Span;

verus! {

#[derive(Debug, PartialEq, Eq)]
pub struct Statement<'e> {
    pub kind: StatementKind<'e>,
    pub span: Span,
}

#[derive(Debug, PartialEq, Eq)]
pub enum StatementKind<'e> {
    Empty,
    /// An expression, and whether it had no closing semicolon.
    Expression(Expression<'e>, bool),
    Return(Option<Expression<'e>>),
    Let(Vec<IdentifierOrUnderscore<'e>>, Option<ReturnType<'e>>, Option<Expression<'e>>),
    ForLoop(ForLoopStatement<'e>),
    WhileLoop(WhileLoopStatement<'e>),
    Break,
    Continue,
}

/// A name bound by `let` or `for`, or `_`.
#[derive(Clone, Copy, Debug, PartialEq, Eq)]
pub enum IdentifierOrUnderscore<'i> {
    Identifier(&'i str),
    Underscore,
}

#[derive(Debug, PartialEq, Eq)]
pub enum WaitStatementKind<'e> {
    Expression(Expression<'e>),
    Until(&'e str),
}

#[derive(Debug, PartialEq, Eq)]
pub struct ForLoopStatement<'e> {
    pub identifiers: Vec<IdentifierOrUnderscore<'e>>,
    pub expression: Expression<'e>,
    pub block: Block<'e>,
}

#[derive(Debug, PartialEq, Eq)]
pub struct WhileLoopStatement<'e> {
    pub expression: Expression<'e>,
    pub block: Block<'e>,
}

/// The abstract value of a [`Statement`].
pub struct SStatement {
    pub kind: SStatementKind,
    pub span: Span,
}

pub enum SStatementKind {
    Empty,
    Expression(SExpression, bool),
    Return(Option<SExpression>),
    Let(Seq<SIdentOrUnderscore>, Option<SReturnType>, Option<SExpression>),
    ForLoop(Seq<SIdentOrUnderscore>, SExpression, SBlock),
    WhileLoop(SExpression, SBlock),
    Break,
    Continue,
}

pub enum SIdentOrUnderscore {
    Identifier(Seq<char>),
    Underscore,
}

pub open spec fn iou_view(i: IdentifierOrUnderscore) -> SIdentOrUnderscore {
    match i {
        IdentifierOrUnderscore::Identifier(s) => SIdentOrUnderscore::Identifier(s@),
        IdentifierOrUnderscore::Underscore => SIdentOrUnderscore::Underscore,
    }
}

pub open spec fn ious_view(s: Seq<IdentifierOrUnderscore>) -> Seq<SIdentOrUnderscore> {
    Seq::new(s.len(), |i: int| iou_view(s[i]))
}

pub open spec fn statement_view(s: Statement) -> SStatement
    decreases s,
{
    SStatement { kind: statement_kind_view(s.kind), span: s.span }
}

pub open spec fn statement_kind_view(k: StatementKind) -> SStatementKind
    decreases k,
{
    match k {
        StatementKind::Empty => SStatementKind::Empty,
        StatementKind::Expression(e, b) => SStatementKind::Expression(expr_view(e), b),
        StatementKind::Return(e) => SStatementKind::Return(opt_expr_view(e)),
        StatementKind::Let(ids, rt, e) => SStatementKind::Let(
            ious_view(ids@),
            crate::ast::opt_return_type_view(rt),
            opt_expr_view(e),
        ),
        StatementKind::ForLoop(f) => SStatementKind::ForLoop(
            ious_view(f.identifiers@),
            expr_view(f.expression),
            crate::ast::block_view(f.block),
        ),
        StatementKind::WhileLoop(w) => SStatementKind::WhileLoop(
            expr_view(w.expression),
            crate::ast::block_view(w.block),
        ),
        StatementKind::Break => SStatementKind::Break,
        StatementKind::Continue => SStatementKind::Continue,
    }
}

pub open spec fn statements_view(s: Seq<Statement>) -> Seq<SStatement>
    decreases s,
{
    if s.len() == 0 {
        Seq::empty()
    } else {
        statements_view(s.subrange(0, s.len() - 1)).push(statement_view(s[s.len() - 1]))
    }
}

pub proof fn lemma_statements_push(s: Seq<Statement>, x: Statement)
    ensures
        statements_view(s.push(x)) == statements_view(s).push(statement_view(x)),
{
    assert(s.push(x).subrange(0, s.len() as int) =~= s);
}

/// The abstract value of a statement, one level down.
pub proof fn lemma_statement_view_shape(s: Statement)
    ensures
        statement_view(s).span == s.span,
        s.kind matches StatementKind::Empty ==> statement_view(s).kind == SStatementKind::Empty,
        s.kind matches StatementKind::Break ==> statement_view(s).kind == SStatementKind::Break,
        s.kind matches StatementKind::Continue ==> statement_view(s).kind == SStatementKind::Continue,
        s.kind matches StatementKind::Expression(e, b) ==> statement_view(s).kind
            == SStatementKind::Expression(expr_view(e), b),
        s.kind matches StatementKind::Return(e) ==> statement_view(s).kind == SStatementKind::Return(
            maybe_expr_view(e),
        ),
        s.kind matches StatementKind::Let(ids, rt, e) ==> statement_view(s).kind
            == SStatementKind::Let(
            ious_view(ids@),
            crate::ast::opt_return_type_view(rt),
            maybe_expr_view(e),
        ),
        s.kind matches StatementKind::ForLoop(f) ==> statement_view(s).kind == SStatementKind::ForLoop(
            ious_view(f.identifiers@),
            expr_view(f.expression),
            crate::ast::block_view(f.block),
        ),
        s.kind matches StatementKind::WhileLoop(w) ==> statement_view(s).kind
            == SStatementKind::WhileLoop(expr_view(w.expression), crate::ast::block_view(w.block)),
{
    match s.kind {
        StatementKind::Return(e) => {
            assert(opt_expr_view(e) == maybe_expr_view(e));
        },
        StatementKind::Let(ids, rt, e) => {
            assert(opt_expr_view(e) == maybe_expr_view(e));
        },
        _ => {},
    }
}

/// The abstract value of a block.
pub proof fn lemma_block_view(b: Block)
    ensures
        crate::ast::block_view(b) == (SBlock { data: statements_view(b.data@), span: b.span }),
{
}

} // verus!
