//! Expressions, from assignments down to literals.
//!
//! Each parse function comes with a spec function (`p_` and its name) that
//! says, for a parser state, the state it leaves and the expression it
//! builds. The spec functions call one another; each call either consumes
//! a token first or goes to a function that binds tighter, which is what
//! the second component of their `decreases` clauses ranks.
use vstd::prelude::*;

use crate::ast::expression::{
    AccessExpression, AssignmentOperator, BinaryOperator, ClosureParam, ComparisionOperator,
    ConditionalOperator, EqualityOperator, Expression, ExpressionKind, FieldInitialization,
    IfArm, LiteralExpression, LogicalOperator, MatchArm, NewExprType, PostOperator, SAccess,
    SClosureParam, SExpression, SExpressionKind, SFieldInit, SIfArm, SLiteral, SMatchArm,
    SNewExpr, UnaryOperator, closure_param_view, closure_params_view, expr_view, exprs_view,
    field_init_view, field_inits_view, if_arm_view, if_arms_view, lemma_closure_params_push,
    lemma_exprs_push, lemma_field_inits_push, lemma_if_arms_push, lemma_match_arms_push,
    match_arm_view, match_arms_view, maybe_expr_view, lemma_expr_view_shape, lemma_expr_view_binary,
    lemma_field_init_view, lemma_match_arm_view, lemma_if_arm_view, lemma_empty_views, lemma_if_arms_last,
};
use crate::ast::statement::lemma_block_view;
use crate::ast::{SBlock, block_view, opt_return_type_view, return_type_view};
use crate::chars::{chars_of, text_len, text_len_within};
use crate::error::{LiteralKind, ParseError, ParseErrorKind};
use crate::lexer::text_between;
use crate::parser::items::{p_return_type, return_type};
use crate::parser::literal::{
    boolean_literal, char_literal, float_literal, integer_literal, null_literal,
    p_boolean_literal, p_char_literal, p_float_literal, p_integer_literal, p_null_literal,
    p_string_literal, string_literal,
};
use crate::parser::statement::{block, p_block, p_statement, statement};
use crate::parser::{
    keeps_errors,
    Accept, PState, Parser, end_error, kept, len_of, line_of, measure, merge, p_advance,
    p_identifier, p_is_next, p_next, p_next_if_kind, p_next_if_kind_errored, p_peek, steps_to,
    token_text, with_error,
};
use crate::string::{
    char_escape_sequence_map_str, float_text_ok, float_text_valid, hex_escape_value,
    parse_radix, radix_value, simple_escape_value, spec_unescape,
};
use vstd::string::StringExecFns;
use crate::tokens::{BaseN, CharacterEscapeType, Span, StringOptions, Token, TokenKind};

verus! {

// ---------------------------------------------------------------------------
// Binary operators, loosest first.

/// The levels of binary operators, from the loosest to the tightest.
#[derive(Clone, Copy, Debug, PartialEq, Eq, Structural)]
pub enum Level {
    Assignment,
    ConditionalOr,
    ConditionalAnd,
    LogicalOr,
    LogicalXor,
    LogicalAnd,
    Equality,
    Comparision,
    Shift,
    Additive,
    Multiplicative,
}

/// The level that binds next tighter; after the last come unary operators.
pub open spec fn next_level(l: Level) -> Option<Level> {
    match l {
        Level::Assignment => Some(Level::ConditionalOr),
        Level::ConditionalOr => Some(Level::ConditionalAnd),
        Level::ConditionalAnd => Some(Level::LogicalOr),
        Level::LogicalOr => Some(Level::LogicalXor),
        Level::LogicalXor => Some(Level::LogicalAnd),
        Level::LogicalAnd => Some(Level::Equality),
        Level::Equality => Some(Level::Comparision),
        Level::Comparision => Some(Level::Shift),
        Level::Shift => Some(Level::Additive),
        Level::Additive => Some(Level::Multiplicative),
        Level::Multiplicative => None,
    }
}

pub open spec fn level_rank(l: Level) -> nat {
    match l {
        Level::Assignment => 24,
        Level::ConditionalOr => 23,
        Level::ConditionalAnd => 22,
        Level::LogicalOr => 21,
        Level::LogicalXor => 20,
        Level::LogicalAnd => 19,
        Level::Equality => 18,
        Level::Comparision => 17,
        Level::Shift => 16,
        Level::Additive => 15,
        Level::Multiplicative => 14,
    }
}

/// A binary operator of any level.
#[derive(Clone, Copy, Debug, PartialEq, Eq, Structural)]
pub enum BinaryOp {
    Assign(AssignmentOperator),
    Conditional(ConditionalOperator),
    Logical(LogicalOperator),
    Equality(EqualityOperator),
    Comparision(ComparisionOperator),
    Binary(BinaryOperator),
}

/// The operator of level `l` that a token of kind `k` spells, if any.
pub open spec fn level_op(l: Level, k: TokenKind) -> Option<BinaryOp> {
    match l {
        Level::Assignment => match k {
            TokenKind::Equals => Some(BinaryOp::Assign(AssignmentOperator::Assign)),
            TokenKind::BitwiseLeftCompound => Some(BinaryOp::Assign(AssignmentOperator::BitLeft)),
            TokenKind::BitwiseRightCompound => Some(BinaryOp::Assign(AssignmentOperator::BitRight)),
            TokenKind::AndEquals => Some(BinaryOp::Assign(AssignmentOperator::And)),
            TokenKind::OrEquals => Some(BinaryOp::Assign(AssignmentOperator::Or)),
            TokenKind::CaretEquals => Some(BinaryOp::Assign(AssignmentOperator::Xor)),
            TokenKind::TildeEquals => Some(BinaryOp::Assign(AssignmentOperator::Complement)),
            TokenKind::StarEquals => Some(BinaryOp::Assign(AssignmentOperator::Multiplication)),
            TokenKind::SlashEquals => Some(BinaryOp::Assign(AssignmentOperator::Division)),
            TokenKind::PlusEquals => Some(BinaryOp::Assign(AssignmentOperator::Addition)),
            TokenKind::MinusEquals => Some(BinaryOp::Assign(AssignmentOperator::Substraction)),
            TokenKind::PercentEquals => Some(BinaryOp::Assign(AssignmentOperator::Modulo)),
            _ => None,
        },
        Level::ConditionalOr => if k == TokenKind::OrOr {
            Some(BinaryOp::Conditional(ConditionalOperator::Or))
        } else {
            None
        },
        Level::ConditionalAnd => if k == TokenKind::AndAnd {
            Some(BinaryOp::Conditional(ConditionalOperator::And))
        } else {
            None
        },
        Level::LogicalOr => if k == TokenKind::Or {
            Some(BinaryOp::Logical(LogicalOperator::Or))
        } else {
            None
        },
        Level::LogicalXor => if k == TokenKind::Caret {
            Some(BinaryOp::Logical(LogicalOperator::Xor))
        } else {
            None
        },
        Level::LogicalAnd => if k == TokenKind::And {
            Some(BinaryOp::Logical(LogicalOperator::And))
        } else {
            None
        },
        Level::Equality => match k {
            TokenKind::EqualsEquals => Some(BinaryOp::Equality(EqualityOperator::Equals)),
            TokenKind::NotEquals => Some(BinaryOp::Equality(EqualityOperator::NotEquals)),
            _ => None,
        },
        Level::Comparision => match k {
            TokenKind::GreaterThan => Some(BinaryOp::Comparision(ComparisionOperator::GreaterThan)),
            TokenKind::GreaterThanEquals => Some(
                BinaryOp::Comparision(ComparisionOperator::GreaterThanEquals),
            ),
            TokenKind::LessThan => Some(BinaryOp::Comparision(ComparisionOperator::LessThan)),
            TokenKind::LessThanEquals => Some(
                BinaryOp::Comparision(ComparisionOperator::LessThanEquals),
            ),
            _ => None,
        },
        Level::Shift => match k {
            TokenKind::BitwiseLeft => Some(BinaryOp::Binary(BinaryOperator::BitLeft)),
            TokenKind::BitwiseRight => Some(BinaryOp::Binary(BinaryOperator::BitRight)),
            _ => None,
        },
        Level::Additive => match k {
            TokenKind::Plus => Some(BinaryOp::Binary(BinaryOperator::Addition)),
            TokenKind::Minus => Some(BinaryOp::Binary(BinaryOperator::Substraction)),
            _ => None,
        },
        Level::Multiplicative => match k {
            TokenKind::Star => Some(BinaryOp::Binary(BinaryOperator::Multiplication)),
            TokenKind::Slash => Some(BinaryOp::Binary(BinaryOperator::Division)),
            TokenKind::Percent => Some(BinaryOp::Binary(BinaryOperator::Modulo)),
            _ => None,
        },
    }
}

/// The expression `left op right`.
pub open spec fn combine(left: SExpression, op: BinaryOp, right: SExpression) -> SExpression {
    let l = Box::new(left);
    let r = Box::new(right);
    SExpression {
        kind: match op {
            BinaryOp::Assign(o) => SExpressionKind::Assignment(l, o, r),
            BinaryOp::Conditional(o) => SExpressionKind::Conditional(l, o, r),
            BinaryOp::Logical(o) => SExpressionKind::Logical(l, o, r),
            BinaryOp::Equality(o) => SExpressionKind::Equality(l, o, r),
            BinaryOp::Comparision(o) => SExpressionKind::Comparision(l, o, r),
            BinaryOp::Binary(o) => SExpressionKind::Binary(l, o, r),
        },
        span: merge(left.span, right.span),
    }
}

/// An expression: an assignment, the loosest level.
#[verifier::opaque]
pub open spec fn p_expression(p: PState) -> (PState, Option<SExpression>)
    decreases measure(p), 25nat,
{
    p_level(p, Level::Assignment)
}

/// The operands of level `l`, joined from the left by its operators; at
/// the comparison level at most one operator.
#[verifier::opaque]
pub open spec fn p_level(p: PState, l: Level) -> (PState, Option<SExpression>)
    decreases measure(p), level_rank(l),
{
    let (q, left) = match next_level(l) {
        Some(n) => p_level(p, n),
        None => p_unary(p),
    };
    match left {
        None => (q, None),
        Some(x) => if measure(q) < measure(p) {
            p_level_tail(q, l, x)
        } else {
            (q, None)
        },
    }
}

/// The operators of level `l` and their right operands after `left`.
#[verifier::opaque]
pub open spec fn p_level_tail(p: PState, l: Level, left: SExpression) -> (
    PState,
    Option<SExpression>,
)
    decreases measure(p), 0nat,
{
    let (q, t) = p_peek(p);
    match t {
        None => (q, Some(left)),
        Some(tok) => match level_op(l, tok.kind) {
            None => (q, Some(left)),
            Some(op) => {
                let q1 = p_next(q).0;
                if measure(q1) < measure(p) {
                    let (q2, right) = match next_level(l) {
                        Some(n) => p_level(q1, n),
                        None => p_unary(q1),
                    };
                    match right {
                        None => (q2, None),
                        Some(r) => {
                            let e = combine(left, op, r);
                            if l == Level::Comparision {
                                (q2, Some(e))
                            } else if measure(q2) < measure(p) {
                                p_level_tail(q2, l, e)
                            } else {
                                (q2, None)
                            }
                        },
                    }
                } else {
                    (q1, None)
                }
            },
        },
    }
}

// ---------------------------------------------------------------------------
// Unary and postfix operators.

/// The prefix operator a token of kind `k` spells, if any.
pub open spec fn unary_op(k: TokenKind) -> Option<UnaryOperator> {
    match k {
        TokenKind::Not => Some(UnaryOperator::Not),
        TokenKind::Plus => Some(UnaryOperator::Plus),
        TokenKind::Minus => Some(UnaryOperator::Negative),
        TokenKind::PlusPlus => Some(UnaryOperator::Increment),
        TokenKind::MinusMinus => Some(UnaryOperator::Decrement),
        TokenKind::Tilde => Some(UnaryOperator::Complement),
        _ => None,
    }
}

/// Prefix operators, then a postfix expression.
#[verifier::opaque]
pub open spec fn p_unary(p: PState) -> (PState, Option<SExpression>)
    decreases measure(p), 13nat,
{
    let (q, t) = p_peek(p);
    let op = match t {
        Some(tok) => unary_op(tok.kind),
        None => None,
    };
    match op {
        Some(o) => {
            let q1 = p_next(q).0;
            if measure(q1) < measure(p) {
                let (q2, e) = p_unary(q1);
                match e {
                    None => (q2, None),
                    Some(x) => (
                        q2,
                        Some(
                            SExpression {
                                kind: SExpressionKind::Unary(o, Box::new(x)),
                                span: merge(t->0.span, x.span),
                            },
                        ),
                    ),
                }
            } else {
                (q1, None)
            }
        },
        None => if measure(q) <= measure(p) {
            p_postfix(q)
        } else {
            (q, None)
        },
    }
}

/// The postfix forms: call, index, member, `++`/`--`, `?` and `::`.
#[derive(Clone, Copy, Debug, PartialEq, Eq, Structural)]
pub enum Postfix {
    Call,
    Index,
    Reference,
    PostOp,
    ShortCircuit,
    Path,
}

/// The postfix form a token of kind `k` starts, if any.
pub open spec fn postfix_of(k: TokenKind) -> Option<Postfix> {
    match k {
        TokenKind::ParanthesisLeft => Some(Postfix::Call),
        TokenKind::SquareBracketLeft => Some(Postfix::Index),
        TokenKind::Dot => Some(Postfix::Reference),
        TokenKind::PlusPlus => Some(Postfix::PostOp),
        TokenKind::MinusMinus => Some(Postfix::PostOp),
        TokenKind::QuestionMark => Some(Postfix::ShortCircuit),
        TokenKind::ColonColon => Some(Postfix::Path),
        _ => None,
    }
}

/// A primary expression followed by postfix forms.
#[verifier::opaque]
pub open spec fn p_postfix(p: PState) -> (PState, Option<SExpression>)
    decreases measure(p), 12nat,
{
    let (q, left) = p_primary(p);
    if measure(q) <= measure(p) {
        p_postfix_loop(q, left)
    } else {
        (q, None)
    }
}

/// The postfix forms after `left` (which a failed parse leaves `None`).
#[verifier::opaque]
pub open spec fn p_postfix_loop(p: PState, left: Option<SExpression>) -> (
    PState,
    Option<SExpression>,
)
    decreases measure(p), 11nat,
{
    let (q, t) = p_peek(p);
    let form = match t {
        Some(tok) => postfix_of(tok.kind),
        None => None,
    };
    match form {
        None => (q, left),
        Some(f) => if measure(q) <= measure(p) {
            let (q1, l1) = p_postfix_form(q, f, left);
            if measure(q1) < measure(p) {
                p_postfix_loop(q1, l1)
            } else {
                (q1, None)
            }
        } else {
            (q, None)
        },
    }
}

/// One postfix form, repeated, after `left`, or after a primary expression
/// when `left` is `None`.
#[verifier::opaque]
pub open spec fn p_postfix_form(p: PState, f: Postfix, left: Option<SExpression>) -> (
    PState,
    Option<SExpression>,
)
    decreases measure(p), 10nat,
{
    let (q, l) = match left {
        Some(x) => (p, Some(x)),
        None => p_primary(p),
    };
    match l {
        None => (q, None),
        Some(x) => if measure(q) <= measure(p) {
            p_postfix_tail(q, f, x)
        } else {
            (q, None)
        },
    }
}

/// Repetitions of the postfix form `f` after `left`.
#[verifier::opaque]
pub open spec fn p_postfix_tail(p: PState, f: Postfix, left: SExpression) -> (
    PState,
    Option<SExpression>,
)
    decreases measure(p), 0nat,
{
    match f {
        Postfix::Call => {
            let (q, pl) = p_next_if_kind(p, TokenKind::ParanthesisLeft);
            match pl {
                None => (q, Some(left)),
                Some(_) => if measure(q) < measure(p) {
                    let (q1, args) = p_exprs(q, TokenKind::ParanthesisRight, Seq::empty());
                    match args {
                        None => (q1, None),
                        Some(a) => {
                            let (q2, pr) = p_advance(q1, Accept::Kind(TokenKind::ParanthesisRight));
                            match pr {
                                None => (q2, None),
                                Some(r) => if measure(q2) < measure(p) {
                                    p_postfix_tail(
                                        q2,
                                        f,
                                        SExpression {
                                            kind: SExpressionKind::Call(Box::new(left), a),
                                            span: merge(left.span, r.span),
                                        },
                                    )
                                } else {
                                    (q2, None)
                                },
                            }
                        },
                    }
                } else {
                    (q, None)
                },
            }
        },
        Postfix::Index => {
            let (q, sbl) = p_next_if_kind(p, TokenKind::SquareBracketLeft);
            match sbl {
                None => (q, Some(left)),
                Some(_) => if measure(q) < measure(p) {
                    let (q1, args) = p_exprs(q, TokenKind::SquareBracketRight, Seq::empty());
                    match args {
                        None => (q1, None),
                        Some(a) => {
                            let (q2, sbr) = p_advance(
                                q1,
                                Accept::Kind(TokenKind::SquareBracketRight),
                            );
                            match sbr {
                                None => (q2, None),
                                Some(r) => if measure(q2) < measure(p) {
                                    p_postfix_tail(
                                        q2,
                                        f,
                                        SExpression {
                                            kind: SExpressionKind::Index(Box::new(left), a),
                                            span: merge(left.span, r.span),
                                        },
                                    )
                                } else {
                                    (q2, None)
                                },
                            }
                        },
                    }
                } else {
                    (q, None)
                },
            }
        },
        Postfix::Reference => {
            let (q, dot) = p_next_if_kind(p, TokenKind::Dot);
            match dot {
                None => (q, Some(left)),
                Some(_) => if measure(q) < measure(p) {
                    let (q1, right) = p_postfix(q);
                    match right {
                        None => (q1, None),
                        Some(r) => if measure(q1) < measure(p) {
                            p_postfix_tail(
                                q1,
                                f,
                                SExpression {
                                    kind: SExpressionKind::Reference(Box::new(left), Box::new(r)),
                                    span: merge(left.span, r.span),
                                },
                            )
                        } else {
                            (q1, None)
                        },
                    }
                } else {
                    (q, None)
                },
            }
        },
        Postfix::PostOp => {
            let (q, t) = p_peek(p);
            let op = match t {
                Some(tok) => if tok.kind == TokenKind::PlusPlus {
                    Some(PostOperator::Increment)
                } else if tok.kind == TokenKind::MinusMinus {
                    Some(PostOperator::Decrement)
                } else {
                    None
                },
                None => None,
            };
            match op {
                None => (q, Some(left)),
                Some(o) => {
                    let q1 = p_next(q).0;
                    if measure(q1) < measure(p) {
                        p_postfix_tail(
                            q1,
                            f,
                            SExpression {
                                kind: SExpressionKind::PostOp(Box::new(left), o),
                                span: merge(left.span, t->0.span),
                            },
                        )
                    } else {
                        (q1, None)
                    }
                },
            }
        },
        Postfix::ShortCircuit => {
            let (q, mark) = p_next_if_kind(p, TokenKind::QuestionMark);
            match mark {
                None => (q, Some(left)),
                Some(m) => if measure(q) < measure(p) {
                    p_postfix_tail(
                        q,
                        f,
                        SExpression {
                            kind: SExpressionKind::ShortCircuit(Box::new(left)),
                            span: merge(left.span, m.span),
                        },
                    )
                } else {
                    (q, None)
                },
            }
        },
        Postfix::Path => {
            let (q, cc) = p_next_if_kind(p, TokenKind::ColonColon);
            match cc {
                None => (q, Some(left)),
                Some(_) => if measure(q) < measure(p) {
                    let (q1, right) = p_expression(q);
                    match right {
                        None => (q1, None),
                        Some(r) => if measure(q1) < measure(p) {
                            p_postfix_tail(
                                q1,
                                f,
                                SExpression {
                                    kind: SExpressionKind::Path(Box::new(left), Box::new(r)),
                                    span: merge(left.span, r.span),
                                },
                            )
                        } else {
                            (q1, None)
                        },
                    }
                } else {
                    (q, None)
                },
            }
        },
    }
}

// ---------------------------------------------------------------------------
// Primary expressions.

/// A primary expression, chosen by its first token. A token that starts
/// none is skipped with an `UnexpectedToken` error.
#[verifier::opaque]
pub open spec fn p_primary(p: PState) -> (PState, Option<SExpression>)
    decreases measure(p), 9nat,
{
    let (q, t) = p_peek(p);
    match t {
        None => (q, None),
        Some(tok) => if measure(q) <= measure(p) {
            match tok.kind {
                TokenKind::NewKeyword => p_new_init(q),
                TokenKind::Identifier => p_access(q),
                TokenKind::SelfKeyword => p_access(q),
                TokenKind::ParanthesisLeft => p_tuple(q),
                TokenKind::SquareBracketLeft => p_array(q),
                TokenKind::StringLiteral { .. } => p_string_literal(q),
                TokenKind::CharacterLiteral { .. } => p_char_literal(q),
                TokenKind::NumberLiteral { is_floating, .. } => if is_floating {
                    p_float_literal(q)
                } else {
                    p_integer_literal(q)
                },
                TokenKind::FalseKeyword => p_boolean_literal(q),
                TokenKind::TrueKeyword => p_boolean_literal(q),
                TokenKind::NullKeyword => p_null_literal(q),
                TokenKind::MatchKeyword => p_match(q),
                TokenKind::IfKeyword => p_if(q),
                TokenKind::Dollar => p_closure(q),
                _ => {
                    let q1 = with_error(
                        p_next(q).0,
                        ParseError {
                            kind: ParseErrorKind::UnexpectedToken(tok.kind),
                            span: tok.span,
                            line: tok.line,
                        },
                    );
                    if measure(q1) < measure(p) {
                        p_primary(q1)
                    } else {
                        (q1, None)
                    }
                },
            }
        } else {
            (q, None)
        },
    }
}

/// A name or `self`.
#[verifier::opaque]
pub open spec fn p_access(p: PState) -> (PState, Option<SExpression>) {
    let (q, t) = p_advance(p, Accept::IdentifierOrSelf);
    match t {
        None => (q, None),
        Some(tok) => (
            q,
            Some(
                SExpression {
                    kind: SExpressionKind::Access(
                        if tok.kind == TokenKind::Identifier {
                            SAccess::Identifier(token_text(p, tok))
                        } else {
                            SAccess::SelfAccess
                        },
                    ),
                    span: tok.span,
                },
            ),
        ),
    }
}

/// Expressions separated by commas, up to a token of kind `end`.
#[verifier::opaque]
pub open spec fn p_exprs(p: PState, end: TokenKind, acc: Seq<SExpression>) -> (
    PState,
    Option<Seq<SExpression>>,
)
    decreases measure(p), 26nat,
{
    let (q, done) = p_is_next(p, end);
    if done {
        (q, Some(acc))
    } else if measure(q) <= measure(p) {
        let (q1, x) = p_expression(q);
        match x {
            None => (q1, None),
            Some(e) => {
                let (q2, done2) = p_is_next(q1, end);
                if done2 {
                    (q2, Some(acc.push(e)))
                } else {
                    let (q3, c) = p_advance(q2, Accept::Kind(TokenKind::Comma));
                    match c {
                        None => (q3, None),
                        Some(_) => if measure(q3) < measure(p) {
                            p_exprs(q3, end, acc.push(e))
                        } else {
                            (q3, None)
                        },
                    }
                }
            },
        }
    } else {
        (q, None)
    }
}

/// `new`, a type name, and fields in braces, values in parentheses, or
/// nothing.
#[verifier::opaque]
pub open spec fn p_new_init(p: PState) -> (PState, Option<SExpression>)
    decreases measure(p), 8nat,
{
    let (q, kw) = p_next_if_kind_errored(p, TokenKind::NewKeyword);
    match kw {
        None => (q, None),
        Some(k) => {
            let (q1, rt) = p_return_type(q);
            match rt {
                None => (q1, None),
                Some(r) => {
                    let (q2, cbl) = p_next_if_kind(q1, TokenKind::CurlyBracketLeft);
                    match cbl {
                        Some(_) => if measure(q2) < measure(p) {
                            let (q3, inits) = p_field_inits(
                                q2,
                                TokenKind::CurlyBracketRight,
                                Seq::empty(),
                            );
                            match inits {
                                None => (q3, None),
                                Some(v) => {
                                    let (q4, cbr) = p_advance(
                                        q3,
                                        Accept::Kind(TokenKind::CurlyBracketRight),
                                    );
                                    match cbr {
                                        None => (q4, None),
                                        Some(c) => (
                                            q4,
                                            Some(
                                                SExpression {
                                                    kind: SExpressionKind::New(
                                                        r,
                                                        SNewExpr::Field(v),
                                                    ),
                                                    span: merge(k.span, c.span),
                                                },
                                            ),
                                        ),
                                    }
                                },
                            }
                        } else {
                            (q2, None)
                        },
                        None => {
                            let (q3, pl) = p_next_if_kind(q2, TokenKind::ParanthesisLeft);
                            match pl {
                                Some(_) => if measure(q3) < measure(p) {
                                    let (q4, args) = p_exprs(
                                        q3,
                                        TokenKind::ParanthesisRight,
                                        Seq::empty(),
                                    );
                                    match args {
                                        None => (q4, None),
                                        Some(v) => {
                                            let (q5, pr) = p_advance(
                                                q4,
                                                Accept::Kind(TokenKind::ParanthesisRight),
                                            );
                                            match pr {
                                                None => (q5, None),
                                                Some(c) => (
                                                    q5,
                                                    Some(
                                                        SExpression {
                                                            kind: SExpressionKind::New(
                                                                r,
                                                                SNewExpr::Tuple(v),
                                                            ),
                                                            span: merge(k.span, c.span),
                                                        },
                                                    ),
                                                ),
                                            }
                                        },
                                    }
                                } else {
                                    (q3, None)
                                },
                                None => (
                                    q3,
                                    Some(
                                        SExpression {
                                            kind: SExpressionKind::New(r, SNewExpr::Zero),
                                            span: merge(k.span, r.span),
                                        },
                                    ),
                                ),
                            }
                        },
                    }
                },
            }
        },
    }
}

/// A field of a `new` expression: a name, and `= value` unless the value
/// is the variable of that name.
#[verifier::opaque]
pub open spec fn p_field_init(p: PState) -> (PState, Option<SFieldInit>)
    decreases measure(p), 26nat,
{
    let (q, id) = p_advance(p, Accept::Kind(TokenKind::Identifier));
    match id {
        None => (q, None),
        Some(tok) => {
            let name = token_text(p, tok);
            let (q1, eq) = p_is_next(q, TokenKind::Equals);
            if eq {
                let (q2, e) = p_advance(q1, Accept::Kind(TokenKind::Equals));
                match e {
                    None => (q2, None),
                    Some(_) => if measure(q2) < measure(p) {
                        let (q3, x) = p_expression(q2);
                        match x {
                            None => (q3, None),
                            Some(ex) => (q3, Some(SFieldInit { identifier: name, expression: ex })),
                        }
                    } else {
                        (q2, None)
                    },
                }
            } else {
                (
                    q1,
                    Some(
                        SFieldInit {
                            identifier: name,
                            expression: SExpression {
                                kind: SExpressionKind::Access(SAccess::Identifier(name)),
                                span: tok.span,
                            },
                        },
                    ),
                )
            }
        },
    }
}

/// Fields of a `new` expression separated by commas, up to `end`.
#[verifier::opaque]
pub open spec fn p_field_inits(p: PState, end: TokenKind, acc: Seq<SFieldInit>) -> (
    PState,
    Option<Seq<SFieldInit>>,
)
    decreases measure(p), 27nat,
{
    let (q, done) = p_is_next(p, end);
    if done {
        (q, Some(acc))
    } else if measure(q) <= measure(p) {
        let (q1, x) = p_field_init(q);
        match x {
            None => (q1, None),
            Some(e) => {
                let (q2, done2) = p_is_next(q1, end);
                if done2 {
                    (q2, Some(acc.push(e)))
                } else {
                    let (q3, c) = p_advance(q2, Accept::Kind(TokenKind::Comma));
                    match c {
                        None => (q3, None),
                        Some(_) => if measure(q3) < measure(p) {
                            p_field_inits(q3, end, acc.push(e))
                        } else {
                            (q3, None)
                        },
                    }
                }
            },
        }
    } else {
        (q, None)
    }
}

/// Expressions between two brackets of kinds `open` and `close`, as a
/// tuple (parentheses) or an array (square brackets).
#[verifier::opaque]
pub open spec fn p_bracketed(p: PState, open: TokenKind, close: TokenKind) -> (
    PState,
    Option<(Seq<SExpression>, Span)>,
)
    decreases measure(p), 7nat,
{
    let (q, o) = p_advance(p, Accept::Kind(open));
    match o {
        None => (q, None),
        Some(l) => if measure(q) < measure(p) {
            let (q1, v) = p_exprs(q, close, Seq::empty());
            match v {
                None => (q1, None),
                Some(es) => {
                    let (q2, c) = p_advance(q1, Accept::Kind(close));
                    match c {
                        None => (q2, None),
                        Some(r) => (q2, Some((es, merge(l.span, r.span)))),
                    }
                },
            }
        } else {
            (q, None)
        },
    }
}

/// `( expressions )`.
#[verifier::opaque]
pub open spec fn p_tuple(p: PState) -> (PState, Option<SExpression>)
    decreases measure(p), 8nat,
{
    let (q, r) = p_bracketed(p, TokenKind::ParanthesisLeft, TokenKind::ParanthesisRight);
    match r {
        None => (q, None),
        Some((es, span)) => (q, Some(SExpression { kind: SExpressionKind::Tuple(es), span })),
    }
}

/// `[ expressions ]`.
#[verifier::opaque]
pub open spec fn p_array(p: PState) -> (PState, Option<SExpression>)
    decreases measure(p), 8nat,
{
    let (q, r) = p_bracketed(p, TokenKind::SquareBracketLeft, TokenKind::SquareBracketRight);
    match r {
        None => (q, None),
        Some((es, span)) => (q, Some(SExpression { kind: SExpressionKind::Array(es), span })),
    }
}

// ---------------------------------------------------------------------------
// `match`, `if` and closures.

/// `match`, the expression matched, and arms in braces.
#[verifier::opaque]
pub open spec fn p_match(p: PState) -> (PState, Option<SExpression>)
    decreases measure(p), 8nat,
{
    let (q, kw) = p_next_if_kind_errored(p, TokenKind::MatchKeyword);
    match kw {
        None => (q, None),
        Some(k) => if measure(q) < measure(p) {
            let (q1, m) = p_expression(q);
            match m {
                None => (q1, None),
                Some(mx) => {
                    let (q2, cbl) = p_advance(q1, Accept::Kind(TokenKind::CurlyBracketLeft));
                    match cbl {
                        None => (q2, None),
                        Some(_) => if measure(q2) < measure(p) {
                            let (q3, arms) = p_match_arms(
                                q2,
                                TokenKind::CurlyBracketRight,
                                Seq::empty(),
                            );
                            match arms {
                                None => (q3, None),
                                Some(a) => {
                                    let (q4, cbr) = p_advance(
                                        q3,
                                        Accept::Kind(TokenKind::CurlyBracketRight),
                                    );
                                    match cbr {
                                        None => (q4, None),
                                        Some(c) => (
                                            q4,
                                            Some(
                                                SExpression {
                                                    kind: SExpressionKind::Match(Box::new(mx), a),
                                                    span: merge(k.span, c.span),
                                                },
                                            ),
                                        ),
                                    }
                                },
                            }
                        } else {
                            (q2, None)
                        },
                    }
                },
            }
        } else {
            (q, None)
        },
    }
}

/// An arm of a `match`: a pattern expression or `_`, an optional `if`
/// guard, `=>`, and a block or a single statement.
#[verifier::opaque]
pub open spec fn p_match_arm(p: PState) -> (PState, Option<SMatchArm>)
    decreases measure(p), 26nat,
{
    let (q, us) = p_next_if_kind(p, TokenKind::Underscore);
    let (q1, pattern) = match us {
        Some(_) => (q, None),
        None => if measure(q) <= measure(p) {
            p_expression(q)
        } else {
            (q, None)
        },
    };
    let (q2, iff) = p_next_if_kind(q1, TokenKind::IfKeyword);
    let (q3, guard, ok) = match iff {
        Some(_) => if measure(q2) < measure(p) {
            let (q3, g) = p_expression(q2);
            (q3, g, g is Some)
        } else {
            (q2, None, false)
        },
        None => (q2, None, true),
    };
    if !ok {
        (q3, None)
    } else {
        let (q4, arrow) = p_advance(q3, Accept::Kind(TokenKind::FatArrow));
        match arrow {
            None => (q4, None),
            Some(_) => if measure(q4) < measure(p) {
                let (q5, b) = p_arm_body(q4);
                match b {
                    None => (q5, None),
                    Some(blk) => (
                        q5,
                        Some(SMatchArm { expression: pattern, if_clause: guard, block: blk }),
                    ),
                }
            } else {
                (q4, None)
            },
        }
    }
}

/// The body of a `match` arm: a block, or a single statement taken as a
/// block.
#[verifier::opaque]
pub open spec fn p_arm_body(p: PState) -> (PState, Option<SBlock>)
    decreases measure(p), 33nat,
{
    let (q, braced) = p_is_next(p, TokenKind::CurlyBracketLeft);
    if measure(q) <= measure(p) {
        if braced {
            p_block(q)
        } else {
            let (q1, st) = p_statement(q);
            match st {
                None => (q1, None),
                Some(x) => (q1, Some(SBlock { data: seq![x], span: x.span })),
            }
        }
    } else {
        (q, None)
    }
}

/// Arms of a `match` separated by commas, up to `end`.
#[verifier::opaque]
pub open spec fn p_match_arms(p: PState, end: TokenKind, acc: Seq<SMatchArm>) -> (
    PState,
    Option<Seq<SMatchArm>>,
)
    decreases measure(p), 27nat,
{
    let (q, done) = p_is_next(p, end);
    if done {
        (q, Some(acc))
    } else if measure(q) <= measure(p) {
        let (q1, x) = p_match_arm(q);
        match x {
            None => (q1, None),
            Some(e) => {
                let (q2, done2) = p_is_next(q1, end);
                if done2 {
                    (q2, Some(acc.push(e)))
                } else {
                    let (q3, c) = p_advance(q2, Accept::Kind(TokenKind::Comma));
                    match c {
                        None => (q3, None),
                        Some(_) => if measure(q3) < measure(p) {
                            p_match_arms(q3, end, acc.push(e))
                        } else {
                            (q3, None)
                        },
                    }
                }
            },
        }
    } else {
        (q, None)
    }
}

/// `if`, a condition and a block, then `else if` arms and an `else` block.
#[verifier::opaque]
pub open spec fn p_if(p: PState) -> (PState, Option<SExpression>)
    decreases measure(p), 8nat,
{
    let (q, kw) = p_next_if_kind_errored(p, TokenKind::IfKeyword);
    match kw {
        None => (q, None),
        Some(k) => if measure(q) < measure(p) {
            let (q1, c) = p_expression(q);
            match c {
                None => (q1, None),
                Some(cx) => if measure(q1) < measure(p) {
                    let (q2, b) = p_block(q1);
                    match b {
                        None => (q2, None),
                        Some(bx) => if measure(q2) < measure(p) {
                            let first = SIfArm { clause: cx, block: bx };
                            let (q3, rest) = p_else_arms(q2, Seq::empty(), None);
                            match rest {
                                None => (q3, None),
                                Some((arms, els)) => {
                                    let end = match els {
                                        Some(e) => e.span,
                                        None => if arms.len() > 0 {
                                            arms.last().block.span
                                        } else {
                                            bx.span
                                        },
                                    };
                                    (
                                        q3,
                                        Some(
                                            SExpression {
                                                kind: SExpressionKind::If(
                                                    Box::new(first),
                                                    arms,
                                                    els,
                                                ),
                                                span: merge(k.span, end),
                                            },
                                        ),
                                    )
                                },
                            }
                        } else {
                            (q2, None)
                        },
                    }
                } else {
                    (q1, None)
                },
            }
        } else {
            (q, None)
        },
    }
}

/// The `else if` arms and the `else` block of an `if`. A failed `else`
/// block leaves the `else` block `None`; a later `else` replaces it.
#[verifier::opaque]
pub open spec fn p_else_arms(p: PState, arms: Seq<SIfArm>, els: Option<SBlock>) -> (
    PState,
    Option<(Seq<SIfArm>, Option<SBlock>)>,
)
    decreases measure(p), 0nat,
{
    let (q, e) = p_next_if_kind(p, TokenKind::ElseKeyword);
    match e {
        None => (q, Some((arms, els))),
        Some(_) => if measure(q) < measure(p) {
            let (q1, i) = p_next_if_kind(q, TokenKind::IfKeyword);
            if measure(q1) >= measure(p) {
                (q1, None)
            } else {
            match i {
                Some(_) => {
                    let (q2, c) = p_expression(q1);
                    match c {
                        None => (q2, None),
                        Some(cx) => if measure(q2) < measure(p) {
                            let (q3, b) = p_block(q2);
                            match b {
                                None => (q3, None),
                                Some(bx) => if measure(q3) < measure(p) {
                                    p_else_arms(q3, arms.push(SIfArm { clause: cx, block: bx }), els)
                                } else {
                                    (q3, None)
                                },
                            }
                        } else {
                            (q2, None)
                        },
                    }
                },
                None => {
                    let (q2, b) = p_block(q1);
                    if measure(q2) < measure(p) {
                        p_else_arms(q2, arms, b)
                    } else {
                        (q2, None)
                    }
                },
            }
            }
        } else {
            (q, None)
        },
    }
}

/// A closure parameter: a name and an optional `: type`.
#[verifier::opaque]
pub open spec fn p_closure_param(p: PState) -> (PState, Option<SClosureParam>) {
    let (q, id) = p_identifier(p);
    match id {
        None => (q, None),
        Some((name, span)) => {
            let (q1, colon) = p_next_if_kind(q, TokenKind::Colon);
            match colon {
                None => (q1, Some(SClosureParam { identifier: name, return_type: None, span })),
                Some(_) => {
                    let (q2, rt) = p_return_type(q1);
                    match rt {
                        None => (q2, None),
                        Some(r) => (
                            q2,
                            Some(
                                SClosureParam {
                                    identifier: name,
                                    return_type: Some(r),
                                    span: merge(span, r.span),
                                },
                            ),
                        ),
                    }
                },
            }
        },
    }
}

/// Closure parameters separated by commas, up to `end`.
#[verifier::opaque]
pub open spec fn p_closure_params(p: PState, end: TokenKind, acc: Seq<SClosureParam>) -> (
    PState,
    Option<Seq<SClosureParam>>,
)
    decreases measure(p),
{
    let (q, done) = p_is_next(p, end);
    if done {
        (q, Some(acc))
    } else {
        let (q1, x) = p_closure_param(q);
        match x {
            None => (q1, None),
            Some(e) => {
                let (q2, done2) = p_is_next(q1, end);
                if done2 {
                    (q2, Some(acc.push(e)))
                } else {
                    let (q3, c) = p_advance(q2, Accept::Kind(TokenKind::Comma));
                    match c {
                        None => (q3, None),
                        Some(_) => if measure(q3) < measure(p) {
                            p_closure_params(q3, end, acc.push(e))
                        } else {
                            (q3, None)
                        },
                    }
                }
            },
        }
    }
}

/// `$`, parameters in parentheses, `=>` and a block.
#[verifier::opaque]
pub open spec fn p_closure(p: PState) -> (PState, Option<SExpression>)
    decreases measure(p), 8nat,
{
    let (q, d) = p_advance(p, Accept::Kind(TokenKind::Dollar));
    match d {
        None => (q, None),
        Some(dollar) => {
            let (q1, pl) = p_advance(q, Accept::Kind(TokenKind::ParanthesisLeft));
            match pl {
                None => (q1, None),
                Some(_) => {
                    let (q2, params) = p_closure_params(
                        q1,
                        TokenKind::ParanthesisRight,
                        Seq::empty(),
                    );
                    match params {
                        None => (q2, None),
                        Some(ps) => {
                            let (q3, pr) = p_advance(q2, Accept::Kind(TokenKind::ParanthesisRight));
                            match pr {
                                None => (q3, None),
                                Some(_) => {
                                    let (q4, arrow) = p_advance(
                                        q3,
                                        Accept::Kind(TokenKind::FatArrow),
                                    );
                                    match arrow {
                                        None => (q4, None),
                                        Some(_) => if measure(q4) < measure(p) {
                                            let (q5, b) = p_block(q4);
                                            match b {
                                                None => (q5, None),
                                                Some(blk) => (
                                                    q5,
                                                    Some(
                                                        SExpression {
                                                            kind: SExpressionKind::Closure(ps, blk),
                                                            span: merge(dollar.span, blk.span),
                                                        },
                                                    ),
                                                ),
                                            }
                                        } else {
                                            (q4, None)
                                        },
                                    }
                                },
                            }
                        },
                    }
                },
            }
        },
    }
}

// ---------------------------------------------------------------------------
// The parse functions.

/// `after` is `before` moved to the state of `res`, and `r` is the
/// expression of `res`; a parsed expression took at least one token.
pub open spec fn parsed_expr<'t>(
    before: Parser<'t>,
    after: Parser<'t>,
    res: (PState, Option<SExpression>),
    r: Option<Expression<'t>>,
) -> bool {
    &&& steps_to(before, after, res.0)
    &&& (match r {
        Some(x) => res.1 == Some(expr_view(x)),
        None => res.1 is None,
    })
    &&& (r is Some ==> measure(after@) < measure(before@))
}

/// Parses an expression.
pub fn expression<'t>(parser: &mut Parser<'t>) -> (r: Option<Expression<'t>>)
    requires
        old(parser).wf(),
    ensures
        parsed_expr(*old(parser), *final(parser), p_expression(old(parser)@), r),
    decreases measure(old(parser)@), 25nat,
{
    proof {
        reveal_with_fuel(p_expression, 1);
        reveal_with_fuel(p_level, 1);
    }
    binary_level(parser, Level::Assignment)
}

fn next_level_of(l: Level) -> (r: Option<Level>)
    ensures
        r == next_level(l),
{
    match l {
        Level::Assignment => Some(Level::ConditionalOr),
        Level::ConditionalOr => Some(Level::ConditionalAnd),
        Level::ConditionalAnd => Some(Level::LogicalOr),
        Level::LogicalOr => Some(Level::LogicalXor),
        Level::LogicalXor => Some(Level::LogicalAnd),
        Level::LogicalAnd => Some(Level::Equality),
        Level::Equality => Some(Level::Comparision),
        Level::Comparision => Some(Level::Shift),
        Level::Shift => Some(Level::Additive),
        Level::Additive => Some(Level::Multiplicative),
        Level::Multiplicative => None,
    }
}

/// The operator of level `l` that a token of kind `k` spells.
fn level_operator(l: Level, k: TokenKind) -> (r: Option<BinaryOp>)
    ensures
        r == level_op(l, k),
{
    match l {
        Level::Assignment => match k {
            TokenKind::Equals => Some(BinaryOp::Assign(AssignmentOperator::Assign)),
            TokenKind::BitwiseLeftCompound => Some(BinaryOp::Assign(AssignmentOperator::BitLeft)),
            TokenKind::BitwiseRightCompound => Some(BinaryOp::Assign(AssignmentOperator::BitRight)),
            TokenKind::AndEquals => Some(BinaryOp::Assign(AssignmentOperator::And)),
            TokenKind::OrEquals => Some(BinaryOp::Assign(AssignmentOperator::Or)),
            TokenKind::CaretEquals => Some(BinaryOp::Assign(AssignmentOperator::Xor)),
            TokenKind::TildeEquals => Some(BinaryOp::Assign(AssignmentOperator::Complement)),
            TokenKind::StarEquals => Some(BinaryOp::Assign(AssignmentOperator::Multiplication)),
            TokenKind::SlashEquals => Some(BinaryOp::Assign(AssignmentOperator::Division)),
            TokenKind::PlusEquals => Some(BinaryOp::Assign(AssignmentOperator::Addition)),
            TokenKind::MinusEquals => Some(BinaryOp::Assign(AssignmentOperator::Substraction)),
            TokenKind::PercentEquals => Some(BinaryOp::Assign(AssignmentOperator::Modulo)),
            _ => None,
        },
        Level::ConditionalOr => if k == TokenKind::OrOr {
            Some(BinaryOp::Conditional(ConditionalOperator::Or))
        } else {
            None
        },
        Level::ConditionalAnd => if k == TokenKind::AndAnd {
            Some(BinaryOp::Conditional(ConditionalOperator::And))
        } else {
            None
        },
        Level::LogicalOr => if k == TokenKind::Or {
            Some(BinaryOp::Logical(LogicalOperator::Or))
        } else {
            None
        },
        Level::LogicalXor => if k == TokenKind::Caret {
            Some(BinaryOp::Logical(LogicalOperator::Xor))
        } else {
            None
        },
        Level::LogicalAnd => if k == TokenKind::And {
            Some(BinaryOp::Logical(LogicalOperator::And))
        } else {
            None
        },
        Level::Equality => match k {
            TokenKind::EqualsEquals => Some(BinaryOp::Equality(EqualityOperator::Equals)),
            TokenKind::NotEquals => Some(BinaryOp::Equality(EqualityOperator::NotEquals)),
            _ => None,
        },
        Level::Comparision => match k {
            TokenKind::GreaterThan => Some(BinaryOp::Comparision(ComparisionOperator::GreaterThan)),
            TokenKind::GreaterThanEquals => Some(
                BinaryOp::Comparision(ComparisionOperator::GreaterThanEquals),
            ),
            TokenKind::LessThan => Some(BinaryOp::Comparision(ComparisionOperator::LessThan)),
            TokenKind::LessThanEquals => Some(
                BinaryOp::Comparision(ComparisionOperator::LessThanEquals),
            ),
            _ => None,
        },
        Level::Shift => match k {
            TokenKind::BitwiseLeft => Some(BinaryOp::Binary(BinaryOperator::BitLeft)),
            TokenKind::BitwiseRight => Some(BinaryOp::Binary(BinaryOperator::BitRight)),
            _ => None,
        },
        Level::Additive => match k {
            TokenKind::Plus => Some(BinaryOp::Binary(BinaryOperator::Addition)),
            TokenKind::Minus => Some(BinaryOp::Binary(BinaryOperator::Substraction)),
            _ => None,
        },
        Level::Multiplicative => match k {
            TokenKind::Star => Some(BinaryOp::Binary(BinaryOperator::Multiplication)),
            TokenKind::Slash => Some(BinaryOp::Binary(BinaryOperator::Division)),
            TokenKind::Percent => Some(BinaryOp::Binary(BinaryOperator::Modulo)),
            _ => None,
        },
    }
}

/// Builds `left op right`.
fn combine_exprs<'t>(left: Expression<'t>, op: BinaryOp, right: Expression<'t>) -> (r: Expression<'t>)
    ensures
        expr_view(r) == combine(expr_view(left), op, expr_view(right)),
{
    let span = Span { start: left.span.start, end: right.span.end };
    let l = Box::new(left);
    let r = Box::new(right);
    let kind = match op {
        BinaryOp::Assign(o) => ExpressionKind::Assignment(l, o, r),
        BinaryOp::Conditional(o) => ExpressionKind::Conditional(l, o, r),
        BinaryOp::Logical(o) => ExpressionKind::Logical(l, o, r),
        BinaryOp::Equality(o) => ExpressionKind::Equality(l, o, r),
        BinaryOp::Comparision(o) => ExpressionKind::Comparision(l, o, r),
        BinaryOp::Binary(o) => ExpressionKind::Binary(l, o, r),
    };
    let e = Expression { kind, span };
    proof {
        lemma_expr_view_binary(e);
    }
    e
}

/// Parses the operands of level `l` joined by its operators.
fn binary_level<'t>(parser: &mut Parser<'t>, l: Level) -> (r: Option<Expression<'t>>)
    requires
        old(parser).wf(),
    ensures
        parsed_expr(*old(parser), *final(parser), p_level(old(parser)@, l), r),
    decreases measure(old(parser)@), level_rank(l),
{
    proof {
        reveal_with_fuel(p_level, 1);
        reveal_with_fuel(p_level_tail, 1);
        reveal_with_fuel(p_unary, 1);
    }
    let ghost p0 = parser@;
    let first = match next_level_of(l) {
        Some(n) => binary_level(parser, n),
        None => unary_expression(parser),
    };
    let mut left = match first {
        Some(x) => x,
        None => return None,
    };
    loop
        invariant
            parser.wf(),
            parser.input() == old(parser).input(),
            keeps_errors(old(parser)@, parser@),
            parser@.st.text == p0.st.text,
            measure(parser@) < measure(p0),
            p0 == old(parser)@,
            p_level_tail(parser@, l, expr_view(left)) == p_level(p0, l),
        decreases measure(parser@),
    {
        proof {
            reveal_with_fuel(p_level_tail, 1);
            reveal_with_fuel(p_level, 1);
            reveal_with_fuel(p_unary, 1);
        }
        let ghost p = parser@;
        let t = parser.peek();
        let op = match t {
            Some(tok) => level_operator(l, tok.kind),
            None => None,
        };
        let op = match op {
            Some(o) => o,
            None => return Some(left),
        };
        parser.next();
        let right = match next_level_of(l) {
            Some(n) => binary_level(parser, n),
            None => unary_expression(parser),
        };
        let right = match right {
            Some(x) => x,
            None => return None,
        };
        let e = combine_exprs(left, op, right);
        if l == Level::Comparision {
            return Some(e);
        }
        left = e;
    }
}

/// Parses an assignment expression.
pub fn assignment_expression<'t>(parser: &mut Parser<'t>) -> (r: Option<Expression<'t>>)
    requires
        old(parser).wf(),
    ensures
        parsed_expr(*old(parser), *final(parser), p_level(old(parser)@, Level::Assignment), r),
{
    binary_level(parser, Level::Assignment)
}

/// Parses operands joined by `||`.
pub fn conditional_or_expression<'t>(parser: &mut Parser<'t>) -> (r: Option<Expression<'t>>)
    requires
        old(parser).wf(),
    ensures
        parsed_expr(*old(parser), *final(parser), p_level(old(parser)@, Level::ConditionalOr), r),
{
    binary_level(parser, Level::ConditionalOr)
}

/// Parses operands joined by `&&`.
pub fn conditional_and_expression<'t>(parser: &mut Parser<'t>) -> (r: Option<Expression<'t>>)
    requires
        old(parser).wf(),
    ensures
        parsed_expr(*old(parser), *final(parser), p_level(old(parser)@, Level::ConditionalAnd), r),
{
    binary_level(parser, Level::ConditionalAnd)
}

/// Parses operands joined by `|`.
pub fn logical_or_expression<'t>(parser: &mut Parser<'t>) -> (r: Option<Expression<'t>>)
    requires
        old(parser).wf(),
    ensures
        parsed_expr(*old(parser), *final(parser), p_level(old(parser)@, Level::LogicalOr), r),
{
    binary_level(parser, Level::LogicalOr)
}

/// Parses operands joined by `^`.
pub fn logical_xor_expression<'t>(parser: &mut Parser<'t>) -> (r: Option<Expression<'t>>)
    requires
        old(parser).wf(),
    ensures
        parsed_expr(*old(parser), *final(parser), p_level(old(parser)@, Level::LogicalXor), r),
{
    binary_level(parser, Level::LogicalXor)
}

/// Parses operands joined by `&`.
pub fn logical_and_expression<'t>(parser: &mut Parser<'t>) -> (r: Option<Expression<'t>>)
    requires
        old(parser).wf(),
    ensures
        parsed_expr(*old(parser), *final(parser), p_level(old(parser)@, Level::LogicalAnd), r),
{
    binary_level(parser, Level::LogicalAnd)
}

/// Parses operands joined by `==` and `!=`.
pub fn equality_expression<'t>(parser: &mut Parser<'t>) -> (r: Option<Expression<'t>>)
    requires
        old(parser).wf(),
    ensures
        parsed_expr(*old(parser), *final(parser), p_level(old(parser)@, Level::Equality), r),
{
    binary_level(parser, Level::Equality)
}

/// Parses an operand and at most one comparison with another.
pub fn comparision_expression<'t>(parser: &mut Parser<'t>) -> (r: Option<Expression<'t>>)
    requires
        old(parser).wf(),
    ensures
        parsed_expr(*old(parser), *final(parser), p_level(old(parser)@, Level::Comparision), r),
{
    binary_level(parser, Level::Comparision)
}

/// Parses operands joined by `<<` and `>>`.
pub fn shift_expression<'t>(parser: &mut Parser<'t>) -> (r: Option<Expression<'t>>)
    requires
        old(parser).wf(),
    ensures
        parsed_expr(*old(parser), *final(parser), p_level(old(parser)@, Level::Shift), r),
{
    binary_level(parser, Level::Shift)
}

/// Parses operands joined by `+` and `-`.
pub fn additive_expression<'t>(parser: &mut Parser<'t>) -> (r: Option<Expression<'t>>)
    requires
        old(parser).wf(),
    ensures
        parsed_expr(*old(parser), *final(parser), p_level(old(parser)@, Level::Additive), r),
{
    binary_level(parser, Level::Additive)
}

/// Parses operands joined by `*`, `/` and `%`.
pub fn multiplicative_expression<'t>(parser: &mut Parser<'t>) -> (r: Option<Expression<'t>>)
    requires
        old(parser).wf(),
    ensures
        parsed_expr(*old(parser), *final(parser), p_level(old(parser)@, Level::Multiplicative), r),
{
    binary_level(parser, Level::Multiplicative)
}

fn unary_operator(k: TokenKind) -> (r: Option<UnaryOperator>)
    ensures
        r == unary_op(k),
{
    match k {
        TokenKind::Not => Some(UnaryOperator::Not),
        TokenKind::Plus => Some(UnaryOperator::Plus),
        TokenKind::Minus => Some(UnaryOperator::Negative),
        TokenKind::PlusPlus => Some(UnaryOperator::Increment),
        TokenKind::MinusMinus => Some(UnaryOperator::Decrement),
        TokenKind::Tilde => Some(UnaryOperator::Complement),
        _ => None,
    }
}

/// Parses prefix operators and the expression they apply to.
pub fn unary_expression<'t>(parser: &mut Parser<'t>) -> (r: Option<Expression<'t>>)
    requires
        old(parser).wf(),
    ensures
        parsed_expr(*old(parser), *final(parser), p_unary(old(parser)@), r),
    decreases measure(old(parser)@), 13nat,
{
    proof {
        reveal_with_fuel(p_unary, 1);
        reveal_with_fuel(p_postfix, 1);
    }
    let t = parser.peek();
    match t {
        Some(tok) => match unary_operator(tok.kind) {
            Some(op) => {
                parser.next();
                let e = match unary_expression(parser) {
                    Some(e) => e,
                    None => return None,
                };
                let span = Span { start: tok.span.start, end: e.span.end };
                {
                    let e = Expression { kind: ExpressionKind::Unary(op, Box::new(e)), span };
                    proof {
                        lemma_expr_view_shape(e);
                    }
                    Some(e)
                }
            },
            None => postfix_expression(parser),
        },
        None => postfix_expression(parser),
    }
}

fn postfix_form_of(k: TokenKind) -> (r: Option<Postfix>)
    ensures
        r == postfix_of(k),
{
    match k {
        TokenKind::ParanthesisLeft => Some(Postfix::Call),
        TokenKind::SquareBracketLeft => Some(Postfix::Index),
        TokenKind::Dot => Some(Postfix::Reference),
        TokenKind::PlusPlus => Some(Postfix::PostOp),
        TokenKind::MinusMinus => Some(Postfix::PostOp),
        TokenKind::QuestionMark => Some(Postfix::ShortCircuit),
        TokenKind::ColonColon => Some(Postfix::Path),
        _ => None,
    }
}

/// Parses a primary expression and the postfix forms after it.
pub fn postfix_expression<'t>(parser: &mut Parser<'t>) -> (r: Option<Expression<'t>>)
    requires
        old(parser).wf(),
    ensures
        parsed_expr(*old(parser), *final(parser), p_postfix(old(parser)@), r),
    decreases measure(old(parser)@), 12nat,
{
    proof {
        reveal_with_fuel(p_postfix, 1);
        reveal_with_fuel(p_postfix_loop, 1);
        reveal_with_fuel(p_primary, 1);
    }
    let left = primary_expression(parser);
    postfix_loop(parser, left)
}

/// Parses the postfix forms after `left0`.
fn postfix_loop<'t>(parser: &mut Parser<'t>, left0: Option<Expression<'t>>) -> (r: Option<
    Expression<'t>,
>)
    requires
        old(parser).wf(),
    ensures
        steps_to(*old(parser), *final(parser), p_postfix_loop(old(parser)@, maybe_expr_view(left0)).0),
        maybe_expr_view(r) == p_postfix_loop(old(parser)@, maybe_expr_view(left0)).1,
        r is Some ==> left0 is Some || measure(final(parser)@) < measure(old(parser)@),
    decreases measure(old(parser)@), 11nat,
{
    let ghost p0 = parser@;
    let ghost v0 = maybe_expr_view(left0);
    let ghost had = left0 is Some;
    let mut left = left0;
    loop
        invariant
            parser.wf(),
            parser.input() == old(parser).input(),
            keeps_errors(old(parser)@, parser@),
            parser@.st.text == p0.st.text,
            measure(parser@) <= measure(p0),
            p0 == old(parser)@,
            p_postfix_loop(parser@, maybe_expr_view(left)) == p_postfix_loop(p0, v0),
            v0 == maybe_expr_view(left0),
            had == (left0 is Some),
            left is Some ==> had || measure(parser@) < measure(p0),
        decreases measure(parser@),
    {
        proof {
            reveal_with_fuel(p_postfix_loop, 1);
            reveal_with_fuel(p_postfix_form, 1);
        }
        let ghost p = parser@;
        let t = parser.peek();
        let f = match t {
            Some(tok) => postfix_form_of(tok.kind),
            None => None,
        };
        let f = match f {
            Some(f) => f,
            None => return left,
        };
        left = postfix_form(parser, f, left);
    }
}

/// Parses the postfix form `f`, repeated, after `left`, or after a primary
/// expression when `left` is `None`.
fn postfix_form<'t>(parser: &mut Parser<'t>, f: Postfix, left: Option<Expression<'t>>) -> (r: Option<
    Expression<'t>,
>)
    requires
        old(parser).wf(),
    ensures
        steps_to(*old(parser), *final(parser), p_postfix_form(old(parser)@, f, maybe_expr_view(left)).0),
        maybe_expr_view(r) == p_postfix_form(old(parser)@, f, maybe_expr_view(left)).1,
        r is Some ==> left is Some || measure(final(parser)@) < measure(old(parser)@),
        (p_peek(old(parser)@).1 matches Some(t) && postfix_of(t.kind) == Some(f)) ==> measure(
            final(parser)@,
        ) < measure(old(parser)@),
    decreases measure(old(parser)@), 10nat,
{
    proof {
        reveal_with_fuel(p_postfix_form, 1);
        reveal_with_fuel(p_postfix_tail, 1);
        reveal_with_fuel(p_primary, 1);
    }
    let l = match left {
        Some(x) => Some(x),
        None => primary_expression(parser),
    };
    match l {
        None => None,
        Some(x) => postfix_tail(parser, f, x),
    }
}

/// Parses calls `(..)` after `left`, or after a primary expression.
pub fn call_expression<'t>(parser: &mut Parser<'t>, left: Option<Expression<'t>>) -> (r: Option<
    Expression<'t>,
>)
    requires
        old(parser).wf(),
    ensures
        steps_to(*old(parser), *final(parser), p_postfix_form(old(parser)@, Postfix::Call, maybe_expr_view(left)).0),
        maybe_expr_view(r) == p_postfix_form(old(parser)@, Postfix::Call, maybe_expr_view(left)).1,
{
    postfix_form(parser, Postfix::Call, left)
}

/// Parses indexing `[..]` after `left`, or after a primary expression.
pub fn index_expression<'t>(parser: &mut Parser<'t>, left: Option<Expression<'t>>) -> (r: Option<
    Expression<'t>,
>)
    requires
        old(parser).wf(),
    ensures
        steps_to(*old(parser), *final(parser), p_postfix_form(old(parser)@, Postfix::Index, maybe_expr_view(left)).0),
        maybe_expr_view(r) == p_postfix_form(old(parser)@, Postfix::Index, maybe_expr_view(left)).1,
{
    postfix_form(parser, Postfix::Index, left)
}

/// Parses member accesses `.x` after `left`, or after a primary expression.
pub fn reference_expression<'t>(parser: &mut Parser<'t>, left: Option<Expression<'t>>) -> (r: Option<
    Expression<'t>,
>)
    requires
        old(parser).wf(),
    ensures
        steps_to(*old(parser), *final(parser), p_postfix_form(old(parser)@, Postfix::Reference, maybe_expr_view(left)).0),
        maybe_expr_view(r) == p_postfix_form(old(parser)@, Postfix::Reference, maybe_expr_view(left)).1,
{
    postfix_form(parser, Postfix::Reference, left)
}

/// Parses `++` and `--` after `left`, or after a primary expression.
pub fn post_op_expression<'t>(parser: &mut Parser<'t>, left: Option<Expression<'t>>) -> (r: Option<
    Expression<'t>,
>)
    requires
        old(parser).wf(),
    ensures
        steps_to(*old(parser), *final(parser), p_postfix_form(old(parser)@, Postfix::PostOp, maybe_expr_view(left)).0),
        maybe_expr_view(r) == p_postfix_form(old(parser)@, Postfix::PostOp, maybe_expr_view(left)).1,
{
    postfix_form(parser, Postfix::PostOp, left)
}

/// Parses `?` after `left`, or after a primary expression.
pub fn short_circuit_expression<'t>(parser: &mut Parser<'t>, left: Option<Expression<'t>>) -> (r: Option<
    Expression<'t>,
>)
    requires
        old(parser).wf(),
    ensures
        steps_to(*old(parser), *final(parser), p_postfix_form(old(parser)@, Postfix::ShortCircuit, maybe_expr_view(left)).0),
        maybe_expr_view(r) == p_postfix_form(old(parser)@, Postfix::ShortCircuit, maybe_expr_view(left)).1,
{
    postfix_form(parser, Postfix::ShortCircuit, left)
}

/// Parses `:: expression` after `left`, or after a primary expression.
pub fn path_expression<'t>(parser: &mut Parser<'t>, left: Option<Expression<'t>>) -> (r: Option<
    Expression<'t>,
>)
    requires
        old(parser).wf(),
    ensures
        steps_to(*old(parser), *final(parser), p_postfix_form(old(parser)@, Postfix::Path, maybe_expr_view(left)).0),
        maybe_expr_view(r) == p_postfix_form(old(parser)@, Postfix::Path, maybe_expr_view(left)).1,
{
    postfix_form(parser, Postfix::Path, left)
}

/// Parses repetitions of the postfix form `f` after `left0`.
fn postfix_tail<'t>(parser: &mut Parser<'t>, f: Postfix, left0: Expression<'t>) -> (r: Option<
    Expression<'t>,
>)
    requires
        old(parser).wf(),
    ensures
        steps_to(*old(parser), *final(parser), p_postfix_tail(old(parser)@, f, expr_view(left0)).0),
        maybe_expr_view(r) == p_postfix_tail(old(parser)@, f, expr_view(left0)).1,
        (p_peek(old(parser)@).1 matches Some(t) && postfix_of(t.kind) == Some(f)) ==> measure(
            final(parser)@,
        ) < measure(old(parser)@),
    decreases measure(old(parser)@), 0nat,
{
    let ghost p0 = parser@;
    let ghost v0 = expr_view(left0);
    let ghost starts = p_peek(p0).1 matches Some(t) && postfix_of(t.kind) == Some(f);
    let mut left = left0;
    loop
        invariant
            parser.wf(),
            parser.input() == old(parser).input(),
            keeps_errors(old(parser)@, parser@),
            parser@.st.text == p0.st.text,
            measure(parser@) <= measure(p0),
            p0 == old(parser)@,
            p_postfix_tail(parser@, f, expr_view(left)) == p_postfix_tail(p0, f, v0),
            v0 == expr_view(left0),
            starts == (p_peek(p0).1 matches Some(t) && postfix_of(t.kind) == Some(f)),
            starts ==> parser@ == p0 || measure(parser@) < measure(p0),
        decreases measure(parser@),
    {
        proof {
            reveal_with_fuel(p_postfix_tail, 1);
            reveal_with_fuel(p_expression, 1);
            reveal_with_fuel(p_exprs, 1);
            reveal_with_fuel(p_postfix, 1);
        }
        let ghost p = parser@;
        match f {
            Postfix::Call => {
                if parser.next_if_kind(TokenKind::ParanthesisLeft).is_none() {
                    return Some(left);
                }
                let args = match exprs(parser, TokenKind::ParanthesisRight) {
                    Some(a) => a,
                    None => return None,
                };
                let pr = match parser.advance_until_kind(TokenKind::ParanthesisRight) {
                    Some(t) => t,
                    None => return None,
                };
                let span = Span { start: left.span.start, end: pr.span.end };
                left = Expression { kind: ExpressionKind::Call(Box::new(left), args), span };
                proof {
                    lemma_expr_view_shape(left);
                }
            },
            Postfix::Index => {
                if parser.next_if_kind(TokenKind::SquareBracketLeft).is_none() {
                    return Some(left);
                }
                let args = match exprs(parser, TokenKind::SquareBracketRight) {
                    Some(a) => a,
                    None => return None,
                };
                let sbr = match parser.advance_until_kind(TokenKind::SquareBracketRight) {
                    Some(t) => t,
                    None => return None,
                };
                let span = Span { start: left.span.start, end: sbr.span.end };
                left = Expression { kind: ExpressionKind::Index(Box::new(left), args), span };
                proof {
                    lemma_expr_view_shape(left);
                }
            },
            Postfix::Reference => {
                if parser.next_if_kind(TokenKind::Dot).is_none() {
                    return Some(left);
                }
                let right = match postfix_expression(parser) {
                    Some(x) => x,
                    None => return None,
                };
                let span = Span { start: left.span.start, end: right.span.end };
                left = Expression {
                    kind: ExpressionKind::Reference(Box::new(left), Box::new(right)),
                    span,
                };
                proof {
                    lemma_expr_view_shape(left);
                }
            },
            Postfix::PostOp => {
                let t = parser.peek();
                let (op, end) = match t {
                    Some(tok) => if tok.kind == TokenKind::PlusPlus {
                        (PostOperator::Increment, tok.span)
                    } else if tok.kind == TokenKind::MinusMinus {
                        (PostOperator::Decrement, tok.span)
                    } else {
                        return Some(left);
                    },
                    None => return Some(left),
                };
                parser.next();
                let span = Span { start: left.span.start, end: end.end };
                left = Expression { kind: ExpressionKind::PostOp(Box::new(left), op), span };
                proof {
                    lemma_expr_view_shape(left);
                }
            },
            Postfix::ShortCircuit => {
                let mark = match parser.next_if_kind(TokenKind::QuestionMark) {
                    Some(m) => m,
                    None => return Some(left),
                };
                let span = Span { start: left.span.start, end: mark.span.end };
                left = Expression { kind: ExpressionKind::ShortCircuit(Box::new(left)), span };
                proof {
                    lemma_expr_view_shape(left);
                }
            },
            Postfix::Path => {
                if parser.next_if_kind(TokenKind::ColonColon).is_none() {
                    return Some(left);
                }
                let right = match expression(parser) {
                    Some(x) => x,
                    None => return None,
                };
                let span = Span { start: left.span.start, end: right.span.end };
                left = Expression { kind: ExpressionKind::Path(Box::new(left), Box::new(right)), span };
                proof {
                    lemma_expr_view_shape(left);
                }
            },
        }
    }
}

/// Parses a primary expression.
pub fn primary_expression<'t>(parser: &mut Parser<'t>) -> (r: Option<Expression<'t>>)
    requires
        old(parser).wf(),
    ensures
        parsed_expr(*old(parser), *final(parser), p_primary(old(parser)@), r),
        (p_peek(old(parser)@).1 matches Some(t) && postfix_of(t.kind) is Some) ==> measure(
            final(parser)@,
        ) < measure(old(parser)@),
    decreases measure(old(parser)@), 9nat,
{
    proof {
        reveal_with_fuel(p_primary, 1);
        reveal_with_fuel(p_array, 1);
        reveal_with_fuel(p_closure, 1);
        reveal_with_fuel(p_if, 1);
        reveal_with_fuel(p_match, 1);
        reveal_with_fuel(p_new_init, 1);
        reveal_with_fuel(p_tuple, 1);
    }
    let tok = match parser.peek() {
        Some(tok) => tok,
        None => return None,
    };
    match tok.kind {
        TokenKind::NewKeyword => new_init_expression(parser),
        TokenKind::Identifier => access_expression(parser),
        TokenKind::SelfKeyword => access_expression(parser),
        TokenKind::ParanthesisLeft => tuple_expression(parser),
        TokenKind::SquareBracketLeft => array_expression(parser),
        TokenKind::StringLiteral { .. } => string_literal(parser),
        TokenKind::CharacterLiteral { .. } => char_literal(parser),
        TokenKind::NumberLiteral { is_floating, .. } => if is_floating {
            float_literal(parser)
        } else {
            integer_literal(parser)
        },
        TokenKind::FalseKeyword => boolean_literal(parser),
        TokenKind::TrueKeyword => boolean_literal(parser),
        TokenKind::NullKeyword => null_literal(parser),
        TokenKind::MatchKeyword => match_expression(parser),
        TokenKind::IfKeyword => if_expression(parser),
        TokenKind::Dollar => closure_expression(parser),
        _ => {
            parser.next();
            parser.error(ParseError::new(ParseErrorKind::UnexpectedToken(tok.kind), tok.span, tok.line));
            primary_expression(parser)
        },
    }
}

/// Parses a name or `self`.
pub fn access_expression<'t>(parser: &mut Parser<'t>) -> (r: Option<Expression<'t>>)
    requires
        old(parser).wf(),
    ensures
        parsed_expr(*old(parser), *final(parser), p_access(old(parser)@), r),
{
    proof {
        reveal(p_access);
    }
    let tok = match parser.advance(Accept::IdentifierOrSelf) {
        Some(t) => t,
        None => return None,
    };
    let access = if tok.kind == TokenKind::Identifier {
        AccessExpression::Identifier(parser.text_of(tok.span))
    } else {
        AccessExpression::SelfAccess
    };
    {
        let e = Expression { kind: ExpressionKind::Access(access), span: tok.span };
        proof {
            lemma_expr_view_shape(e);
        }
        Some(e)
    }
}

/// Parses expressions separated by commas up to a token of kind `end`.
fn exprs<'t>(parser: &mut Parser<'t>, end: TokenKind) -> (r: Option<Vec<Expression<'t>>>)
    requires
        old(parser).wf(),
    ensures
        steps_to(*old(parser), *final(parser), p_exprs(old(parser)@, end, Seq::empty()).0),
        (match r {
            Some(v) => p_exprs(old(parser)@, end, Seq::empty()).1 == Some(exprs_view(v@)),
            None => p_exprs(old(parser)@, end, Seq::empty()).1 is None,
        }),
    decreases measure(old(parser)@), 26nat,
{
    let ghost p0 = parser@;
    let mut v: Vec<Expression<'t>> = Vec::new();
    proof {
        lemma_empty_views();
        assert(exprs_view(v@) =~= Seq::<SExpression>::empty());
    }
    loop
        invariant
            parser.wf(),
            parser.input() == old(parser).input(),
            keeps_errors(old(parser)@, parser@),
            parser@.st.text == p0.st.text,
            measure(parser@) <= measure(p0),
            p0 == old(parser)@,
            p_exprs(parser@, end, exprs_view(v@)) == p_exprs(p0, end, Seq::empty()),
        decreases measure(parser@),
    {
        proof {
            reveal_with_fuel(p_exprs, 1);
            reveal_with_fuel(p_expression, 1);
        }
        let ghost p = parser@;
        if parser.is_next(end) {
            return Some(v);
        }
        let e = match expression(parser) {
            Some(e) => e,
            None => return None,
        };
        proof {
            lemma_exprs_push(v@, e);
        }
        v.push(e);
        if parser.is_next(end) {
            return Some(v);
        }
        if parser.advance_until_kind(TokenKind::Comma).is_none() {
            return None;
        }
    }
}

/// Parses `new`, a type name, and its fields or values.
#[verifier::rlimit(50)]
pub fn new_init_expression<'t>(parser: &mut Parser<'t>) -> (r: Option<Expression<'t>>)
    requires
        old(parser).wf(),
    ensures
        parsed_expr(*old(parser), *final(parser), p_new_init(old(parser)@), r),
    decreases measure(old(parser)@), 8nat,
{
    proof {
        reveal_with_fuel(p_new_init, 1);
        reveal_with_fuel(p_exprs, 1);
        reveal_with_fuel(p_field_inits, 1);
    }
    let kw = match parser.next_if_kind_errored(TokenKind::NewKeyword) {
        Some(t) => t,
        None => return None,
    };
    let rt = match return_type(parser) {
        Some(r) => r,
        None => return None,
    };
    if parser.next_if_kind(TokenKind::CurlyBracketLeft).is_some() {
        let inits = match field_inits(parser, TokenKind::CurlyBracketRight) {
            Some(v) => v,
            None => return None,
        };
        let cbr = match parser.advance_until_kind(TokenKind::CurlyBracketRight) {
            Some(t) => t,
            None => return None,
        };
        let span = Span { start: kw.span.start, end: cbr.span.end };
        {
            let e = Expression { kind: ExpressionKind::New(rt, NewExprType::Field(inits)), span };
            proof {
                lemma_expr_view_shape(e);
            }
            Some(e)
        }
    } else if parser.next_if_kind(TokenKind::ParanthesisLeft).is_some() {
        let args = match exprs(parser, TokenKind::ParanthesisRight) {
            Some(v) => v,
            None => return None,
        };
        let pr = match parser.advance_until_kind(TokenKind::ParanthesisRight) {
            Some(t) => t,
            None => return None,
        };
        let span = Span { start: kw.span.start, end: pr.span.end };
        {
            let e = Expression { kind: ExpressionKind::New(rt, NewExprType::Tuple(args)), span };
            proof {
                lemma_expr_view_shape(e);
            }
            Some(e)
        }
    } else {
        let span = Span { start: kw.span.start, end: rt.span.end };
        {
            let e = Expression { kind: ExpressionKind::New(rt, NewExprType::Zero), span };
            proof {
                lemma_expr_view_shape(e);
            }
            Some(e)
        }
    }
}

/// Parses a field of a `new` expression.
fn new_field_member<'t>(parser: &mut Parser<'t>) -> (r: Option<FieldInitialization<'t>>)
    requires
        old(parser).wf(),
    ensures
        steps_to(*old(parser), *final(parser), p_field_init(old(parser)@).0),
        (match r {
            Some(x) => p_field_init(old(parser)@).1 == Some(field_init_view(x)),
            None => p_field_init(old(parser)@).1 is None,
        }),
        r is Some ==> measure(final(parser)@) < measure(old(parser)@),
    decreases measure(old(parser)@), 26nat,
{
    proof {
        reveal_with_fuel(p_field_init, 1);
        reveal_with_fuel(p_expression, 1);
    }
    let id = match parser.advance_until_kind(TokenKind::Identifier) {
        Some(t) => t,
        None => return None,
    };
    let identifier = parser.text_of(id.span);
    let expression = if parser.is_next(TokenKind::Equals) {
        if parser.advance_until_kind(TokenKind::Equals).is_none() {
            return None;
        }
        match expression(parser) {
            Some(e) => e,
            None => return None,
        }
    } else {
        let e = Expression {
            kind: ExpressionKind::Access(AccessExpression::Identifier(identifier)),
            span: id.span,
        };
        proof {
            lemma_expr_view_shape(e);
        }
        e
    };
    let f = FieldInitialization { identifier, expression };
    proof {
        lemma_field_init_view(f);
    }
    Some(f)
}

/// Parses fields of a `new` expression up to a token of kind `end`.
fn field_inits<'t>(parser: &mut Parser<'t>, end: TokenKind) -> (r: Option<
    Vec<FieldInitialization<'t>>,
>)
    requires
        old(parser).wf(),
    ensures
        steps_to(*old(parser), *final(parser), p_field_inits(old(parser)@, end, Seq::empty()).0),
        (match r {
            Some(v) => p_field_inits(old(parser)@, end, Seq::empty()).1 == Some(
                field_inits_view(v@),
            ),
            None => p_field_inits(old(parser)@, end, Seq::empty()).1 is None,
        }),
    decreases measure(old(parser)@), 27nat,
{
    let ghost p0 = parser@;
    let mut v: Vec<FieldInitialization<'t>> = Vec::new();
    proof {
        lemma_empty_views();
        assert(field_inits_view(v@) =~= Seq::<SFieldInit>::empty());
    }
    loop
        invariant
            parser.wf(),
            parser.input() == old(parser).input(),
            keeps_errors(old(parser)@, parser@),
            parser@.st.text == p0.st.text,
            measure(parser@) <= measure(p0),
            p0 == old(parser)@,
            p_field_inits(parser@, end, field_inits_view(v@)) == p_field_inits(
                p0,
                end,
                Seq::empty(),
            ),
        decreases measure(parser@),
    {
        proof {
            reveal_with_fuel(p_field_inits, 1);
            reveal_with_fuel(p_field_init, 1);
        }
        let ghost p = parser@;
        if parser.is_next(end) {
            return Some(v);
        }
        let e = match new_field_member(parser) {
            Some(e) => e,
            None => return None,
        };
        proof {
            lemma_field_inits_push(v@, e);
        }
        v.push(e);
        if parser.is_next(end) {
            return Some(v);
        }
        if parser.advance_until_kind(TokenKind::Comma).is_none() {
            return None;
        }
    }
}

/// Parses expressions between brackets of kinds `open` and `close`.
fn bracketed<'t>(parser: &mut Parser<'t>, open: TokenKind, close: TokenKind) -> (r: Option<
    (Vec<Expression<'t>>, Span),
>)
    requires
        old(parser).wf(),
    ensures
        steps_to(*old(parser), *final(parser), p_bracketed(old(parser)@, open, close).0),
        (match r {
            Some((v, span)) => p_bracketed(old(parser)@, open, close).1 == Some(
                (exprs_view(v@), span),
            ),
            None => p_bracketed(old(parser)@, open, close).1 is None,
        }),
        r is Some ==> measure(final(parser)@) < measure(old(parser)@),
        (p_peek(old(parser)@).1 matches Some(t) && t.kind == open) ==> measure(final(parser)@)
            < measure(old(parser)@),
    decreases measure(old(parser)@), 7nat,
{
    proof {
        reveal_with_fuel(p_bracketed, 1);
        reveal_with_fuel(p_exprs, 1);
    }
    let o = match parser.advance_until_kind(open) {
        Some(t) => t,
        None => return None,
    };
    let v = match exprs(parser, close) {
        Some(v) => v,
        None => return None,
    };
    let c = match parser.advance_until_kind(close) {
        Some(t) => t,
        None => return None,
    };
    Some((v, Span { start: o.span.start, end: c.span.end }))
}

/// Parses `( expressions )`.
pub fn tuple_expression<'t>(parser: &mut Parser<'t>) -> (r: Option<Expression<'t>>)
    requires
        old(parser).wf(),
    ensures
        parsed_expr(*old(parser), *final(parser), p_tuple(old(parser)@), r),
        (p_peek(old(parser)@).1 matches Some(t) && t.kind == TokenKind::ParanthesisLeft) ==> measure(
            final(parser)@,
        ) < measure(old(parser)@),
    decreases measure(old(parser)@), 8nat,
{
    proof {
        reveal_with_fuel(p_tuple, 1);
        reveal_with_fuel(p_bracketed, 1);
    }
    match bracketed(parser, TokenKind::ParanthesisLeft, TokenKind::ParanthesisRight) {
        Some((v, span)) => {
            let e = Expression { kind: ExpressionKind::Tuple(v), span };
            proof {
                lemma_expr_view_shape(e);
            }
            Some(e)
        },
        None => None,
    }
}

/// Parses `[ expressions ]`.
pub fn array_expression<'t>(parser: &mut Parser<'t>) -> (r: Option<Expression<'t>>)
    requires
        old(parser).wf(),
    ensures
        parsed_expr(*old(parser), *final(parser), p_array(old(parser)@), r),
        (p_peek(old(parser)@).1 matches Some(t) && t.kind == TokenKind::SquareBracketLeft)
            ==> measure(final(parser)@) < measure(old(parser)@),
    decreases measure(old(parser)@), 8nat,
{
    proof {
        reveal_with_fuel(p_array, 1);
        reveal_with_fuel(p_bracketed, 1);
    }
    match bracketed(parser, TokenKind::SquareBracketLeft, TokenKind::SquareBracketRight) {
        Some((v, span)) => {
            let e = Expression { kind: ExpressionKind::Array(v), span };
            proof {
                lemma_expr_view_shape(e);
            }
            Some(e)
        },
        None => None,
    }
}

/// Parses a `match` expression.
pub fn match_expression<'t>(parser: &mut Parser<'t>) -> (r: Option<Expression<'t>>)
    requires
        old(parser).wf(),
    ensures
        parsed_expr(*old(parser), *final(parser), p_match(old(parser)@), r),
    decreases measure(old(parser)@), 8nat,
{
    proof {
        reveal_with_fuel(p_match, 1);
        reveal_with_fuel(p_expression, 1);
        reveal_with_fuel(p_match_arms, 1);
    }
    let kw = match parser.next_if_kind_errored(TokenKind::MatchKeyword) {
        Some(t) => t,
        None => return None,
    };
    let matcher = match expression(parser) {
        Some(e) => e,
        None => return None,
    };
    if parser.advance_until_kind(TokenKind::CurlyBracketLeft).is_none() {
        return None;
    }
    let arms = match match_arms(parser, TokenKind::CurlyBracketRight) {
        Some(v) => v,
        None => return None,
    };
    let cbr = match parser.advance_until_kind(TokenKind::CurlyBracketRight) {
        Some(t) => t,
        None => return None,
    };
    let span = Span { start: kw.span.start, end: cbr.span.end };
    {
        let e = Expression { kind: ExpressionKind::Match(Box::new(matcher), arms), span };
        proof {
            lemma_expr_view_shape(e);
        }
        Some(e)
    }
}

/// Parses an arm of a `match`.
#[verifier::rlimit(50)]
fn match_arm<'t>(parser: &mut Parser<'t>) -> (r: Option<MatchArm<'t>>)
    requires
        old(parser).wf(),
    ensures
        steps_to(*old(parser), *final(parser), p_match_arm(old(parser)@).0),
        (match r {
            Some(x) => p_match_arm(old(parser)@).1 == Some(match_arm_view(x)),
            None => p_match_arm(old(parser)@).1 is None,
        }),
        r is Some ==> measure(final(parser)@) < measure(old(parser)@),
    decreases measure(old(parser)@), 26nat,
{
    proof {
        reveal_with_fuel(p_match_arm, 1);
        reveal_with_fuel(p_arm_body, 1);
        reveal_with_fuel(p_expression, 1);
    }
    let pattern = if parser.next_if_kind(TokenKind::Underscore).is_some() {
        None
    } else {
        expression(parser)
    };
    let guard = if parser.next_if_kind(TokenKind::IfKeyword).is_some() {
        match expression(parser) {
            Some(e) => Some(e),
            None => return None,
        }
    } else {
        None
    };
    if parser.advance_until_kind(TokenKind::FatArrow).is_none() {
        return None;
    }
    let body = match arm_body(parser) {
        Some(b) => b,
        None => return None,
    };
    let arm = MatchArm { expression: pattern, if_clause: guard, block: body };
    proof {
        lemma_match_arm_view(arm);
    }
    Some(arm)
}

/// Parses the body of a `match` arm.
fn arm_body<'t>(parser: &mut Parser<'t>) -> (r: Option<crate::ast::Block<'t>>)
    requires
        old(parser).wf(),
    ensures
        steps_to(*old(parser), *final(parser), p_arm_body(old(parser)@).0),
        (match r {
            Some(b) => p_arm_body(old(parser)@).1 == Some(block_view(b)),
            None => p_arm_body(old(parser)@).1 is None,
        }),
    decreases measure(old(parser)@), 33nat,
{
    proof {
        reveal_with_fuel(p_arm_body, 1);
        reveal_with_fuel(p_block, 1);
        reveal_with_fuel(p_statement, 1);
    }
    if parser.is_next(TokenKind::CurlyBracketLeft) {
        block(parser)
    } else {
        let st = match statement(parser) {
            Some(s) => s,
            None => return None,
        };
        let span = st.span;
        let mut stmts = Vec::new();
        stmts.push(st);
        proof {
            lemma_empty_views();
            crate::ast::statement::lemma_statements_push(Seq::empty(), stmts@[0]);
            assert(stmts@ =~= Seq::empty().push(stmts@[0]));
        }
        let b = crate::tokens::Spanned { data: stmts, span };
        proof {
            lemma_block_view(b);
        }
        Some(b)
    }
}

/// Parses arms of a `match` up to a token of kind `end`.
fn match_arms<'t>(parser: &mut Parser<'t>, end: TokenKind) -> (r: Option<Vec<MatchArm<'t>>>)
    requires
        old(parser).wf(),
    ensures
        steps_to(*old(parser), *final(parser), p_match_arms(old(parser)@, end, Seq::empty()).0),
        (match r {
            Some(v) => p_match_arms(old(parser)@, end, Seq::empty()).1 == Some(match_arms_view(v@)),
            None => p_match_arms(old(parser)@, end, Seq::empty()).1 is None,
        }),
    decreases measure(old(parser)@), 27nat,
{
    let ghost p0 = parser@;
    let mut v: Vec<MatchArm<'t>> = Vec::new();
    proof {
        lemma_empty_views();
        assert(match_arms_view(v@) =~= Seq::<SMatchArm>::empty());
    }
    loop
        invariant
            parser.wf(),
            parser.input() == old(parser).input(),
            keeps_errors(old(parser)@, parser@),
            parser@.st.text == p0.st.text,
            measure(parser@) <= measure(p0),
            p0 == old(parser)@,
            p_match_arms(parser@, end, match_arms_view(v@)) == p_match_arms(p0, end, Seq::empty()),
        decreases measure(parser@),
    {
        proof {
            reveal_with_fuel(p_match_arms, 1);
            reveal_with_fuel(p_match_arm, 1);
        }
        let ghost p = parser@;
        if parser.is_next(end) {
            return Some(v);
        }
        let e = match match_arm(parser) {
            Some(e) => e,
            None => return None,
        };
        proof {
            lemma_match_arms_push(v@, e);
        }
        v.push(e);
        if parser.is_next(end) {
            return Some(v);
        }
        if parser.advance_until_kind(TokenKind::Comma).is_none() {
            return None;
        }
    }
}

/// Parses an `if` expression.
#[verifier::rlimit(50)]
pub fn if_expression<'t>(parser: &mut Parser<'t>) -> (r: Option<Expression<'t>>)
    requires
        old(parser).wf(),
    ensures
        parsed_expr(*old(parser), *final(parser), p_if(old(parser)@), r),
    decreases measure(old(parser)@), 8nat,
{
    proof {
        reveal_with_fuel(p_if, 1);
        reveal_with_fuel(p_block, 1);
        reveal_with_fuel(p_else_arms, 1);
        reveal_with_fuel(p_expression, 1);
    }
    let kw = match parser.next_if_kind_errored(TokenKind::IfKeyword) {
        Some(t) => t,
        None => return None,
    };
    let clause = match expression(parser) {
        Some(e) => e,
        None => return None,
    };
    let first_block = match block(parser) {
        Some(b) => b,
        None => return None,
    };
    let (arms, els) = match else_arms(parser) {
        Some(x) => x,
        None => return None,
    };
    let end = match &els {
        Some(b) => b.span,
        None => if arms.len() > 0 {
            arms[arms.len() - 1].block.span
        } else {
            first_block.span
        },
    };
    proof {
        lemma_if_arms_last(arms@);
        lemma_block_view(first_block);
        if arms@.len() > 0 {
            lemma_if_arm_view(arms@.last());
            lemma_block_view(arms@.last().block);
        }
        if els is Some {
            lemma_block_view(els->0);
        }
    }
    let span = Span { start: kw.span.start, end: end.end };
    let first = IfArm { clause, block: first_block };
    proof {
        lemma_if_arm_view(first);
    }
    {
        let e = Expression { kind: ExpressionKind::If(Box::new(first), arms, els), span };
        proof {
            lemma_expr_view_shape(e);
        }
        Some(e)
    }
}

/// Parses the `else if` arms and the `else` block of an `if`.
fn else_arms<'t>(parser: &mut Parser<'t>) -> (r: Option<(Vec<IfArm<'t>>, Option<crate::ast::Block<'t>>)>)
    requires
        old(parser).wf(),
    ensures
        steps_to(*old(parser), *final(parser), p_else_arms(old(parser)@, Seq::empty(), None).0),
        (match r {
            Some((arms, els)) => p_else_arms(old(parser)@, Seq::empty(), None).1 == Some(
                (
                    if_arms_view(arms@),
                    match els {
                        Some(b) => Some(block_view(b)),
                        None => None::<SBlock>,
                    },
                ),
            ),
            None => p_else_arms(old(parser)@, Seq::empty(), None).1 is None,
        }),
    decreases measure(old(parser)@), 0nat,
{
    let ghost p0 = parser@;
    let mut arms: Vec<IfArm<'t>> = Vec::new();
    let mut els: Option<crate::ast::Block<'t>> = None;
    proof {
        lemma_empty_views();
        assert(if_arms_view(arms@) =~= Seq::<SIfArm>::empty());
    }
    loop
        invariant
            parser.wf(),
            parser.input() == old(parser).input(),
            keeps_errors(old(parser)@, parser@),
            parser@.st.text == p0.st.text,
            measure(parser@) <= measure(p0),
            p0 == old(parser)@,
            p_else_arms(
                parser@,
                if_arms_view(arms@),
                match els {
                    Some(b) => Some(block_view(b)),
                    None => None::<SBlock>,
                },
            ) == p_else_arms(p0, Seq::empty(), None),
        decreases measure(parser@),
    {
        proof {
            reveal_with_fuel(p_else_arms, 1);
            reveal_with_fuel(p_block, 1);
            reveal_with_fuel(p_expression, 1);
        }
        let ghost p = parser@;
        if parser.next_if_kind(TokenKind::ElseKeyword).is_none() {
            return Some((arms, els));
        }
        if parser.next_if_kind(TokenKind::IfKeyword).is_some() {
            let clause = match expression(parser) {
                Some(e) => e,
                None => return None,
            };
            let b = match block(parser) {
                Some(b) => b,
                None => return None,
            };
            let arm = IfArm { clause, block: b };
            proof {
                lemma_if_arm_view(arm);
                lemma_if_arms_push(arms@, arm);
            }
            arms.push(arm);
        } else {
            els = block(parser);
        }
    }
}

/// Parses a closure parameter.
fn closure_param<'t>(parser: &mut Parser<'t>) -> (r: Option<ClosureParam<'t>>)
    requires
        old(parser).wf(),
    ensures
        steps_to(*old(parser), *final(parser), p_closure_param(old(parser)@).0),
        (match r {
            Some(x) => p_closure_param(old(parser)@).1 == Some(closure_param_view(x)),
            None => p_closure_param(old(parser)@).1 is None,
        }),
        r is Some ==> measure(final(parser)@) < measure(old(parser)@),
{
    proof {
        reveal(p_closure_param);
    }
    let id = match parser.advance_until_identifier_spanned() {
        Some(i) => i,
        None => return None,
    };
    if parser.next_if_kind(TokenKind::Colon).is_some() {
        let rt = match return_type(parser) {
            Some(r) => r,
            None => return None,
        };
        let span = Span { start: id.span.start, end: rt.span.end };
        Some(ClosureParam { identifier: id.data, return_type: Some(rt), span })
    } else {
        Some(ClosureParam { identifier: id.data, return_type: None, span: id.span })
    }
}

/// Parses closure parameters up to a token of kind `end`.
fn closure_params<'t>(parser: &mut Parser<'t>, end: TokenKind) -> (r: Option<Vec<ClosureParam<'t>>>)
    requires
        old(parser).wf(),
    ensures
        steps_to(*old(parser), *final(parser), p_closure_params(old(parser)@, end, Seq::empty()).0),
        (match r {
            Some(v) => p_closure_params(old(parser)@, end, Seq::empty()).1 == Some(
                closure_params_view(v@),
            ),
            None => p_closure_params(old(parser)@, end, Seq::empty()).1 is None,
        }),
{
    let ghost p0 = parser@;
    let mut v: Vec<ClosureParam<'t>> = Vec::new();
    proof {
        assert(closure_params_view(v@) =~= Seq::<SClosureParam>::empty());
    }
    loop
        invariant
            parser.wf(),
            parser.input() == old(parser).input(),
            keeps_errors(old(parser)@, parser@),
            parser@.st.text == p0.st.text,
            measure(parser@) <= measure(p0),
            p0 == old(parser)@,
            p_closure_params(parser@, end, closure_params_view(v@)) == p_closure_params(
                p0,
                end,
                Seq::empty(),
            ),
        decreases measure(parser@),
    {
        proof {
            reveal_with_fuel(p_closure_params, 1);
        }
        let ghost p = parser@;
        if parser.is_next(end) {
            return Some(v);
        }
        let e = match closure_param(parser) {
            Some(e) => e,
            None => return None,
        };
        proof {
            lemma_closure_params_push(v@, e);
        }
        v.push(e);
        if parser.is_next(end) {
            return Some(v);
        }
        if parser.advance_until_kind(TokenKind::Comma).is_none() {
            return None;
        }
    }
}

/// Parses a closure.
pub fn closure_expression<'t>(parser: &mut Parser<'t>) -> (r: Option<Expression<'t>>)
    requires
        old(parser).wf(),
    ensures
        parsed_expr(*old(parser), *final(parser), p_closure(old(parser)@), r),
    decreases measure(old(parser)@), 8nat,
{
    proof {
        reveal_with_fuel(p_closure, 1);
        reveal_with_fuel(p_block, 1);
    }
    let dollar = match parser.advance_until_kind(TokenKind::Dollar) {
        Some(t) => t,
        None => return None,
    };
    if parser.advance_until_kind(TokenKind::ParanthesisLeft).is_none() {
        return None;
    }
    let params = match closure_params(parser, TokenKind::ParanthesisRight) {
        Some(v) => v,
        None => return None,
    };
    if parser.advance_until_kind(TokenKind::ParanthesisRight).is_none() {
        return None;
    }
    if parser.advance_until_kind(TokenKind::FatArrow).is_none() {
        return None;
    }
    let b = match block(parser) {
        Some(b) => b,
        None => return None,
    };
    let span = Span { start: dollar.span.start, end: b.span.end };
    {
        let e = Expression { kind: ExpressionKind::Closure(params, b), span };
        proof {
            lemma_expr_view_shape(e);
        }
        Some(e)
    }
}


/// At the end of the text the operands of any level are nothing, and the
/// state is the one a look-ahead leaves.
proof fn lemma_level_at_end(p: PState, l: Level)
    requires
        p_peek(p).1 is None,
    ensures
        p_level(p, l) == (p_peek(p).0, None::<SExpression>),
    decreases level_rank(l),
{
    reveal_with_fuel(p_level, 1);
    match next_level(l) {
        Some(n) => lemma_level_at_end(p, n),
        None => {
            reveal_with_fuel(p_unary, 1);
            reveal_with_fuel(p_postfix, 1);
            reveal_with_fuel(p_primary, 1);
            reveal_with_fuel(p_postfix_loop, 1);
            let q = p_peek(p).0;
            assert(p_peek(q) == (q, None::<Token>));
            assert(p_primary(q) == (q, None::<SExpression>));
            assert(p_postfix_loop(q, None) == (q, None::<SExpression>));
            assert(p_postfix(q) == (q, None::<SExpression>));
            assert(p_unary(p) == (q, None::<SExpression>));
        },
    }
}

/// At the end of the text an expression is nothing: parsing one records no
/// error and leaves the parser as a look-ahead leaves it.
pub proof fn lemma_expression_at_end(p: PState)
    requires
        p_peek(p).1 is None,
    ensures
        p_expression(p) == (p_peek(p).0, None::<SExpression>),
        p_expression(p).0.errors == p.errors,
{
    reveal_with_fuel(p_expression, 1);
    reveal_with_fuel(p_level, 1);
    lemma_level_at_end(p, Level::Assignment);
}

} // verus!
