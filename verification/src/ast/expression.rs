//! Expressions of the syntax tree, and their abstract values.
use vstd::prelude::*;

use crate::ast::{ReturnType, SReturnType, SBlock, Block, block_view};
use crate::tokens::Span;

verus! {

/// An expression and the bytes it covers.
#[derive(Debug, PartialEq, Eq)]
pub struct Expression<'s> {
    pub kind: ExpressionKind<'s>,
    pub span: Span,
}

#[derive(Debug, PartialEq, Eq)]
pub enum ExpressionKind<'s> {
    Literal(LiteralExpression),
    Access(AccessExpression<'s>),
    Reference(Box<Expression<'s>>, Box<Expression<'s>>),
    Call(Box<Expression<'s>>, Vec<Expression<'s>>),
    New(ReturnType<'s>, NewExprType<'s>),
    Array(Vec<Expression<'s>>),
    Unary(UnaryOperator, Box<Expression<'s>>),
    Assignment(Box<Expression<'s>>, AssignmentOperator, Box<Expression<'s>>),
    Conditional(Box<Expression<'s>>, ConditionalOperator, Box<Expression<'s>>),
    Logical(Box<Expression<'s>>, LogicalOperator, Box<Expression<'s>>),
    Equality(Box<Expression<'s>>, EqualityOperator, Box<Expression<'s>>),
    Comparision(Box<Expression<'s>>, ComparisionOperator, Box<Expression<'s>>),
    Binary(Box<Expression<'s>>, BinaryOperator, Box<Expression<'s>>),
    PostOp(Box<Expression<'s>>, PostOperator),
    Index(Box<Expression<'s>>, Vec<Expression<'s>>),
    Tuple(Vec<Expression<'s>>),
    Match(Box<Expression<'s>>, Vec<MatchArm<'s>>),
    ShortCircuit(Box<Expression<'s>>),
    If(Box<IfArm<'s>>, Vec<IfArm<'s>>, Option<Block<'s>>),
    Closure(Vec<ClosureParam<'s>>, Block<'s>),
    Path(Box<Expression<'s>>, Box<Expression<'s>>),
}

/// Reading a variable or `self`.
#[derive(Clone, Copy, Debug, PartialEq, Eq)]
pub enum AccessExpression<'s> {
    Identifier(&'s str),
    SelfAccess,
}

/// A literal. A floating literal keeps its digits, which are known to
/// spell a valid `f64`.
#[derive(Debug, PartialEq, Eq)]
pub enum LiteralExpression {
    Bool(bool),
    Null,
    String(String),
    Integer(u128),
    Floating(String),
    Char(char),
}

/// How the fields of a `new` expression are given.
#[derive(Debug, PartialEq, Eq)]
pub enum NewExprType<'s> {
    Field(Vec<FieldInitialization<'s>>),
    Tuple(Vec<Expression<'s>>),
    Zero,
}

#[derive(Debug, PartialEq, Eq)]
pub struct FieldInitialization<'s> {
    pub identifier: &'s str,
    pub expression: Expression<'s>,
}

#[derive(Debug, PartialEq, Eq)]
pub struct MatchArm<'e> {
    pub expression: Option<Expression<'e>>,
    pub if_clause: Option<Expression<'e>>,
    pub block: Block<'e>,
}

#[derive(Debug, PartialEq, Eq)]
pub struct IfArm<'e> {
    pub clause: Expression<'e>,
    pub block: Block<'e>,
}

#[derive(Debug, PartialEq, Eq)]
pub struct ClosureParam<'e> {
    pub identifier: &'e str,
    pub return_type: Option<ReturnType<'e>>,
    pub span: Span,
}

#[derive(Clone, Copy, Debug, PartialEq, Eq, Structural)]
pub enum UnaryOperator {
    Negative,
    Not,
    Plus,
    Increment,
    Decrement,
    Complement,
}

#[derive(Clone, Copy, Debug, PartialEq, Eq, Structural)]
pub enum AssignmentOperator {
    Assign,
    BitLeft,
    BitRight,
    And,
    Or,
    Xor,
    Complement,
    Multiplication,
    Division,
    Addition,
    Substraction,
    Modulo,
}

#[derive(Clone, Copy, Debug, PartialEq, Eq, Structural)]
pub enum ConditionalOperator {
    And,
    Or,
}

#[derive(Clone, Copy, Debug, PartialEq, Eq, Structural)]
pub enum LogicalOperator {
    Or,
    And,
    Xor,
}

#[derive(Clone, Copy, Debug, PartialEq, Eq, Structural)]
pub enum EqualityOperator {
    Equals,
    NotEquals,
}

#[derive(Clone, Copy, Debug, PartialEq, Eq, Structural)]
pub enum ComparisionOperator {
    LessThanEquals,
    LessThan,
    GreaterThan,
    GreaterThanEquals,
}

#[derive(Clone, Copy, Debug, PartialEq, Eq, Structural)]
pub enum BinaryOperator {
    BitLeft,
    BitRight,
    Multiplication,
    Division,
    Addition,
    Substraction,
    Modulo,
}

#[derive(Clone, Copy, Debug, PartialEq, Eq, Structural)]
pub enum PostOperator {
    Increment,
    Decrement,
}

/// The abstract value of an [`Expression`]: names and texts as sequences of
/// characters, lists as sequences.
pub struct SExpression {
    pub kind: SExpressionKind,
    pub span: Span,
}

pub enum SExpressionKind {
    Literal(SLiteral),
    Access(SAccess),
    Reference(Box<SExpression>, Box<SExpression>),
    Call(Box<SExpression>, Seq<SExpression>),
    New(SReturnType, SNewExpr),
    Array(Seq<SExpression>),
    Unary(UnaryOperator, Box<SExpression>),
    Assignment(Box<SExpression>, AssignmentOperator, Box<SExpression>),
    Conditional(Box<SExpression>, ConditionalOperator, Box<SExpression>),
    Logical(Box<SExpression>, LogicalOperator, Box<SExpression>),
    Equality(Box<SExpression>, EqualityOperator, Box<SExpression>),
    Comparision(Box<SExpression>, ComparisionOperator, Box<SExpression>),
    Binary(Box<SExpression>, BinaryOperator, Box<SExpression>),
    PostOp(Box<SExpression>, PostOperator),
    Index(Box<SExpression>, Seq<SExpression>),
    Tuple(Seq<SExpression>),
    Match(Box<SExpression>, Seq<SMatchArm>),
    ShortCircuit(Box<SExpression>),
    If(Box<SIfArm>, Seq<SIfArm>, Option<SBlock>),
    Closure(Seq<SClosureParam>, SBlock),
    Path(Box<SExpression>, Box<SExpression>),
}

pub enum SAccess {
    Identifier(Seq<char>),
    SelfAccess,
}

pub enum SLiteral {
    Bool(bool),
    Null,
    String(Seq<char>),
    Integer(u128),
    Floating(Seq<char>),
    Char(char),
}

pub enum SNewExpr {
    Field(Seq<SFieldInit>),
    Tuple(Seq<SExpression>),
    Zero,
}

pub struct SFieldInit {
    pub identifier: Seq<char>,
    pub expression: SExpression,
}

pub struct SMatchArm {
    pub expression: Option<SExpression>,
    pub if_clause: Option<SExpression>,
    pub block: SBlock,
}

pub struct SIfArm {
    pub clause: SExpression,
    pub block: SBlock,
}

pub struct SClosureParam {
    pub identifier: Seq<char>,
    pub return_type: Option<SReturnType>,
    pub span: Span,
}

pub open spec fn access_view(a: AccessExpression) -> SAccess {
    match a {
        AccessExpression::Identifier(s) => SAccess::Identifier(s@),
        AccessExpression::SelfAccess => SAccess::SelfAccess,
    }
}

pub open spec fn literal_view(l: LiteralExpression) -> SLiteral {
    match l {
        LiteralExpression::Bool(b) => SLiteral::Bool(b),
        LiteralExpression::Null => SLiteral::Null,
        LiteralExpression::String(s) => SLiteral::String(s@),
        LiteralExpression::Integer(i) => SLiteral::Integer(i),
        LiteralExpression::Floating(s) => SLiteral::Floating(s@),
        LiteralExpression::Char(c) => SLiteral::Char(c),
    }
}

pub open spec fn expr_view(e: Expression) -> SExpression
    decreases e,
{
    SExpression { kind: expr_kind_view(e.kind), span: e.span }
}

pub open spec fn opt_expr_view(e: Option<Expression>) -> Option<SExpression>
    decreases e,
{
    match e {
        Some(x) => Some(expr_view(x)),
        None => None,
    }
}

pub open spec fn expr_kind_view(k: ExpressionKind) -> SExpressionKind
    decreases k,
{
    match k {
        ExpressionKind::Literal(l) => SExpressionKind::Literal(literal_view(l)),
        ExpressionKind::Access(a) => SExpressionKind::Access(access_view(a)),
        ExpressionKind::Reference(l, r) => SExpressionKind::Reference(
            Box::new(expr_view(*l)),
            Box::new(expr_view(*r)),
        ),
        ExpressionKind::Call(l, args) => SExpressionKind::Call(
            Box::new(expr_view(*l)),
            exprs_view(args@),
        ),
        ExpressionKind::New(rt, n) => SExpressionKind::New(
            crate::ast::return_type_view(rt),
            new_expr_view(n),
        ),
        ExpressionKind::Array(v) => SExpressionKind::Array(exprs_view(v@)),
        ExpressionKind::Unary(op, e) => SExpressionKind::Unary(op, Box::new(expr_view(*e))),
        ExpressionKind::Assignment(l, op, r) => SExpressionKind::Assignment(
            Box::new(expr_view(*l)),
            op,
            Box::new(expr_view(*r)),
        ),
        ExpressionKind::Conditional(l, op, r) => SExpressionKind::Conditional(
            Box::new(expr_view(*l)),
            op,
            Box::new(expr_view(*r)),
        ),
        ExpressionKind::Logical(l, op, r) => SExpressionKind::Logical(
            Box::new(expr_view(*l)),
            op,
            Box::new(expr_view(*r)),
        ),
        ExpressionKind::Equality(l, op, r) => SExpressionKind::Equality(
            Box::new(expr_view(*l)),
            op,
            Box::new(expr_view(*r)),
        ),
        ExpressionKind::Comparision(l, op, r) => SExpressionKind::Comparision(
            Box::new(expr_view(*l)),
            op,
            Box::new(expr_view(*r)),
        ),
        ExpressionKind::Binary(l, op, r) => SExpressionKind::Binary(
            Box::new(expr_view(*l)),
            op,
            Box::new(expr_view(*r)),
        ),
        ExpressionKind::PostOp(l, op) => SExpressionKind::PostOp(Box::new(expr_view(*l)), op),
        ExpressionKind::Index(l, args) => SExpressionKind::Index(
            Box::new(expr_view(*l)),
            exprs_view(args@),
        ),
        ExpressionKind::Tuple(v) => SExpressionKind::Tuple(exprs_view(v@)),
        ExpressionKind::Match(m, arms) => SExpressionKind::Match(
            Box::new(expr_view(*m)),
            match_arms_view(arms@),
        ),
        ExpressionKind::ShortCircuit(e) => SExpressionKind::ShortCircuit(Box::new(expr_view(*e))),
        ExpressionKind::If(first, arms, els) => SExpressionKind::If(
            Box::new(if_arm_view(*first)),
            if_arms_view(arms@),
            match els {
                Some(b) => Some(block_view(b)),
                None => None,
            },
        ),
        ExpressionKind::Closure(params, b) => SExpressionKind::Closure(
            closure_params_view(params@),
            block_view(b),
        ),
        ExpressionKind::Path(l, r) => SExpressionKind::Path(
            Box::new(expr_view(*l)),
            Box::new(expr_view(*r)),
        ),
    }
}

pub open spec fn exprs_view(s: Seq<Expression>) -> Seq<SExpression>
    decreases s,
{
    if s.len() == 0 {
        Seq::empty()
    } else {
        exprs_view(s.subrange(0, s.len() - 1)).push(expr_view(s[s.len() - 1]))
    }
}

pub open spec fn new_expr_view(n: NewExprType) -> SNewExpr
    decreases n,
{
    match n {
        NewExprType::Field(v) => SNewExpr::Field(field_inits_view(v@)),
        NewExprType::Tuple(v) => SNewExpr::Tuple(exprs_view(v@)),
        NewExprType::Zero => SNewExpr::Zero,
    }
}

pub open spec fn field_init_view(f: FieldInitialization) -> SFieldInit
    decreases f,
{
    SFieldInit { identifier: f.identifier@, expression: expr_view(f.expression) }
}

pub open spec fn field_inits_view(s: Seq<FieldInitialization>) -> Seq<SFieldInit>
    decreases s,
{
    if s.len() == 0 {
        Seq::empty()
    } else {
        field_inits_view(s.subrange(0, s.len() - 1)).push(field_init_view(s[s.len() - 1]))
    }
}

pub open spec fn match_arm_view(m: MatchArm) -> SMatchArm
    decreases m,
{
    SMatchArm {
        expression: opt_expr_view(m.expression),
        if_clause: opt_expr_view(m.if_clause),
        block: block_view(m.block),
    }
}

pub open spec fn match_arms_view(s: Seq<MatchArm>) -> Seq<SMatchArm>
    decreases s,
{
    if s.len() == 0 {
        Seq::empty()
    } else {
        match_arms_view(s.subrange(0, s.len() - 1)).push(match_arm_view(s[s.len() - 1]))
    }
}

pub open spec fn if_arm_view(a: IfArm) -> SIfArm
    decreases a,
{
    SIfArm { clause: expr_view(a.clause), block: block_view(a.block) }
}

pub open spec fn if_arms_view(s: Seq<IfArm>) -> Seq<SIfArm>
    decreases s,
{
    if s.len() == 0 {
        Seq::empty()
    } else {
        if_arms_view(s.subrange(0, s.len() - 1)).push(if_arm_view(s[s.len() - 1]))
    }
}

pub open spec fn closure_param_view(c: ClosureParam) -> SClosureParam {
    SClosureParam {
        identifier: c.identifier@,
        return_type: crate::ast::opt_return_type_view(c.return_type),
        span: c.span,
    }
}

pub open spec fn closure_params_view(s: Seq<ClosureParam>) -> Seq<SClosureParam>
    decreases s.len(),
{
    if s.len() == 0 {
        Seq::empty()
    } else {
        closure_params_view(s.subrange(0, s.len() - 1)).push(closure_param_view(s[s.len() - 1]))
    }
}

pub proof fn lemma_exprs_push(s: Seq<Expression>, x: Expression)
    ensures
        exprs_view(s.push(x)) == exprs_view(s).push(expr_view(x)),
{
    assert(s.push(x).subrange(0, s.len() as int) =~= s);
}

pub proof fn lemma_field_inits_push(s: Seq<FieldInitialization>, x: FieldInitialization)
    ensures
        field_inits_view(s.push(x)) == field_inits_view(s).push(field_init_view(x)),
{
    assert(s.push(x).subrange(0, s.len() as int) =~= s);
}

pub proof fn lemma_match_arms_push(s: Seq<MatchArm>, x: MatchArm)
    ensures
        match_arms_view(s.push(x)) == match_arms_view(s).push(match_arm_view(x)),
{
    assert(s.push(x).subrange(0, s.len() as int) =~= s);
}

pub proof fn lemma_if_arms_push(s: Seq<IfArm>, x: IfArm)
    ensures
        if_arms_view(s.push(x)) == if_arms_view(s).push(if_arm_view(x)),
{
    assert(s.push(x).subrange(0, s.len() as int) =~= s);
}

pub proof fn lemma_closure_params_push(s: Seq<ClosureParam>, x: ClosureParam)
    ensures
        closure_params_view(s.push(x)) == closure_params_view(s).push(closure_param_view(x)),
{
    assert(s.push(x).subrange(0, s.len() as int) =~= s);
}

/// The abstract value of an expression, for the kinds that hold lists or
/// other expressions.
pub proof fn lemma_expr_view_shape(e: Expression)
    ensures
        expr_view(e).span == e.span,
        e.kind matches ExpressionKind::Literal(l) ==> expr_view(e).kind == SExpressionKind::Literal(
            literal_view(l),
        ),
        e.kind matches ExpressionKind::Access(a) ==> expr_view(e).kind == SExpressionKind::Access(
            access_view(a),
        ),
        e.kind matches ExpressionKind::Unary(o, x) ==> expr_view(e).kind == SExpressionKind::Unary(
            o,
            Box::new(expr_view(*x)),
        ),
        e.kind matches ExpressionKind::Closure(ps, b) ==> expr_view(e).kind
            == SExpressionKind::Closure(closure_params_view(ps@), block_view(b)),
        e.kind matches ExpressionKind::Tuple(v) ==> expr_view(e).kind == SExpressionKind::Tuple(
            exprs_view(v@),
        ),
        e.kind matches ExpressionKind::Array(v) ==> expr_view(e).kind == SExpressionKind::Array(
            exprs_view(v@),
        ),
        e.kind matches ExpressionKind::Call(l, v) ==> expr_view(e).kind == SExpressionKind::Call(
            Box::new(expr_view(*l)),
            exprs_view(v@),
        ),
        e.kind matches ExpressionKind::Index(l, v) ==> expr_view(e).kind == SExpressionKind::Index(
            Box::new(expr_view(*l)),
            exprs_view(v@),
        ),
        e.kind matches ExpressionKind::Reference(l, r) ==> expr_view(e).kind
            == SExpressionKind::Reference(Box::new(expr_view(*l)), Box::new(expr_view(*r))),
        e.kind matches ExpressionKind::Path(l, r) ==> expr_view(e).kind == SExpressionKind::Path(
            Box::new(expr_view(*l)),
            Box::new(expr_view(*r)),
        ),
        e.kind matches ExpressionKind::PostOp(l, o) ==> expr_view(e).kind == SExpressionKind::PostOp(
            Box::new(expr_view(*l)),
            o,
        ),
        e.kind matches ExpressionKind::ShortCircuit(l) ==> expr_view(e).kind
            == SExpressionKind::ShortCircuit(Box::new(expr_view(*l))),
        e.kind matches ExpressionKind::New(rt, NewExprType::Field(v)) ==> expr_view(e).kind
            == SExpressionKind::New(
            crate::ast::return_type_view(rt),
            SNewExpr::Field(field_inits_view(v@)),
        ),
        e.kind matches ExpressionKind::New(rt, NewExprType::Tuple(v)) ==> expr_view(e).kind
            == SExpressionKind::New(crate::ast::return_type_view(rt), SNewExpr::Tuple(exprs_view(v@))),
        e.kind matches ExpressionKind::New(rt, NewExprType::Zero) ==> expr_view(e).kind
            == SExpressionKind::New(crate::ast::return_type_view(rt), SNewExpr::Zero),
        e.kind matches ExpressionKind::Match(m, arms) ==> expr_view(e).kind == SExpressionKind::Match(
            Box::new(expr_view(*m)),
            match_arms_view(arms@),
        ),
        e.kind matches ExpressionKind::If(first, arms, els) ==> expr_view(e).kind
            == SExpressionKind::If(
            Box::new(if_arm_view(*first)),
            if_arms_view(arms@),
            match els {
                Some(b) => Some(block_view(b)),
                None => None,
            },
        ),
{
    if let ExpressionKind::New(rt, n) = e.kind {
        assert(expr_kind_view(e.kind) == SExpressionKind::New(
            crate::ast::return_type_view(rt),
            new_expr_view(n),
        ));
    }
}

/// The abstract value of an expression with a binary operator.
pub proof fn lemma_expr_view_binary(e: Expression)
    ensures
        expr_view(e).span == e.span,
        e.kind matches ExpressionKind::Assignment(l, o, r) ==> expr_view(e).kind
            == SExpressionKind::Assignment(Box::new(expr_view(*l)), o, Box::new(expr_view(*r))),
        e.kind matches ExpressionKind::Conditional(l, o, r) ==> expr_view(e).kind
            == SExpressionKind::Conditional(Box::new(expr_view(*l)), o, Box::new(expr_view(*r))),
        e.kind matches ExpressionKind::Logical(l, o, r) ==> expr_view(e).kind
            == SExpressionKind::Logical(Box::new(expr_view(*l)), o, Box::new(expr_view(*r))),
        e.kind matches ExpressionKind::Equality(l, o, r) ==> expr_view(e).kind
            == SExpressionKind::Equality(Box::new(expr_view(*l)), o, Box::new(expr_view(*r))),
        e.kind matches ExpressionKind::Comparision(l, o, r) ==> expr_view(e).kind
            == SExpressionKind::Comparision(Box::new(expr_view(*l)), o, Box::new(expr_view(*r))),
        e.kind matches ExpressionKind::Binary(l, o, r) ==> expr_view(e).kind
            == SExpressionKind::Binary(Box::new(expr_view(*l)), o, Box::new(expr_view(*r))),
{
}

/// The abstract value of an optional expression (without recursion of
/// its own).
pub open spec fn maybe_expr_view(e: Option<Expression>) -> Option<SExpression> {
    match e {
        Some(x) => Some(expr_view(x)),
        None => None,
    }
}

/// The abstract value of a `match` arm.
pub proof fn lemma_match_arm_view(m: MatchArm)
    ensures
        match_arm_view(m) == (SMatchArm {
            expression: maybe_expr_view(m.expression),
            if_clause: maybe_expr_view(m.if_clause),
            block: block_view(m.block),
        }),
{
    assert(opt_expr_view(m.expression) == maybe_expr_view(m.expression));
    assert(opt_expr_view(m.if_clause) == maybe_expr_view(m.if_clause));
}

/// The abstract value of a field of a `new` expression.
pub proof fn lemma_field_init_view(f: FieldInitialization)
    ensures
        field_init_view(f) == (SFieldInit { identifier: f.identifier@, expression: expr_view(f.expression) }),
{
}

/// The abstract value of an `if` arm.
pub proof fn lemma_if_arm_view(a: IfArm)
    ensures
        if_arm_view(a) == (SIfArm { clause: expr_view(a.clause), block: block_view(a.block) }),
{
}

/// The abstract value of a list of `if` arms has its length, and ends
/// with the value of its last arm.
pub proof fn lemma_if_arms_last(s: Seq<IfArm>)
    ensures
        if_arms_view(s).len() == s.len(),
        s.len() > 0 ==> if_arms_view(s).last() == if_arm_view(s.last()),
    decreases s.len(),
{
    if s.len() > 0 {
        lemma_if_arms_last(s.subrange(0, s.len() - 1));
    }
}

/// The abstract values of empty lists.
pub proof fn lemma_empty_views()
    ensures
        exprs_view(Seq::<Expression>::empty()) == Seq::<SExpression>::empty(),
        field_inits_view(Seq::<FieldInitialization>::empty()) == Seq::<SFieldInit>::empty(),
        match_arms_view(Seq::<MatchArm>::empty()) == Seq::<SMatchArm>::empty(),
        if_arms_view(Seq::<IfArm>::empty()) == Seq::<SIfArm>::empty(),
        crate::ast::statement::statements_view(Seq::<crate::ast::statement::Statement>::empty())
            == Seq::<crate::ast::statement::SStatement>::empty(),
{
}

} // verus!
