//! Declarations (items) and type names.
use vstd::prelude::*;

use crate::ast::{
    ConfigItem, ConfigMember, EnumItem, EnumMember, FeatureItem, FieldItem, FuncItem, FuncParam,
    GenericConstrait, GenericParam, Generics, ImportItem, Item, ItemKind, ReturnType,
    ReturnTypeKind, SConfigMember, SEnumMember, SFeatureItem, SFuncItem, SFuncParam,
    SGenericConstrait, SGenericParam, SGenerics, SItem, SItemKind, SPath, SReturnType,
    SReturnTypeKind, SStructItem, SWhereClause, SigItem, StructItem, VisibilityModifiers,
    WhereClause, block_view, config_member_view, config_members_view, enum_member_view,
    enum_members_view, func_param_view, func_params_view, generic_constrait_view,
    generic_constraits_view, generic_param_view, generic_params_view, item_view, items_view,
    lemma_return_types_push, opt_generics_view, opt_where_view, path_view, paths_view,
    return_type_view, return_types_view, lemma_enum_member_view, lemma_item_view_shape,
    lemma_items_empty, lemma_items_push, lemma_return_types_last, maybe_return_type_view, Path,
    opt_path_view, opt_name_view,
};
use crate::ast::statement::Statement;
use crate::ast::expression::{expr_view, maybe_expr_view};
use crate::ast::statement::statement_view;
use crate::parser::expression::{expression, p_expression};
use crate::parser::statement::{block, p_block, p_statement, statement};
use crate::parser::{
    keeps_errors,
    Accept, PState, ParseErrored, Parser, measure, merge, p_advance, p_identifier, p_is_next,
    p_next, p_next_if_kind, p_path, p_peek, steps_to,
};
use crate::tokens::{Span, Spanned, TokenKind};
use crate::ast::SBlock;

verus! {

/// The abstract value of an optional list of type names.
pub open spec fn opt_return_types_view(r: Option<Vec<ReturnType>>) -> Option<Seq<SReturnType>> {
    match r {
        Some(v) => Some(return_types_view(v@)),
        None => None,
    }
}

/// A type name: a path or a parenthesised list of type names, followed by
/// any number of `[]` (array), `[T, ..]` (generic arguments) and `?`
/// (nullable).
#[verifier::opaque]
pub open spec fn p_return_type(p: PState) -> (PState, Option<SReturnType>)
    decreases measure(p), 1nat,
{
    let (q, pl) = p_next_if_kind(p, TokenKind::ParanthesisLeft);
    let (q2, base) = match pl {
        Some(l) => if measure(q) < measure(p) {
            let (q1, ts) = p_return_types(q, TokenKind::ParanthesisRight, Seq::empty());
            match ts {
                None => (q1, None),
                Some(v) => {
                    let (q2, pr) = p_advance(q1, Accept::Kind(TokenKind::ParanthesisRight));
                    match pr {
                        None => (q2, None),
                        Some(r) => (
                            q2,
                            Some(
                                SReturnType {
                                    kind: SReturnTypeKind::Tuple(v),
                                    span: merge(l.span, r.span),
                                },
                            ),
                        ),
                    }
                },
            }
        } else {
            (q, None)
        },
        None => {
            let (q1, path) = p_path(q);
            match path {
                None => (q1, None),
                Some(x) => (q1, Some(SReturnType { kind: SReturnTypeKind::Path(x), span: x.span })),
            }
        },
    };
    match base {
        None => (q2, None),
        Some(b) => if measure(q2) < measure(p) {
            p_return_type_tail(q2, b)
        } else {
            (q2, None)
        },
    }
}

/// The suffixes `[]`, `[T, ..]` and `?` that follow a type name.
#[verifier::opaque]
pub open spec fn p_return_type_tail(p: PState, rt: SReturnType) -> (PState, Option<SReturnType>)
    decreases measure(p), 0nat,
{
    let (q, t) = p_peek(p);
    match t {
        Some(tok) => if tok.kind == TokenKind::SquareBracketLeft {
            let q1 = p_next(q).0;
            let (q2, empty) = p_is_next(q1, TokenKind::SquareBracketRight);
            let (q3, kind) = if empty {
                (q2, Some(SReturnTypeKind::Array(Box::new(rt))))
            } else if measure(q2) < measure(p) {
                let (q3, ts) = p_return_types(q2, TokenKind::SquareBracketRight, Seq::empty());
                match ts {
                    None => (q3, None),
                    Some(v) => (q3, Some(SReturnTypeKind::Generic(Box::new(rt), v))),
                }
            } else {
                (q2, None)
            };
            match kind {
                None => (q3, None),
                Some(k) => {
                    let (q4, sbr) = p_advance(q3, Accept::Kind(TokenKind::SquareBracketRight));
                    match sbr {
                        None => (q4, None),
                        Some(r) => if measure(q4) < measure(p) {
                            p_return_type_tail(q4, SReturnType { kind: k, span: merge(rt.span, r.span) })
                        } else {
                            (q4, None)
                        },
                    }
                },
            }
        } else if tok.kind == TokenKind::QuestionMark {
            let q1 = p_next(q).0;
            if measure(q1) < measure(p) {
                p_return_type_tail(
                    q1,
                    SReturnType {
                        kind: SReturnTypeKind::Nullable(Box::new(rt)),
                        span: merge(rt.span, tok.span),
                    },
                )
            } else {
                (q1, None)
            }
        } else {
            (q, Some(rt))
        },
        None => (q, Some(rt)),
    }
}

/// Type names separated by commas, up to (not including) a token of kind
/// `end`; a comma may follow the last one.
#[verifier::opaque]
pub open spec fn p_return_types(p: PState, end: TokenKind, acc: Seq<SReturnType>) -> (
    PState,
    Option<Seq<SReturnType>>,
)
    decreases measure(p), 2nat,
{
    let (q, done) = p_is_next(p, end);
    if done {
        (q, Some(acc))
    } else if measure(q) <= measure(p) {
        let (q1, x) = p_return_type(q);
        match x {
            None => (q1, None),
            Some(t) => {
                let (q2, done2) = p_is_next(q1, end);
                if done2 {
                    (q2, Some(acc.push(t)))
                } else {
                    let (q3, c) = p_advance(q2, Accept::Kind(TokenKind::Comma));
                    match c {
                        None => (q3, None),
                        Some(_) => if measure(q3) < measure(p) {
                            p_return_types(q3, end, acc.push(t))
                        } else {
                            (q3, None)
                        },
                    }
                }
            },
        }
    } else {
        (q, None)
    }
}

/// Parses a type name.
pub fn return_type<'t>(parser: &mut Parser<'t>) -> (r: Option<ReturnType<'t>>)
    requires
        old(parser).wf(),
    ensures
        steps_to(*old(parser), *final(parser), p_return_type(old(parser)@).0),
        r matches Some(x) ==> p_return_type(old(parser)@).1 == Some(return_type_view(x)),
        r is None ==> p_return_type(old(parser)@).1 is None,
        r is Some ==> measure(final(parser)@) < measure(old(parser)@),
    decreases measure(old(parser)@), 1nat,
{
    proof {
        reveal_with_fuel(p_return_type, 1);
        reveal_with_fuel(p_return_type_tail, 1);
        reveal_with_fuel(p_return_types, 1);
    }
    let ghost p0 = parser@;
    let base = match parser.next_if_kind(TokenKind::ParanthesisLeft) {
        Some(pl) => {
            let types = match return_types(parser, TokenKind::ParanthesisRight) {
                Some(v) => v,
                None => return None,
            };
            let pr = match parser.advance_until_kind(TokenKind::ParanthesisRight) {
                Some(t) => t,
                None => return None,
            };
            ReturnType { kind: ReturnTypeKind::Tuple(types), span: Span { start: pl.span.start, end: pr.span.end } }
        },
        None => {
            let path = match parser.advance_until_path() {
                Some(x) => x,
                None => return None,
            };
            let span = path.span;
            ReturnType { kind: ReturnTypeKind::Path(path), span }
        },
    };
    let ghost q = parser@;
    proof {
        assert(p_return_type(p0) == p_return_type_tail(q, return_type_view(base)));
    }
    return_type_tail(parser, base)
}

/// Parses the suffixes of the type name `rt`.
fn return_type_tail<'t>(parser: &mut Parser<'t>, old_rt: ReturnType<'t>) -> (r: Option<ReturnType<'t>>)
    requires
        old(parser).wf(),
    ensures
        steps_to(*old(parser), *final(parser), p_return_type_tail(old(parser)@, return_type_view(old_rt)).0),
        r matches Some(x) ==> p_return_type_tail(old(parser)@, return_type_view(old_rt)).1 == Some(
            return_type_view(x),
        ),
        r is None ==> p_return_type_tail(old(parser)@, return_type_view(old_rt)).1 is None,
    decreases measure(old(parser)@), 0nat,
{
    let ghost p0 = parser@;
    let ghost v0 = return_type_view(old_rt);
    let mut rt = old_rt;
    loop
        invariant
            parser.wf(),
            parser.input() == old(parser).input(),
            keeps_errors(old(parser)@, parser@),
            measure(parser@) <= measure(p0),
            parser@.st.text == p0.st.text,
            p0 == old(parser)@,
            p_return_type_tail(parser@, return_type_view(rt)) == p_return_type_tail(p0, v0),
            v0 == return_type_view(old_rt),

        decreases measure(parser@),
    {
        proof {
            reveal_with_fuel(p_return_type_tail, 1);
            reveal_with_fuel(p_return_types, 1);
        }
        let ghost p = parser@;
        let t = match parser.peek() {
            Some(t) => t,
            None => return Some(rt),
        };
        if t.kind == TokenKind::SquareBracketLeft {
            parser.next();
            let start = rt.span;
            let kind = if parser.is_next(TokenKind::SquareBracketRight) {
                ReturnTypeKind::Array(Box::new(rt))
            } else {
                match return_types(parser, TokenKind::SquareBracketRight) {
                    Some(v) => ReturnTypeKind::Generic(Box::new(rt), v),
                    None => return None,
                }
            };
            let sbr = match parser.advance_until_kind(TokenKind::SquareBracketRight) {
                Some(t) => t,
                None => return None,
            };
            rt = ReturnType { kind, span: Span { start: start.start, end: sbr.span.end } };
        } else if t.kind == TokenKind::QuestionMark {
            parser.next();
            let span = Span { start: rt.span.start, end: t.span.end };
            rt = ReturnType { kind: ReturnTypeKind::Nullable(Box::new(rt)), span };
        } else {
            return Some(rt);
        }
    }
}

/// Parses type names separated by commas up to a token of kind `end`.
fn return_types<'t>(parser: &mut Parser<'t>, end: TokenKind) -> (r: Option<Vec<ReturnType<'t>>>)
    requires
        old(parser).wf(),
    ensures
        steps_to(*old(parser), *final(parser), p_return_types(old(parser)@, end, Seq::empty()).0),
        opt_return_types_view(r) == p_return_types(old(parser)@, end, Seq::empty()).1,
    decreases measure(old(parser)@), 2nat,
{
    let ghost p0 = parser@;
    let mut v: Vec<ReturnType<'t>> = Vec::new();
    proof {
        assert(return_types_view(v@) =~= Seq::<SReturnType>::empty());
    }
    loop
        invariant
            parser.wf(),
            parser.input() == old(parser).input(),
            keeps_errors(old(parser)@, parser@),
            measure(parser@) <= measure(p0),
            parser@.st.text == p0.st.text,
            p0 == old(parser)@,
            p_return_types(parser@, end, return_types_view(v@)) == p_return_types(
                p0,
                end,
                Seq::empty(),
            ),
        decreases measure(parser@),
    {
        proof {
            reveal_with_fuel(p_return_types, 1);
            reveal_with_fuel(p_return_type, 1);
        }
        let ghost p = parser@;
        if parser.is_next(end) {
            return Some(v);
        }
        let t = match return_type(parser) {
            Some(t) => t,
            None => return None,
        };
        proof {
            lemma_return_types_push(v@, t);
        }
        v.push(t);
        if parser.is_next(end) {
            return Some(v);
        }
        if parser.advance_until_kind(TokenKind::Comma).is_none() {
            return None;
        }
    }
}

// ---------------------------------------------------------------------------
// Generic parameters and `where` clauses.

/// Type names joined by `+`.
#[verifier::opaque]
pub open spec fn p_bounds(p: PState, acc: Seq<SReturnType>) -> (PState, Option<Seq<SReturnType>>)
    decreases measure(p),
{
    let (q, rt) = p_return_type(p);
    match rt {
        None => (q, None),
        Some(r) => {
            let (q1, plus) = p_is_next(q, TokenKind::Plus);
            if !plus {
                (q1, Some(acc.push(r)))
            } else {
                let (q2, t) = p_advance(q1, Accept::Kind(TokenKind::Plus));
                match t {
                    None => (q2, None),
                    Some(_) => if measure(q2) < measure(p) {
                        p_bounds(q2, acc.push(r))
                    } else {
                        (q2, None)
                    },
                }
            }
        },
    }
}

/// A generic parameter: a name and an optional `: bounds`.
#[verifier::opaque]
pub open spec fn p_generic_param(p: PState) -> (PState, Option<SGenericParam>) {
    let (q, id) = p_identifier(p);
    match id {
        None => (q, None),
        Some((name, span)) => {
            let (q1, colon) = p_next_if_kind(q, TokenKind::Colon);
            match colon {
                None => (q1, Some(SGenericParam { identifier: name, constraits: None, span })),
                Some(_) => {
                    let (q2, bs) = p_bounds(q1, Seq::empty());
                    match bs {
                        None => (q2, None),
                        Some(v) => (
                            q2,
                            Some(
                                SGenericParam {
                                    identifier: name,
                                    constraits: Some(v),
                                    span: merge(span, v.last().span),
                                },
                            ),
                        ),
                    }
                },
            }
        },
    }
}

/// Generic parameters separated by commas, up to `end`.
#[verifier::opaque]
pub open spec fn p_generic_params(p: PState, end: TokenKind, acc: Seq<SGenericParam>) -> (
    PState,
    Option<Seq<SGenericParam>>,
)
    decreases measure(p),
{
    let (q, done) = p_is_next(p, end);
    if done {
        (q, Some(acc))
    } else {
        let (q1, x) = p_generic_param(q);
        match x {
            None => (q1, None),
            Some(e) => {
                let (q2, done2) = p_is_next(q1, end);
                if done2 {
                    (q2, Some(acc.push(e)))
                } else {
                    let (q3, c) = p_advance(q2, Accept::Kind(TokenKind::Comma));
                    match c {
                        None => (q3, None),
                        Some(_) => if measure(q3) < measure(p) {
                            p_generic_params(q3, end, acc.push(e))
                        } else {
                            (q3, None)
                        },
                    }
                }
            },
        }
    }
}

/// Optional generic parameters `[..]`; an error once `[` was seen and the
/// rest failed.
#[verifier::opaque]
pub open spec fn p_generics(p: PState) -> (PState, Result<Option<SGenerics>, ParseErrored>) {
    let (q, sbl) = p_next_if_kind(p, TokenKind::SquareBracketLeft);
    match sbl {
        None => (q, Ok(None)),
        Some(l) => {
            let (q1, ps) = p_generic_params(q, TokenKind::SquareBracketRight, Seq::empty());
            match ps {
                None => (q1, Err(ParseErrored)),
                Some(v) => {
                    let (q2, sbr) = p_advance(q1, Accept::Kind(TokenKind::SquareBracketRight));
                    match sbr {
                        None => (q2, Err(ParseErrored)),
                        Some(r) => (q2, Ok(Some(SGenerics { params: v, span: merge(l.span, r.span) }))),
                    }
                },
            }
        },
    }
}

/// A constraint of a `where` clause: a name, `:` and bounds.
#[verifier::opaque]
pub open spec fn p_generic_constrait(p: PState) -> (PState, Option<SGenericConstrait>) {
    let (q, id) = p_identifier(p);
    match id {
        None => (q, None),
        Some((name, span)) => {
            let (q1, colon) = p_advance(q, Accept::Kind(TokenKind::Colon));
            match colon {
                None => (q1, None),
                Some(_) => {
                    let (q2, bs) = p_bounds(q1, Seq::empty());
                    match bs {
                        None => (q2, None),
                        Some(v) => (
                            q2,
                            Some(
                                SGenericConstrait {
                                    identifier: name,
                                    constraits: v,
                                    span: merge(span, v.last().span),
                                },
                            ),
                        ),
                    }
                },
            }
        },
    }
}

/// The constraints of a `where` clause, each followed by an optional comma,
/// while the next token is a name.
#[verifier::opaque]
pub open spec fn p_where_constraits(p: PState, acc: Seq<SGenericConstrait>, last: Span) -> (
    PState,
    Option<(Seq<SGenericConstrait>, Span)>,
)
    decreases measure(p),
{
    let (q, more) = p_is_next(p, TokenKind::Identifier);
    if !more {
        (q, Some((acc, last)))
    } else {
        let (q1, g) = p_generic_constrait(q);
        match g {
            None => (q1, None),
            Some(c) => {
                let (q2, comma) = p_next_if_kind(q1, TokenKind::Comma);
                let last2 = match comma {
                    Some(t) => t.span,
                    None => c.span,
                };
                if measure(q2) < measure(p) {
                    p_where_constraits(q2, acc.push(c), last2)
                } else {
                    (q2, None)
                }
            },
        }
    }
}

/// An optional `where` clause; an error once `where` was seen and a
/// constraint failed.
#[verifier::opaque]
pub open spec fn p_where_clause(p: PState) -> (PState, Result<Option<SWhereClause>, ParseErrored>) {
    let (q, w) = p_next_if_kind(p, TokenKind::WhereKeyword);
    match w {
        None => (q, Ok(None)),
        Some(t) => {
            let (q1, cs) = p_where_constraits(q, Seq::empty(), t.span);
            match cs {
                None => (q1, Err(ParseErrored)),
                Some((v, last)) => (
                    q1,
                    Ok(Some(SWhereClause { constraits: v, span: merge(t.span, last) })),
                ),
            }
        },
    }
}

// ---------------------------------------------------------------------------
// Items.

/// An item, chosen by its first token; a statement when no declaration
/// keyword starts it. `None` at the end of the text.
#[verifier::opaque]
pub open spec fn p_item(p: PState) -> (PState, Option<SItem>)
    decreases measure(p), 2nat,
{
    let (q, t) = p_peek(p);
    match t {
        None => (q, None),
        Some(tok) => if measure(q) <= measure(p) {
            match tok.kind {
                TokenKind::EnumKeyword => p_enum_item(q),
                TokenKind::StructKeyword => p_struct_item(q),
                TokenKind::LocalKeyword => p_field_item(q),
                TokenKind::ConfigKeyword => p_config_item(q),
                TokenKind::FuncKeyword => p_func_item(q),
                TokenKind::SigKeyword => p_sig_item(q),
                TokenKind::ImportKeyword => p_import_item(q),
                TokenKind::FeatureKeyword => p_feature_item(q),
                TokenKind::PubKeyword => p_modifier_item(q),
                TokenKind::Tag => p_attribute_item(q),
                _ => p_statement_item(q),
            }
        } else {
            (q, None)
        },
    }
}

/// Items up to (not including) a `}`.
#[verifier::opaque]
pub open spec fn p_item_list(p: PState, acc: Seq<SItem>) -> (PState, Option<Seq<SItem>>)
    decreases measure(p), 3nat,
{
    let (q, done) = p_is_next(p, TokenKind::CurlyBracketRight);
    if done {
        (q, Some(acc))
    } else if measure(q) <= measure(p) {
        let (q1, i) = p_item(q);
        match i {
            None => (q1, None),
            Some(x) => if measure(q1) < measure(p) {
                p_item_list(q1, acc.push(x))
            } else {
                (q1, None)
            },
        }
    } else {
        (q, None)
    }
}

/// `pub` and the item it makes visible.
#[verifier::opaque]
pub open spec fn p_modifier_item(p: PState) -> (PState, Option<SItem>)
    decreases measure(p), 1nat,
{
    let (q, kw) = p_advance(p, Accept::Kind(TokenKind::PubKeyword));
    match kw {
        None => (q, None),
        Some(k) => if measure(q) < measure(p) {
            let (q1, i) = p_item(q);
            match i {
                None => (q1, None),
                Some(x) => (
                    q1,
                    Some(
                        SItem {
                            kind: SItemKind::Visible(VisibilityModifiers::Public, Box::new(x)),
                            span: merge(k.span, x.span),
                        },
                    ),
                ),
            }
        } else {
            (q, None)
        },
    }
}

/// The attributes after the first `#`: more `#`s, commas, and paths on the
/// line of the last `#`, until a token on another line.
#[verifier::opaque]
pub open spec fn p_attributes(p: PState, line: usize, acc: Seq<SPath>) -> (PState, Option<Seq<SPath>>)
    decreases measure(p),
{
    let (q, t) = p_peek(p);
    match t {
        None => (q, None),
        Some(tok) => if tok.kind == TokenKind::Tag || tok.kind == TokenKind::Comma {
            let q1 = p_next(q).0;
            let line1 = if tok.kind == TokenKind::Tag {
                tok.line
            } else {
                line
            };
            if measure(q1) < measure(p) {
                p_attributes(q1, line1, acc)
            } else {
                (q1, None)
            }
        } else if tok.line == line {
            let (q1, path) = p_path(q);
            match path {
                None => (q1, None),
                Some(x) => if measure(q1) < measure(p) {
                    p_attributes(q1, line, acc.push(x))
                } else {
                    (q1, None)
                },
            }
        } else {
            (q, Some(acc))
        },
    }
}

/// `#` attributes and the item they apply to.
#[verifier::opaque]
pub open spec fn p_attribute_item(p: PState) -> (PState, Option<SItem>)
    decreases measure(p), 1nat,
{
    let (q, first) = p_advance(p, Accept::Kind(TokenKind::Tag));
    match first {
        None => (q, None),
        Some(f) => {
            let (q1, attrs) = p_attributes(q, f.line, Seq::empty());
            match attrs {
                None => (q1, None),
                Some(a) => if measure(q1) < measure(p) {
                    let (q2, i) = p_item(q1);
                    match i {
                        None => (q2, None),
                        Some(x) => (
                            q2,
                            Some(
                                SItem {
                                    kind: SItemKind::AttributeCollectedItem(a, Box::new(x)),
                                    span: merge(f.span, x.span),
                                },
                            ),
                        ),
                    }
                } else {
                    (q1, None)
                },
            }
        },
    }
}

/// An enumeration member: a name and an optional `= value`.
#[verifier::opaque]
pub open spec fn p_enum_member(p: PState) -> (PState, Option<SEnumMember>) {
    let (q, id) = p_identifier(p);
    match id {
        None => (q, None),
        Some((name, _)) => {
            let (q1, eq) = p_next_if_kind(q, TokenKind::Equals);
            match eq {
                None => (q1, Some(SEnumMember { identifier: name, default_value: None })),
                Some(_) => {
                    let (q2, e) = p_expression(q1);
                    match e {
                        None => (q2, None),
                        Some(x) => (q2, Some(SEnumMember { identifier: name, default_value: Some(x) })),
                    }
                },
            }
        },
    }
}

/// Enumeration members separated by commas, up to `end`.
#[verifier::opaque]
pub open spec fn p_enum_members(p: PState, end: TokenKind, acc: Seq<SEnumMember>) -> (
    PState,
    Option<Seq<SEnumMember>>,
)
    decreases measure(p),
{
    let (q, done) = p_is_next(p, end);
    if done {
        (q, Some(acc))
    } else {
        let (q1, x) = p_enum_member(q);
        match x {
            None => (q1, None),
            Some(e) => {
                let (q2, done2) = p_is_next(q1, end);
                if done2 {
                    (q2, Some(acc.push(e)))
                } else {
                    let (q3, c) = p_advance(q2, Accept::Kind(TokenKind::Comma));
                    match c {
                        None => (q3, None),
                        Some(_) => if measure(q3) < measure(p) {
                            p_enum_members(q3, end, acc.push(e))
                        } else {
                            (q3, None)
                        },
                    }
                }
            },
        }
    }
}

/// `enum`, an optional `flags`, a name, an optional `: type`, and members
/// in braces.
#[verifier::opaque]
pub open spec fn p_enum_item(p: PState) -> (PState, Option<SItem>) {
    let (q, kw) = p_advance(p, Accept::Kind(TokenKind::EnumKeyword));
    match kw {
        None => (q, None),
        Some(k) => {
            let (q1, flags) = p_next_if_kind(q, TokenKind::FlagsKeyword);
            let (q2, id) = p_identifier(q1);
            match id {
                None => (q2, None),
                Some((name, _)) => {
                    let (q3, colon) = p_next_if_kind(q2, TokenKind::Colon);
                    let (q4, derived, ok) = match colon {
                        Some(_) => {
                            let (q4, rt) = p_return_type(q3);
                            (q4, rt, rt is Some)
                        },
                        None => (q3, None, true),
                    };
                    if !ok {
                        (q4, None)
                    } else {
                        let (q5, cbl) = p_advance(q4, Accept::Kind(TokenKind::CurlyBracketLeft));
                        match cbl {
                            None => (q5, None),
                            Some(_) => {
                                let (q6, ms) = p_enum_members(
                                    q5,
                                    TokenKind::CurlyBracketRight,
                                    Seq::empty(),
                                );
                                match ms {
                                    None => (q6, None),
                                    Some(v) => {
                                        let (q7, cbr) = p_advance(
                                            q6,
                                            Accept::Kind(TokenKind::CurlyBracketRight),
                                        );
                                        match cbr {
                                            None => (q7, None),
                                            Some(c) => (
                                                q7,
                                                Some(
                                                    SItem {
                                                        kind: SItemKind::Enum(
                                                            name,
                                                            v,
                                                            flags is Some,
                                                            derived,
                                                        ),
                                                        span: merge(k.span, c.span),
                                                    },
                                                ),
                                            ),
                                        }
                                    },
                                }
                            },
                        }
                    }
                },
            }
        },
    }
}

/// The part of a `struct` before its body: name, generics, `where`
/// clause and tuple members.
#[verifier::opaque]
pub open spec fn p_struct_head(p: PState) -> (
    PState,
    Option<(Seq<char>, Option<SGenerics>, Option<SWhereClause>, Seq<SReturnType>)>,
) {
    let (q, id) = p_identifier(p);
    match id {
        None => (q, None),
        Some((name, _)) => {
            let (q1, g) = p_generics(q);
            match g {
                Err(_) => (q1, None),
                Ok(generics) => {
                    let (q2, w) = p_where_clause(q1);
                    match w {
                        Err(_) => (q2, None),
                        Ok(where_clause) => {
                            let (q3, pl) = p_next_if_kind(q2, TokenKind::ParanthesisLeft);
                            match pl {
                                None => (q3, Some((name, generics, where_clause, Seq::empty()))),
                                Some(_) => {
                                    let (q4, ts) = p_return_types(
                                        q3,
                                        TokenKind::ParanthesisRight,
                                        Seq::empty(),
                                    );
                                    match ts {
                                        None => (q4, None),
                                        Some(v) => {
                                            let (q5, pr) = p_advance(
                                                q4,
                                                Accept::Kind(TokenKind::ParanthesisRight),
                                            );
                                            match pr {
                                                None => (q5, None),
                                                Some(_) => (
                                                    q5,
                                                    Some((name, generics, where_clause, v)),
                                                ),
                                            }
                                        },
                                    }
                                },
                            }
                        },
                    }
                },
            }
        },
    }
}

/// `struct`, its head, and `;` or items in braces. Tokens before the `;`
/// or `{` are skipped with `InvalidStructToken` errors.
#[verifier::opaque]
pub open spec fn p_struct_item(p: PState) -> (PState, Option<SItem>)
    decreases measure(p), 1nat,
{
    let (q, kw) = p_advance(p, Accept::Kind(TokenKind::StructKeyword));
    match kw {
        None => (q, None),
        Some(k) => {
            let (q1, head) = p_struct_head(q);
            match head {
                None => (q1, None),
                Some((name, generics, where_clause, members)) => {
                    let (q2, t) = p_advance(q1, Accept::StructBody);
                    match t {
                        None => (q2, None),
                        Some(tok) => {
                            let (q3, body) = if tok.kind == TokenKind::CurlyBracketLeft {
                                if measure(q2) < measure(p) {
                                    let (q3, items) = p_item_list(q2, Seq::empty());
                                    match items {
                                        None => (q3, None),
                                        Some(v) => {
                                            let (q4, cbr) = p_advance(
                                                q3,
                                                Accept::Kind(TokenKind::CurlyBracketRight),
                                            );
                                            match cbr {
                                                None => (q4, None),
                                                Some(c) => (q4, Some((v, c.span))),
                                            }
                                        },
                                    }
                                } else {
                                    (q2, None)
                                }
                            } else {
                                (q2, Some((Seq::empty(), tok.span)))
                            };
                            match body {
                                None => (q3, None),
                                Some((items, end)) => (
                                    q3,
                                    Some(
                                        SItem {
                                            kind: SItemKind::Struct(
                                                SStructItem {
                                                    identifier: name,
                                                    tuple_members: members,
                                                    generics,
                                                    where_clause,
                                                    items,
                                                },
                                            ),
                                            span: merge(k.span, end),
                                        },
                                    ),
                                ),
                            }
                        },
                    }
                },
            }
        },
    }
}

/// `local`, a name, `:`, a type name and `;`.
#[verifier::opaque]
pub open spec fn p_field_item(p: PState) -> (PState, Option<SItem>) {
    let (q, kw) = p_advance(p, Accept::Kind(TokenKind::LocalKeyword));
    match kw {
        None => (q, None),
        Some(k) => {
            let (q1, id) = p_identifier(q);
            match id {
                None => (q1, None),
                Some((name, _)) => {
                    let (q2, colon) = p_advance(q1, Accept::Kind(TokenKind::Colon));
                    match colon {
                        None => (q2, None),
                        Some(_) => {
                            let (q3, rt) = p_return_type(q2);
                            match rt {
                                None => (q3, None),
                                Some(r) => {
                                    let (q4, semi) = p_advance(q3, Accept::Kind(TokenKind::Semicolon));
                                    match semi {
                                        None => (q4, None),
                                        Some(s) => (
                                            q4,
                                            Some(
                                                SItem {
                                                    kind: SItemKind::Field(name, r),
                                                    span: merge(k.span, s.span),
                                                },
                                            ),
                                        ),
                                    }
                                },
                            }
                        },
                    }
                },
            }
        },
    }
}

/// `feature`, a path, generics, an optional `for path`, a `where` clause,
/// and items in braces.
#[verifier::opaque]
pub open spec fn p_feature_item(p: PState) -> (PState, Option<SItem>)
    decreases measure(p), 1nat,
{
    let (q, kw) = p_advance(p, Accept::Kind(TokenKind::FeatureKeyword));
    match kw {
        None => (q, None),
        Some(k) => {
            let (q1, path) = p_path(q);
            match path {
                None => (q1, None),
                Some(ident) => {
                    let (q2, g) = p_generics(q1);
                    match g {
                        Err(_) => (q2, None),
                        Ok(generics) => {
                            let (q3, f) = p_next_if_kind(q2, TokenKind::ForKeyword);
                            let (q4, implementation, ok) = match f {
                                Some(_) => {
                                    let (q4, x) = p_path(q3);
                                    (q4, x, x is Some)
                                },
                                None => (q3, None, true),
                            };
                            if !ok {
                                (q4, None)
                            } else {
                                let (q5, w) = p_where_clause(q4);
                                match w {
                                    Err(_) => (q5, None),
                                    Ok(where_clause) => {
                                        let (q6, cbl) = p_advance(
                                            q5,
                                            Accept::Kind(TokenKind::CurlyBracketLeft),
                                        );
                                        match cbl {
                                            None => (q6, None),
                                            Some(_) => if measure(q6) < measure(p) {
                                                let (q7, items) = p_item_list(q6, Seq::empty());
                                                match items {
                                                    None => (q7, None),
                                                    Some(v) => {
                                                        let (q8, cbr) = p_advance(
                                                            q7,
                                                            Accept::Kind(TokenKind::CurlyBracketRight),
                                                        );
                                                        match cbr {
                                                            None => (q8, None),
                                                            Some(c) => (
                                                                q8,
                                                                Some(
                                                                    SItem {
                                                                        kind: SItemKind::Feature(
                                                                            SFeatureItem {
                                                                                feature_ident: ident,
                                                                                implementation,
                                                                                items: v,
                                                                                generics,
                                                                                where_clause,
                                                                            },
                                                                        ),
                                                                        span: merge(k.span, c.span),
                                                                    },
                                                                ),
                                                            ),
                                                        }
                                                    },
                                                }
                                            } else {
                                                (q6, None)
                                            },
                                        }
                                    },
                                }
                            }
                        },
                    }
                },
            }
        },
    }
}

/// `import`, a path, an optional `as name`, and `;`.
#[verifier::opaque]
pub open spec fn p_import_item(p: PState) -> (PState, Option<SItem>) {
    let (q, kw) = p_advance(p, Accept::Kind(TokenKind::ImportKeyword));
    match kw {
        None => (q, None),
        Some(k) => {
            let (q1, path) = p_path(q);
            match path {
                None => (q1, None),
                Some(x) => {
                    let (q2, a) = p_next_if_kind(q1, TokenKind::AsKeyword);
                    let (q3, alias, ok) = match a {
                        Some(_) => {
                            let (q3, id) = p_identifier(q2);
                            match id {
                                None => (q3, None, false),
                                Some((name, _)) => (q3, Some(name), true),
                            }
                        },
                        None => (q2, None, true),
                    };
                    if !ok {
                        (q3, None)
                    } else {
                        let (q4, semi) = p_advance(q3, Accept::Kind(TokenKind::Semicolon));
                        match semi {
                            None => (q4, None),
                            Some(s) => (
                                q4,
                                Some(
                                    SItem {
                                        kind: SItemKind::Import(x, alias),
                                        span: merge(k.span, s.span),
                                    },
                                ),
                            ),
                        }
                    }
                },
            }
        },
    }
}

/// A configuration entry: a name, `=` and an expression.
#[verifier::opaque]
pub open spec fn p_config_member(p: PState) -> (PState, Option<SConfigMember>) {
    let (q, id) = p_identifier(p);
    match id {
        None => (q, None),
        Some((name, _)) => {
            let (q1, eq) = p_advance(q, Accept::Kind(TokenKind::Equals));
            match eq {
                None => (q1, None),
                Some(_) => {
                    let (q2, e) = p_expression(q1);
                    match e {
                        None => (q2, None),
                        Some(x) => (q2, Some(SConfigMember { identifier: name, expression: x })),
                    }
                },
            }
        },
    }
}

/// Configuration entries separated by commas, up to `end`.
#[verifier::opaque]
pub open spec fn p_config_members(p: PState, end: TokenKind, acc: Seq<SConfigMember>) -> (
    PState,
    Option<Seq<SConfigMember>>,
)
    decreases measure(p),
{
    let (q, done) = p_is_next(p, end);
    if done {
        (q, Some(acc))
    } else {
        let (q1, x) = p_config_member(q);
        match x {
            None => (q1, None),
            Some(e) => {
                let (q2, done2) = p_is_next(q1, end);
                if done2 {
                    (q2, Some(acc.push(e)))
                } else {
                    let (q3, c) = p_advance(q2, Accept::Kind(TokenKind::Comma));
                    match c {
                        None => (q3, None),
                        Some(_) => if measure(q3) < measure(p) {
                            p_config_members(q3, end, acc.push(e))
                        } else {
                            (q3, None)
                        },
                    }
                }
            },
        }
    }
}

/// `config` and entries in braces.
#[verifier::opaque]
pub open spec fn p_config_item(p: PState) -> (PState, Option<SItem>) {
    let (q, kw) = p_advance(p, Accept::Kind(TokenKind::ConfigKeyword));
    match kw {
        None => (q, None),
        Some(k) => {
            let (q1, cbl) = p_advance(q, Accept::Kind(TokenKind::CurlyBracketLeft));
            match cbl {
                None => (q1, None),
                Some(_) => {
                    let (q2, ms) = p_config_members(q1, TokenKind::CurlyBracketRight, Seq::empty());
                    match ms {
                        None => (q2, None),
                        Some(v) => {
                            let (q3, cbr) = p_advance(q2, Accept::Kind(TokenKind::CurlyBracketRight));
                            match cbr {
                                None => (q3, None),
                                Some(c) => (
                                    q3,
                                    Some(SItem { kind: SItemKind::Config(v), span: merge(k.span, c.span) }),
                                ),
                            }
                        },
                    }
                },
            }
        },
    }
}

/// A function parameter: `self`, or a name, `:` and a type name.
#[verifier::opaque]
pub open spec fn p_func_param(p: PState) -> (PState, Option<SFuncParam>) {
    let (q, s) = p_next_if_kind(p, TokenKind::SelfKeyword);
    match s {
        Some(_) => (q, Some(SFuncParam::SelfP)),
        None => {
            let (q1, id) = p_identifier(q);
            match id {
                None => (q1, None),
                Some((name, _)) => {
                    let (q2, colon) = p_advance(q1, Accept::Kind(TokenKind::Colon));
                    match colon {
                        None => (q2, None),
                        Some(_) => {
                            let (q3, rt) = p_return_type(q2);
                            match rt {
                                None => (q3, None),
                                Some(r) => (q3, Some(SFuncParam::Typed(name, r))),
                            }
                        },
                    }
                },
            }
        },
    }
}

/// Function parameters separated by commas, up to `end`.
#[verifier::opaque]
pub open spec fn p_func_params(p: PState, end: TokenKind, acc: Seq<SFuncParam>) -> (
    PState,
    Option<Seq<SFuncParam>>,
)
    decreases measure(p),
{
    let (q, done) = p_is_next(p, end);
    if done {
        (q, Some(acc))
    } else {
        let (q1, x) = p_func_param(q);
        match x {
            None => (q1, None),
            Some(e) => {
                let (q2, done2) = p_is_next(q1, end);
                if done2 {
                    (q2, Some(acc.push(e)))
                } else {
                    let (q3, c) = p_advance(q2, Accept::Kind(TokenKind::Comma));
                    match c {
                        None => (q3, None),
                        Some(_) => if measure(q3) < measure(p) {
                            p_func_params(q3, end, acc.push(e))
                        } else {
                            (q3, None)
                        },
                    }
                }
            },
        }
    }
}

/// The part of a function after its parameters: an optional `: type`, a
/// `where` clause, and a block or `;`.
#[verifier::opaque]
pub open spec fn p_func_tail(p: PState) -> (
    PState,
    Option<(Option<SReturnType>, Option<SWhereClause>, Option<SBlock>, Span)>,
) {
    let (q, colon) = p_next_if_kind(p, TokenKind::Colon);
    let (q1, rt, ok) = match colon {
        Some(_) => {
            let (q1, r) = p_return_type(q);
            (q1, r, r is Some)
        },
        None => (q, None, true),
    };
    if !ok {
        (q1, None)
    } else {
        let (q2, w) = p_where_clause(q1);
        match w {
            Err(_) => (q2, None),
            Ok(where_clause) => {
                let (q3, semi) = p_is_next(q2, TokenKind::Semicolon);
                if !semi {
                    let (q4, b) = p_block(q3);
                    match b {
                        None => (q4, None),
                        Some(blk) => (q4, Some((rt, where_clause, Some(blk), blk.span))),
                    }
                } else {
                    let (q4, t) = p_next(q3);
                    match t {
                        None => (q4, None),
                        Some(tok) => (q4, Some((rt, where_clause, None, tok.span))),
                    }
                }
            },
        }
    }
}

/// `func`, a name, generics, parameters in parentheses, and the rest.
#[verifier::opaque]
pub open spec fn p_func_item(p: PState) -> (PState, Option<SItem>) {
    let (q, kw) = p_advance(p, Accept::Kind(TokenKind::FuncKeyword));
    match kw {
        None => (q, None),
        Some(k) => {
            let (q1, id) = p_identifier(q);
            match id {
                None => (q1, None),
                Some((name, _)) => {
                    let (q2, g) = p_generics(q1);
                    match g {
                        Err(_) => (q2, None),
                        Ok(generics) => {
                            let (q3, pl) = p_advance(q2, Accept::Kind(TokenKind::ParanthesisLeft));
                            match pl {
                                None => (q3, None),
                                Some(_) => {
                                    let (q4, ps) = p_func_params(
                                        q3,
                                        TokenKind::ParanthesisRight,
                                        Seq::empty(),
                                    );
                                    match ps {
                                        None => (q4, None),
                                        Some(params) => {
                                            let (q5, pr) = p_advance(
                                                q4,
                                                Accept::Kind(TokenKind::ParanthesisRight),
                                            );
                                            match pr {
                                                None => (q5, None),
                                                Some(_) => {
                                                    let (q6, rest) = p_func_tail(q5);
                                                    match rest {
                                                        None => (q6, None),
                                                        Some((rt, where_clause, blk, end)) => (
                                                            q6,
                                                            Some(
                                                                SItem {
                                                                    kind: SItemKind::Func(
                                                                        SFuncItem {
                                                                            identifier: name,
                                                                            params,
                                                                            block: blk,
                                                                            return_type: rt,
                                                                            where_clause,
                                                                            generics,
                                                                        },
                                                                    ),
                                                                    span: merge(k.span, end),
                                                                },
                                                            ),
                                                        ),
                                                    }
                                                },
                                            }
                                        },
                                    }
                                },
                            }
                        },
                    }
                },
            }
        },
    }
}

/// `sig`, an optional `[type]`, a name and `;`.
#[verifier::opaque]
pub open spec fn p_sig_item(p: PState) -> (PState, Option<SItem>) {
    let (q, kw) = p_advance(p, Accept::Kind(TokenKind::SigKeyword));
    match kw {
        None => (q, None),
        Some(k) => {
            let (q1, sbl) = p_next_if_kind(q, TokenKind::SquareBracketLeft);
            let (q2, sig_type, ok) = match sbl {
                Some(_) => {
                    let (q2, rt) = p_return_type(q1);
                    match rt {
                        None => (q2, None, false),
                        Some(r) => {
                            let (q3, sbr) = p_advance(q2, Accept::Kind(TokenKind::SquareBracketRight));
                            (q3, Some(r), sbr is Some)
                        },
                    }
                },
                None => (q1, None, true),
            };
            if !ok {
                (q2, None)
            } else {
                let (q3, id) = p_identifier(q2);
                match id {
                    None => (q3, None),
                    Some((name, _)) => {
                        let (q4, semi) = p_advance(q3, Accept::Kind(TokenKind::Semicolon));
                        match semi {
                            None => (q4, None),
                            Some(s) => (
                                q4,
                                Some(
                                    SItem {
                                        kind: SItemKind::Sig(sig_type, name),
                                        span: merge(k.span, s.span),
                                    },
                                ),
                            ),
                        }
                    },
                }
            }
        },
    }
}

/// A statement as an item.
#[verifier::opaque]
pub open spec fn p_statement_item(p: PState) -> (PState, Option<SItem>) {
    let (q, s) = p_statement(p);
    match s {
        None => (q, None),
        Some(x) => (q, Some(SItem { kind: SItemKind::Statement(x), span: x.span })),
    }
}

// ---------------------------------------------------------------------------
// The parse functions of generics and items.

/// `after` is `before` moved to the state of `res`, and `r` is the item of
/// `res`; a parsed item took at least one token.
pub open spec fn parsed_item<'t>(
    before: Parser<'t>,
    after: Parser<'t>,
    res: (PState, Option<SItem>),
    r: Option<Item<'t>>,
) -> bool {
    &&& steps_to(before, after, res.0)
    &&& (match r {
        Some(x) => res.1 == Some(item_view(x)),
        None => res.1 is None,
    })
    &&& (r is Some ==> measure(after@) < measure(before@))
}

/// Parses type names joined by `+`.
fn bounds<'t>(parser: &mut Parser<'t>) -> (r: Option<Vec<ReturnType<'t>>>)
    requires
        old(parser).wf(),
    ensures
        steps_to(*old(parser), *final(parser), p_bounds(old(parser)@, Seq::empty()).0),
        (match r {
            Some(v) => p_bounds(old(parser)@, Seq::empty()).1 == Some(return_types_view(v@))
                && v@.len() > 0,
            None => p_bounds(old(parser)@, Seq::empty()).1 is None,
        }),
        r is Some ==> measure(final(parser)@) < measure(old(parser)@),
{
    let ghost p0 = parser@;
    let mut v: Vec<ReturnType<'t>> = Vec::new();
    proof {
        lemma_items_empty();
    }
    loop
        invariant
            parser.wf(),
            parser.input() == old(parser).input(),
            keeps_errors(old(parser)@, parser@),
            parser@.st.text == p0.st.text,
            measure(parser@) <= measure(p0),
            v@.len() > 0 ==> measure(parser@) < measure(p0),
            p0 == old(parser)@,
            p_bounds(parser@, return_types_view(v@)) == p_bounds(p0, Seq::empty()),
        decreases measure(parser@),
    {
        proof {
            reveal_with_fuel(p_bounds, 1);
        }
        let rt = match return_type(parser) {
            Some(r) => r,
            None => return None,
        };
        proof {
            lemma_return_types_push(v@, rt);
        }
        v.push(rt);
        if !parser.is_next(TokenKind::Plus) {
            return Some(v);
        }
        if parser.advance_until_kind(TokenKind::Plus).is_none() {
            return None;
        }
    }
}

/// Parses a generic parameter.
fn generic_param<'t>(parser: &mut Parser<'t>) -> (r: Option<GenericParam<'t>>)
    requires
        old(parser).wf(),
    ensures
        steps_to(*old(parser), *final(parser), p_generic_param(old(parser)@).0),
        (match r {
            Some(x) => p_generic_param(old(parser)@).1 == Some(generic_param_view(x)),
            None => p_generic_param(old(parser)@).1 is None,
        }),
        r is Some ==> measure(final(parser)@) < measure(old(parser)@),
{
    proof {
        reveal(p_generic_param);
    }
    let id = match parser.advance_until_identifier_spanned() {
        Some(i) => i,
        None => return None,
    };
    if parser.next_if_kind(TokenKind::Colon).is_some() {
        let v = match bounds(parser) {
            Some(v) => v,
            None => return None,
        };
        let last = v[v.len() - 1].span;
        proof {
            lemma_return_types_last(v@);
        }
        let span = Span { start: id.span.start, end: last.end };
        Some(GenericParam { identifier: id.data, constraits: Some(v), span })
    } else {
        Some(GenericParam { identifier: id.data, constraits: None, span: id.span })
    }
}

/// Parses generic parameters up to a token of kind `end`.
fn generic_params<'t>(parser: &mut Parser<'t>, end: TokenKind) -> (r: Option<Vec<GenericParam<'t>>>)
    requires
        old(parser).wf(),
    ensures
        steps_to(*old(parser), *final(parser), p_generic_params(old(parser)@, end, Seq::empty()).0),
        (match r {
            Some(v) => p_generic_params(old(parser)@, end, Seq::empty()).1 == Some(
                generic_params_view(v@),
            ),
            None => p_generic_params(old(parser)@, end, Seq::empty()).1 is None,
        }),
{
    let ghost p0 = parser@;
    let mut v: Vec<GenericParam<'t>> = Vec::new();
    proof {
        assert(generic_params_view(v@) =~= Seq::<SGenericParam>::empty());
    }
    loop
        invariant
            parser.wf(),
            parser.input() == old(parser).input(),
            keeps_errors(old(parser)@, parser@),
            parser@.st.text == p0.st.text,
            measure(parser@) <= measure(p0),
            p0 == old(parser)@,
            p_generic_params(parser@, end, generic_params_view(v@)) == p_generic_params(
                p0,
                end,
                Seq::empty(),
            ),
        decreases measure(parser@),
    {
        proof {
            reveal_with_fuel(p_generic_params, 1);
        }
        if parser.is_next(end) {
            return Some(v);
        }
        let x = match generic_param(parser) {
            Some(x) => x,
            None => return None,
        };
        proof {
            assert(generic_params_view(v@.push(x)) =~= generic_params_view(v@).push(
                generic_param_view(x),
            ));
        }
        v.push(x);
        if parser.is_next(end) {
            return Some(v);
        }
        if parser.advance_until_kind(TokenKind::Comma).is_none() {
            return None;
        }
    }
}

/// Parses optional generic parameters `[..]`.
pub fn generics<'t>(parser: &mut Parser<'t>) -> (r: Result<Option<Generics<'t>>, ParseErrored>)
    requires
        old(parser).wf(),
    ensures
        steps_to(*old(parser), *final(parser), p_generics(old(parser)@).0),
        p_generics(old(parser)@).1 == (match r {
            Ok(g) => Ok(opt_generics_view(g)),
            Err(e) => Err(e),
        }),
{
    proof {
        reveal(p_generics);
    }
    let sbl = match parser.next_if_kind(TokenKind::SquareBracketLeft) {
        Some(t) => t,
        None => return Ok(None),
    };
    let params = match generic_params(parser, TokenKind::SquareBracketRight) {
        Some(v) => v,
        None => return Err(ParseErrored),
    };
    let sbr = match parser.advance_until_kind(TokenKind::SquareBracketRight) {
        Some(t) => t,
        None => return Err(ParseErrored),
    };
    let span = Span { start: sbl.span.start, end: sbr.span.end };
    Ok(Some(Generics::new(params, span)))
}

/// Parses a constraint of a `where` clause.
fn generic_constrait<'t>(parser: &mut Parser<'t>) -> (r: Option<GenericConstrait<'t>>)
    requires
        old(parser).wf(),
    ensures
        steps_to(*old(parser), *final(parser), p_generic_constrait(old(parser)@).0),
        (match r {
            Some(x) => p_generic_constrait(old(parser)@).1 == Some(generic_constrait_view(x)),
            None => p_generic_constrait(old(parser)@).1 is None,
        }),
        r is Some ==> measure(final(parser)@) < measure(old(parser)@),
{
    proof {
        reveal(p_generic_constrait);
    }
    let id = match parser.advance_until_identifier_spanned() {
        Some(i) => i,
        None => return None,
    };
    if parser.advance_until_kind(TokenKind::Colon).is_none() {
        return None;
    }
    let v = match bounds(parser) {
        Some(v) => v,
        None => return None,
    };
    let last = v[v.len() - 1].span;
    proof {
        lemma_return_types_last(v@);
    }
    let span = Span { start: id.span.start, end: last.end };
    Some(GenericConstrait { identifier: id.data, constraits: v, span })
}

/// Parses an optional `where` clause.
pub fn where_clause<'t>(parser: &mut Parser<'t>) -> (r: Result<Option<WhereClause<'t>>, ParseErrored>)
    requires
        old(parser).wf(),
    ensures
        steps_to(*old(parser), *final(parser), p_where_clause(old(parser)@).0),
        p_where_clause(old(parser)@).1 == (match r {
            Ok(w) => Ok(opt_where_view(w)),
            Err(e) => Err(e),
        }),
{
    proof {
        reveal(p_where_clause);
    }
    let w = match parser.next_if_kind(TokenKind::WhereKeyword) {
        Some(t) => t,
        None => return Ok(None),
    };
    let ghost p1 = parser@;
    let mut constraits: Vec<GenericConstrait<'t>> = Vec::new();
    let mut last = w.span;
    proof {
        assert(generic_constraits_view(constraits@) =~= Seq::<SGenericConstrait>::empty());
    }
    loop
        invariant
            parser.wf(),
            parser.input() == old(parser).input(),
            keeps_errors(old(parser)@, parser@),
            parser@.st.text == p1.st.text,
            measure(parser@) <= measure(p1),
            p_where_constraits(parser@, generic_constraits_view(constraits@), last)
                == p_where_constraits(p1, Seq::empty(), w.span),
            p_next_if_kind(old(parser)@, TokenKind::WhereKeyword) == (p1, Some(w)),
            measure(p1) <= measure(old(parser)@),
            p1.st.text == old(parser)@.st.text,
        ensures
            parser.wf(),
            parser.input() == old(parser).input(),
            keeps_errors(old(parser)@, parser@),
            parser@.st.text == p1.st.text,
            measure(parser@) <= measure(p1),
            p_where_constraits(p1, Seq::empty(), w.span) == (
                parser@,
                Some((generic_constraits_view(constraits@), last)),
            ),
        decreases measure(parser@),
    {
        proof {
            reveal_with_fuel(p_where_constraits, 1);
            reveal(p_where_clause);
        }
        if !parser.is_next(TokenKind::Identifier) {
            break ;
        }
        let c = match generic_constrait(parser) {
            Some(c) => c,
            None => return Err(ParseErrored),
        };
        match parser.next_if_kind(TokenKind::Comma) {
            Some(comma) => {
                last = comma.span;
            },
            None => {
                last = c.span;
            },
        }
        proof {
            assert(generic_constraits_view(constraits@.push(c)) =~= generic_constraits_view(
                constraits@,
            ).push(generic_constrait_view(c)));
        }
        constraits.push(c);
    }
    let span = Span { start: w.span.start, end: last.end };
    Ok(Some(WhereClause::new(constraits, span)))
}

/// Parses an item.
pub fn item<'t>(parser: &mut Parser<'t>) -> (r: Option<Item<'t>>)
    requires
        old(parser).wf(),
    ensures
        parsed_item(*old(parser), *final(parser), p_item(old(parser)@), r),
    decreases measure(old(parser)@), 2nat,
{
    proof {
        reveal_with_fuel(p_item, 1);
        reveal_with_fuel(p_modifier_item, 1);
        reveal_with_fuel(p_attribute_item, 1);
        reveal_with_fuel(p_struct_item, 1);
        reveal_with_fuel(p_feature_item, 1);
    }
    let tok = match parser.peek() {
        Some(t) => t,
        None => return None,
    };
    match tok.kind {
        TokenKind::EnumKeyword => enum_item(parser),
        TokenKind::StructKeyword => struct_item(parser),
        TokenKind::LocalKeyword => field_item(parser),
        TokenKind::ConfigKeyword => config_item(parser),
        TokenKind::FuncKeyword => func_item(parser),
        TokenKind::SigKeyword => sig_item(parser),
        TokenKind::ImportKeyword => import_item(parser),
        TokenKind::FeatureKeyword => feature_item(parser),
        TokenKind::PubKeyword => modifier_item(parser),
        TokenKind::Tag => attribute_collection_item(parser),
        _ => statement_item(parser),
    }
}

/// Parses items up to a `}`.
fn item_list<'t>(parser: &mut Parser<'t>) -> (r: Option<Vec<Item<'t>>>)
    requires
        old(parser).wf(),
    ensures
        steps_to(*old(parser), *final(parser), p_item_list(old(parser)@, Seq::empty()).0),
        (match r {
            Some(v) => p_item_list(old(parser)@, Seq::empty()).1 == Some(items_view(v@)),
            None => p_item_list(old(parser)@, Seq::empty()).1 is None,
        }),
    decreases measure(old(parser)@), 3nat,
{
    let ghost p0 = parser@;
    let mut v: Vec<Item<'t>> = Vec::new();
    proof {
        lemma_items_empty();
    }
    loop
        invariant
            parser.wf(),
            parser.input() == old(parser).input(),
            keeps_errors(old(parser)@, parser@),
            parser@.st.text == p0.st.text,
            measure(parser@) <= measure(p0),
            p0 == old(parser)@,
            p_item_list(parser@, items_view(v@)) == p_item_list(p0, Seq::empty()),
        decreases measure(parser@),
    {
        proof {
            reveal_with_fuel(p_item_list, 1);
            reveal_with_fuel(p_item, 1);
        }
        if parser.is_next(TokenKind::CurlyBracketRight) {
            return Some(v);
        }
        let x = match item(parser) {
            Some(x) => x,
            None => return None,
        };
        proof {
            lemma_items_push(v@, x);
        }
        v.push(x);
    }
}

/// Parses `pub` and the item it applies to.
pub fn modifier_item<'t>(parser: &mut Parser<'t>) -> (r: Option<Item<'t>>)
    requires
        old(parser).wf(),
    ensures
        parsed_item(*old(parser), *final(parser), p_modifier_item(old(parser)@), r),
    decreases measure(old(parser)@), 1nat,
{
    proof {
        reveal_with_fuel(p_modifier_item, 1);
        reveal_with_fuel(p_item, 1);
    }
    let vis = match parser.advance_until_kind(TokenKind::PubKeyword) {
        Some(t) => Spanned::new(VisibilityModifiers::Public, t.span),
        None => return None,
    };
    let x = match item(parser) {
        Some(x) => x,
        None => return None,
    };
    let span = Span { start: vis.span.start, end: x.span.end };
    let i = Item { kind: ItemKind::Visible(vis.data, Box::new(x)), span };
    proof {
        lemma_item_view_shape(i);
    }
    Some(i)
}

/// Parses the attributes after the first `#`.
fn attributes<'t>(parser: &mut Parser<'t>, line0: usize) -> (r: Option<Vec<Path<'t>>>)
    requires
        old(parser).wf(),
    ensures
        steps_to(*old(parser), *final(parser), p_attributes(old(parser)@, line0, Seq::empty()).0),
        (match r {
            Some(v) => p_attributes(old(parser)@, line0, Seq::empty()).1 == Some(paths_view(v@)),
            None => p_attributes(old(parser)@, line0, Seq::empty()).1 is None,
        }),
{
    let ghost p0 = parser@;
    let mut line = line0;
    let mut attrs: Vec<Path<'t>> = Vec::new();
    proof {
        assert(paths_view(attrs@) =~= Seq::<SPath>::empty());
    }
    loop
        invariant
            parser.wf(),
            parser.input() == old(parser).input(),
            keeps_errors(old(parser)@, parser@),
            parser@.st.text == p0.st.text,
            measure(parser@) <= measure(p0),
            p0 == old(parser)@,
            p_attributes(parser@, line, paths_view(attrs@)) == p_attributes(p0, line0, Seq::empty()),
        decreases measure(parser@),
    {
        proof {
            reveal_with_fuel(p_attributes, 1);
        }
        let tok = match parser.peek() {
            Some(t) => t,
            None => return None,
        };
        if tok.kind == TokenKind::Tag || tok.kind == TokenKind::Comma {
            parser.next();
            if tok.kind == TokenKind::Tag {
                line = tok.line;
            }
        } else if tok.line == line {
            let path = match parser.advance_until_path() {
                Some(x) => x,
                None => return None,
            };
            proof {
                assert(paths_view(attrs@.push(path)) =~= paths_view(attrs@).push(path_view(path)));
            }
            attrs.push(path);
        } else {
            return Some(attrs);
        }
    }
}

/// Parses `#` attributes and the item they apply to.
pub fn attribute_collection_item<'t>(parser: &mut Parser<'t>) -> (r: Option<Item<'t>>)
    requires
        old(parser).wf(),
    ensures
        parsed_item(*old(parser), *final(parser), p_attribute_item(old(parser)@), r),
    decreases measure(old(parser)@), 1nat,
{
    proof {
        reveal_with_fuel(p_attribute_item, 1);
        reveal_with_fuel(p_item, 1);
    }
    let first = match parser.advance_until_kind(TokenKind::Tag) {
        Some(t) => t,
        None => return None,
    };
    let attrs = match attributes(parser, first.line) {
        Some(v) => v,
        None => return None,
    };
    let x = match item(parser) {
        Some(x) => x,
        None => return None,
    };
    let span = Span { start: first.span.start, end: x.span.end };
    let i = Item { kind: ItemKind::AttributeCollectedItem(attrs, Box::new(x)), span };
    proof {
        lemma_item_view_shape(i);
    }
    Some(i)
}

/// Parses an enumeration member.
fn enum_member<'t>(parser: &mut Parser<'t>) -> (r: Option<EnumMember<'t>>)
    requires
        old(parser).wf(),
    ensures
        steps_to(*old(parser), *final(parser), p_enum_member(old(parser)@).0),
        (match r {
            Some(x) => p_enum_member(old(parser)@).1 == Some(enum_member_view(x)),
            None => p_enum_member(old(parser)@).1 is None,
        }),
        r is Some ==> measure(final(parser)@) < measure(old(parser)@),
{
    proof {
        reveal(p_enum_member);
    }
    let identifier = match parser.advance_until_identifier() {
        Some(i) => i,
        None => return None,
    };
    let default_value = if parser.next_if_kind(TokenKind::Equals).is_some() {
        match expression(parser) {
            Some(e) => Some(e),
            None => return None,
        }
    } else {
        None
    };
    let m = EnumMember { identifier, default_value };
    proof {
        lemma_enum_member_view(m);
    }
    Some(m)
}

/// Parses enumeration members up to a token of kind `end`.
fn enum_members<'t>(parser: &mut Parser<'t>, end: TokenKind) -> (r: Option<Vec<EnumMember<'t>>>)
    requires
        old(parser).wf(),
    ensures
        steps_to(*old(parser), *final(parser), p_enum_members(old(parser)@, end, Seq::empty()).0),
        (match r {
            Some(v) => p_enum_members(old(parser)@, end, Seq::empty()).1 == Some(
                enum_members_view(v@),
            ),
            None => p_enum_members(old(parser)@, end, Seq::empty()).1 is None,
        }),
{
    let ghost p0 = parser@;
    let mut v: Vec<EnumMember<'t>> = Vec::new();
    proof {
        assert(enum_members_view(v@) =~= Seq::<SEnumMember>::empty());
    }
    loop
        invariant
            parser.wf(),
            parser.input() == old(parser).input(),
            keeps_errors(old(parser)@, parser@),
            parser@.st.text == p0.st.text,
            measure(parser@) <= measure(p0),
            p0 == old(parser)@,
            p_enum_members(parser@, end, enum_members_view(v@)) == p_enum_members(
                p0,
                end,
                Seq::empty(),
            ),
        decreases measure(parser@),
    {
        proof {
            reveal_with_fuel(p_enum_members, 1);
        }
        if parser.is_next(end) {
            return Some(v);
        }
        let x = match enum_member(parser) {
            Some(x) => x,
            None => return None,
        };
        proof {
            assert(enum_members_view(v@.push(x)) =~= enum_members_view(v@).push(
                enum_member_view(x),
            ));
        }
        v.push(x);
        if parser.is_next(end) {
            return Some(v);
        }
        if parser.advance_until_kind(TokenKind::Comma).is_none() {
            return None;
        }
    }
}

/// Parses an enumeration.
pub fn enum_item<'t>(parser: &mut Parser<'t>) -> (r: Option<Item<'t>>)
    requires
        old(parser).wf(),
    ensures
        parsed_item(*old(parser), *final(parser), p_enum_item(old(parser)@), r),
{
    proof {
        reveal(p_enum_item);
    }
    let kw = match parser.advance_until_kind(TokenKind::EnumKeyword) {
        Some(t) => t,
        None => return None,
    };
    let flags = parser.next_if_kind(TokenKind::FlagsKeyword).is_some();
    let identifier = match parser.advance_until_identifier() {
        Some(i) => i,
        None => return None,
    };
    let derived_type = if parser.next_if_kind(TokenKind::Colon).is_some() {
        match return_type(parser) {
            Some(r) => Some(r),
            None => return None,
        }
    } else {
        None
    };
    if parser.advance_until_kind(TokenKind::CurlyBracketLeft).is_none() {
        return None;
    }
    let items = match enum_members(parser, TokenKind::CurlyBracketRight) {
        Some(v) => v,
        None => return None,
    };
    let cbr = match parser.advance_until_kind(TokenKind::CurlyBracketRight) {
        Some(t) => t,
        None => return None,
    };
    let span = Span { start: kw.span.start, end: cbr.span.end };
    let i = Item { kind: ItemKind::Enum(EnumItem { identifier, items, flags, derived_type }), span };
    proof {
        lemma_item_view_shape(i);
    }
    Some(i)
}

/// Parses the head of a `struct`: name, generics, `where` clause and tuple
/// members.
fn struct_head<'t>(parser: &mut Parser<'t>) -> (r: Option<
    (&'t str, Option<Generics<'t>>, Option<WhereClause<'t>>, Vec<ReturnType<'t>>),
>)
    requires
        old(parser).wf(),
    ensures
        steps_to(*old(parser), *final(parser), p_struct_head(old(parser)@).0),
        (match r {
            Some((name, g, w, v)) => p_struct_head(old(parser)@).1 == Some(
                (name@, opt_generics_view(g), opt_where_view(w), return_types_view(v@)),
            ),
            None => p_struct_head(old(parser)@).1 is None,
        }),
{
    proof {
        reveal(p_struct_head);
        lemma_items_empty();
    }
    let identifier = match parser.advance_until_identifier() {
        Some(i) => i,
        None => return None,
    };
    let generics = match generics(parser) {
        Ok(g) => g,
        Err(_) => return None,
    };
    let where_clause = match where_clause(parser) {
        Ok(w) => w,
        Err(_) => return None,
    };
    let mut tuple_members: Vec<ReturnType<'t>> = Vec::new();
    if parser.next_if_kind(TokenKind::ParanthesisLeft).is_some() {
        tuple_members = match return_types(parser, TokenKind::ParanthesisRight) {
            Some(v) => v,
            None => return None,
        };
        if parser.advance_until_kind(TokenKind::ParanthesisRight).is_none() {
            return None;
        }
    }
    Some((identifier, generics, where_clause, tuple_members))
}

/// Parses a `struct`.
pub fn struct_item<'t>(parser: &mut Parser<'t>) -> (r: Option<Item<'t>>)
    requires
        old(parser).wf(),
    ensures
        parsed_item(*old(parser), *final(parser), p_struct_item(old(parser)@), r),
    decreases measure(old(parser)@), 1nat,
{
    proof {
        reveal_with_fuel(p_struct_item, 1);
        reveal_with_fuel(p_item_list, 1);
        lemma_items_empty();
    }
    let kw = match parser.advance_until_kind(TokenKind::StructKeyword) {
        Some(t) => t,
        None => return None,
    };
    let (identifier, generics, where_clause, tuple_members) = match struct_head(parser) {
        Some(h) => h,
        None => return None,
    };
    let token = match parser.advance(crate::parser::Accept::StructBody) {
        Some(t) => t,
        None => return None,
    };
    let mut items: Vec<Item<'t>> = Vec::new();
    let end = if token.kind == TokenKind::CurlyBracketLeft {
        items = match item_list(parser) {
            Some(v) => v,
            None => return None,
        };
        match parser.advance_until_kind(TokenKind::CurlyBracketRight) {
            Some(t) => t.span,
            None => return None,
        }
    } else {
        token.span
    };
    let span = Span { start: kw.span.start, end: end.end };
    let i = Item {
        kind: ItemKind::Struct(StructItem { identifier, tuple_members, generics, where_clause, items }),
        span,
    };
    proof {
        lemma_item_view_shape(i);
    }
    Some(i)
}

/// Parses a `local` field declaration.
fn field_item<'t>(parser: &mut Parser<'t>) -> (r: Option<Item<'t>>)
    requires
        old(parser).wf(),
    ensures
        parsed_item(*old(parser), *final(parser), p_field_item(old(parser)@), r),
{
    proof {
        reveal(p_field_item);
    }
    let kw = match parser.advance_until_kind(TokenKind::LocalKeyword) {
        Some(t) => t,
        None => return None,
    };
    let identifier = match parser.advance_until_identifier() {
        Some(i) => i,
        None => return None,
    };
    if parser.advance_until_kind(TokenKind::Colon).is_none() {
        return None;
    }
    let rt = match return_type(parser) {
        Some(r) => r,
        None => return None,
    };
    let semi = match parser.advance_until_kind(TokenKind::Semicolon) {
        Some(t) => t,
        None => return None,
    };
    let span = Span { start: kw.span.start, end: semi.span.end };
    let i = Item { kind: ItemKind::Field(FieldItem { identifier, return_type: rt }), span };
    proof {
        lemma_item_view_shape(i);
    }
    Some(i)
}

/// Parses a `feature`.
pub fn feature_item<'t>(parser: &mut Parser<'t>) -> (r: Option<Item<'t>>)
    requires
        old(parser).wf(),
    ensures
        parsed_item(*old(parser), *final(parser), p_feature_item(old(parser)@), r),
    decreases measure(old(parser)@), 1nat,
{
    proof {
        reveal_with_fuel(p_feature_item, 1);
        reveal_with_fuel(p_item_list, 1);
    }
    let kw = match parser.advance_until_kind(TokenKind::FeatureKeyword) {
        Some(t) => t,
        None => return None,
    };
    let feature_ident = match parser.advance_until_path() {
        Some(x) => x,
        None => return None,
    };
    let generics = match generics(parser) {
        Ok(g) => g,
        Err(_) => return None,
    };
    let implementation = if parser.next_if_kind(TokenKind::ForKeyword).is_some() {
        match parser.advance_until_path() {
            Some(x) => Some(x),
            None => return None,
        }
    } else {
        None
    };
    let where_clause = match where_clause(parser) {
        Ok(w) => w,
        Err(_) => return None,
    };
    if parser.advance_until_kind(TokenKind::CurlyBracketLeft).is_none() {
        return None;
    }
    let items = match item_list(parser) {
        Some(v) => v,
        None => return None,
    };
    let cbr = match parser.advance_until_kind(TokenKind::CurlyBracketRight) {
        Some(t) => t,
        None => return None,
    };
    let span = Span { start: kw.span.start, end: cbr.span.end };
    let i = Item {
        kind: ItemKind::Feature(FeatureItem { feature_ident, implementation, items, generics, where_clause }),
        span,
    };
    proof {
        lemma_item_view_shape(i);
    }
    Some(i)
}

/// Parses an `import`.
pub fn import_item<'t>(parser: &mut Parser<'t>) -> (r: Option<Item<'t>>)
    requires
        old(parser).wf(),
    ensures
        parsed_item(*old(parser), *final(parser), p_import_item(old(parser)@), r),
{
    proof {
        reveal(p_import_item);
    }
    let kw = match parser.advance_until_kind(TokenKind::ImportKeyword) {
        Some(t) => t,
        None => return None,
    };
    let path = match parser.advance_until_path() {
        Some(x) => x,
        None => return None,
    };
    let alias = if parser.next_if_kind(TokenKind::AsKeyword).is_some() {
        match parser.advance_until_identifier() {
            Some(i) => Some(i),
            None => return None,
        }
    } else {
        None
    };
    let semi = match parser.advance_until_kind(TokenKind::Semicolon) {
        Some(t) => t,
        None => return None,
    };
    let span = Span { start: kw.span.start, end: semi.span.end };
    let i = Item { kind: ItemKind::Import(ImportItem { path, alias }), span };
    proof {
        lemma_item_view_shape(i);
    }
    Some(i)
}

/// Parses a configuration entry.
fn config_member<'t>(parser: &mut Parser<'t>) -> (r: Option<ConfigMember<'t>>)
    requires
        old(parser).wf(),
    ensures
        steps_to(*old(parser), *final(parser), p_config_member(old(parser)@).0),
        (match r {
            Some(x) => p_config_member(old(parser)@).1 == Some(config_member_view(x)),
            None => p_config_member(old(parser)@).1 is None,
        }),
        r is Some ==> measure(final(parser)@) < measure(old(parser)@),
{
    proof {
        reveal(p_config_member);
    }
    let identifier = match parser.advance_until_identifier() {
        Some(i) => i,
        None => return None,
    };
    if parser.advance_until_kind(TokenKind::Equals).is_none() {
        return None;
    }
    let e = match expression(parser) {
        Some(e) => e,
        None => return None,
    };
    Some(ConfigMember { identifier, expression: e })
}

/// Parses configuration entries up to a token of kind `end`.
fn config_members<'t>(parser: &mut Parser<'t>, end: TokenKind) -> (r: Option<Vec<ConfigMember<'t>>>)
    requires
        old(parser).wf(),
    ensures
        steps_to(*old(parser), *final(parser), p_config_members(old(parser)@, end, Seq::empty()).0),
        (match r {
            Some(v) => p_config_members(old(parser)@, end, Seq::empty()).1 == Some(
                config_members_view(v@),
            ),
            None => p_config_members(old(parser)@, end, Seq::empty()).1 is None,
        }),
{
    let ghost p0 = parser@;
    let mut v: Vec<ConfigMember<'t>> = Vec::new();
    proof {
        assert(config_members_view(v@) =~= Seq::<SConfigMember>::empty());
    }
    loop
        invariant
            parser.wf(),
            parser.input() == old(parser).input(),
            keeps_errors(old(parser)@, parser@),
            parser@.st.text == p0.st.text,
            measure(parser@) <= measure(p0),
            p0 == old(parser)@,
            p_config_members(parser@, end, config_members_view(v@)) == p_config_members(
                p0,
                end,
                Seq::empty(),
            ),
        decreases measure(parser@),
    {
        proof {
            reveal_with_fuel(p_config_members, 1);
        }
        if parser.is_next(end) {
            return Some(v);
        }
        let x = match config_member(parser) {
            Some(x) => x,
            None => return None,
        };
        proof {
            assert(config_members_view(v@.push(x)) =~= config_members_view(v@).push(
                config_member_view(x),
            ));
        }
        v.push(x);
        if parser.is_next(end) {
            return Some(v);
        }
        if parser.advance_until_kind(TokenKind::Comma).is_none() {
            return None;
        }
    }
}

/// Parses a `config` item.
pub fn config_item<'t>(parser: &mut Parser<'t>) -> (r: Option<Item<'t>>)
    requires
        old(parser).wf(),
    ensures
        parsed_item(*old(parser), *final(parser), p_config_item(old(parser)@), r),
{
    proof {
        reveal(p_config_item);
    }
    let kw = match parser.advance_until_kind(TokenKind::ConfigKeyword) {
        Some(t) => t,
        None => return None,
    };
    if parser.advance_until_kind(TokenKind::CurlyBracketLeft).is_none() {
        return None;
    }
    let members = match config_members(parser, TokenKind::CurlyBracketRight) {
        Some(v) => v,
        None => return None,
    };
    let cbr = match parser.advance_until_kind(TokenKind::CurlyBracketRight) {
        Some(t) => t,
        None => return None,
    };
    let span = Span { start: kw.span.start, end: cbr.span.end };
    let i = Item { kind: ItemKind::Config(ConfigItem { members }), span };
    proof {
        lemma_item_view_shape(i);
    }
    Some(i)
}

/// Parses a function parameter.
fn func_param<'t>(parser: &mut Parser<'t>) -> (r: Option<FuncParam<'t>>)
    requires
        old(parser).wf(),
    ensures
        steps_to(*old(parser), *final(parser), p_func_param(old(parser)@).0),
        (match r {
            Some(x) => p_func_param(old(parser)@).1 == Some(func_param_view(x)),
            None => p_func_param(old(parser)@).1 is None,
        }),
        r is Some ==> measure(final(parser)@) < measure(old(parser)@),
{
    proof {
        reveal(p_func_param);
    }
    if parser.next_if_kind(TokenKind::SelfKeyword).is_some() {
        return Some(FuncParam::SelfP);
    }
    let identifier = match parser.advance_until_identifier() {
        Some(i) => i,
        None => return None,
    };
    if parser.advance_until_kind(TokenKind::Colon).is_none() {
        return None;
    }
    let rt = match return_type(parser) {
        Some(r) => r,
        None => return None,
    };
    Some(FuncParam::Typed(identifier, rt))
}

/// Parses function parameters up to a token of kind `end`.
fn func_params<'t>(parser: &mut Parser<'t>, end: TokenKind) -> (r: Option<Vec<FuncParam<'t>>>)
    requires
        old(parser).wf(),
    ensures
        steps_to(*old(parser), *final(parser), p_func_params(old(parser)@, end, Seq::empty()).0),
        (match r {
            Some(v) => p_func_params(old(parser)@, end, Seq::empty()).1 == Some(func_params_view(v@)),
            None => p_func_params(old(parser)@, end, Seq::empty()).1 is None,
        }),
{
    let ghost p0 = parser@;
    let mut v: Vec<FuncParam<'t>> = Vec::new();
    proof {
        assert(func_params_view(v@) =~= Seq::<SFuncParam>::empty());
    }
    loop
        invariant
            parser.wf(),
            parser.input() == old(parser).input(),
            keeps_errors(old(parser)@, parser@),
            parser@.st.text == p0.st.text,
            measure(parser@) <= measure(p0),
            p0 == old(parser)@,
            p_func_params(parser@, end, func_params_view(v@)) == p_func_params(
                p0,
                end,
                Seq::empty(),
            ),
        decreases measure(parser@),
    {
        proof {
            reveal_with_fuel(p_func_params, 1);
        }
        if parser.is_next(end) {
            return Some(v);
        }
        let x = match func_param(parser) {
            Some(x) => x,
            None => return None,
        };
        proof {
            assert(func_params_view(v@.push(x)) =~= func_params_view(v@).push(func_param_view(x)));
        }
        v.push(x);
        if parser.is_next(end) {
            return Some(v);
        }
        if parser.advance_until_kind(TokenKind::Comma).is_none() {
            return None;
        }
    }
}

/// Parses what follows a function's parameters.
fn func_tail<'t>(parser: &mut Parser<'t>) -> (r: Option<
    (Option<ReturnType<'t>>, Option<WhereClause<'t>>, Option<crate::ast::Block<'t>>, Span),
>)
    requires
        old(parser).wf(),
    ensures
        steps_to(*old(parser), *final(parser), p_func_tail(old(parser)@).0),
        (match r {
            Some((rt, w, b, end)) => p_func_tail(old(parser)@).1 == Some(
                (
                    maybe_return_type_view(rt),
                    opt_where_view(w),
                    match b {
                        Some(x) => Some(block_view(x)),
                        None => None,
                    },
                    end,
                ),
            ),
            None => p_func_tail(old(parser)@).1 is None,
        }),
{
    proof {
        reveal(p_func_tail);
    }
    let rt = if parser.next_if_kind(TokenKind::Colon).is_some() {
        match return_type(parser) {
            Some(r) => Some(r),
            None => return None,
        }
    } else {
        None
    };
    let where_clause = match where_clause(parser) {
        Ok(w) => w,
        Err(_) => return None,
    };
    if !parser.is_next(TokenKind::Semicolon) {
        let b = match block(parser) {
            Some(b) => b,
            None => return None,
        };
        let end = b.span;
        proof {
            crate::ast::statement::lemma_block_view(b);
        }
        Some((rt, where_clause, Some(b), end))
    } else {
        let semi = match parser.next() {
            Some(t) => t,
            None => return None,
        };
        Some((rt, where_clause, None, semi.span))
    }
}

/// Parses a function.
pub fn func_item<'t>(parser: &mut Parser<'t>) -> (r: Option<Item<'t>>)
    requires
        old(parser).wf(),
    ensures
        parsed_item(*old(parser), *final(parser), p_func_item(old(parser)@), r),
{
    proof {
        reveal(p_func_item);
    }
    let kw = match parser.advance_until_kind(TokenKind::FuncKeyword) {
        Some(t) => t,
        None => return None,
    };
    let identifier = match parser.advance_until_identifier() {
        Some(i) => i,
        None => return None,
    };
    let generics = match generics(parser) {
        Ok(g) => g,
        Err(_) => return None,
    };
    if parser.advance_until_kind(TokenKind::ParanthesisLeft).is_none() {
        return None;
    }
    let params = match func_params(parser, TokenKind::ParanthesisRight) {
        Some(v) => v,
        None => return None,
    };
    if parser.advance_until_kind(TokenKind::ParanthesisRight).is_none() {
        return None;
    }
    let (return_type, where_clause, block, end) = match func_tail(parser) {
        Some(t) => t,
        None => return None,
    };
    let span = Span { start: kw.span.start, end: end.end };
    let i = Item {
        kind: ItemKind::Func(FuncItem { identifier, params, block, return_type, where_clause, generics }),
        span,
    };
    proof {
        lemma_item_view_shape(i);
    }
    Some(i)
}

/// Parses a `sig` item.
pub fn sig_item<'t>(parser: &mut Parser<'t>) -> (r: Option<Item<'t>>)
    requires
        old(parser).wf(),
    ensures
        parsed_item(*old(parser), *final(parser), p_sig_item(old(parser)@), r),
{
    proof {
        reveal(p_sig_item);
    }
    let kw = match parser.advance_until_kind(TokenKind::SigKeyword) {
        Some(t) => t,
        None => return None,
    };
    let sig_type = if parser.next_if_kind(TokenKind::SquareBracketLeft).is_some() {
        let rt = match return_type(parser) {
            Some(r) => r,
            None => return None,
        };
        if parser.advance_until_kind(TokenKind::SquareBracketRight).is_none() {
            return None;
        }
        Some(rt)
    } else {
        None
    };
    let identifier = match parser.advance_until_identifier() {
        Some(i) => i,
        None => return None,
    };
    let semi = match parser.advance_until_kind(TokenKind::Semicolon) {
        Some(t) => t,
        None => return None,
    };
    let span = Span { start: kw.span.start, end: semi.span.end };
    let i = Item { kind: ItemKind::Sig(SigItem { sig_type, identifier }), span };
    proof {
        lemma_item_view_shape(i);
    }
    Some(i)
}

/// Parses a statement as an item.
pub fn statement_item<'t>(parser: &mut Parser<'t>) -> (r: Option<Item<'t>>)
    requires
        old(parser).wf(),
    ensures
        parsed_item(*old(parser), *final(parser), p_statement_item(old(parser)@), r),
{
    proof {
        reveal(p_statement_item);
    }
    let s = match statement(parser) {
        Some(s) => s,
        None => return None,
    };
    let span = s.span;
    let i = Item { kind: ItemKind::Statement(s), span };
    proof {
        lemma_item_view_shape(i);
    }
    Some(i)
}


/// Reading bounds after some already read gives those followed by what
/// reading from the same place with none read gives.
proof fn lemma_bounds_acc(p: PState, acc: Seq<SReturnType>)
    ensures
        p_bounds(p, acc) == (match p_bounds(p, Seq::empty()) {
            (q, Some(v)) => (q, Some(acc + v)),
            (q, None) => (q, None),
        }),
    decreases measure(p),
{
    reveal_with_fuel(p_bounds, 1);
    let (q, rt) = p_return_type(p);
    if let Some(r) = rt {
        let (q1, plus) = p_is_next(q, TokenKind::Plus);
        if !plus {
            assert(acc.push(r) =~= acc + Seq::empty().push(r));
        } else {
            let (q2, t) = p_advance(q1, Accept::Kind(TokenKind::Plus));
            if t is Some && measure(q2) < measure(p) {
                lemma_bounds_acc(q2, acc.push(r));
                lemma_bounds_acc(q2, Seq::empty().push(r));
                match p_bounds(q2, Seq::empty()) {
                    (_, Some(v)) => {
                        assert(acc.push(r) + v =~= acc + (Seq::empty().push(r) + v));
                    },
                    (_, None) => {},
                }
            }
        }
    }
}

/// Bounds `B1 + ... + Bn` are read in order: whenever they are read, the
/// first type comes first; with no `+` after it, it is the only bound, and
/// with a `+` after it, the bounds read after that `+` follow it.
pub proof fn lemma_bounds_in_order(p: PState)
    ensures
        p_bounds(p, Seq::empty()).1 is Some ==> ({
            let (q, rt) = p_return_type(p);
            let (q1, plus) = p_is_next(q, TokenKind::Plus);
            let q2 = p_advance(q1, Accept::Kind(TokenKind::Plus)).0;
            &&& rt is Some
            &&& !plus ==> p_bounds(p, Seq::empty()) == (q1, Some(seq![rt->0]))
            &&& plus ==> p_bounds(q2, Seq::empty()).1 is Some && p_bounds(p, Seq::empty()) == (
                p_bounds(q2, Seq::empty()).0,
                Some(seq![rt->0] + p_bounds(q2, Seq::empty()).1->0),
            )
        }),
{
    reveal_with_fuel(p_bounds, 1);
    let (q, rt) = p_return_type(p);
    if let Some(r) = rt {
        let (q1, plus) = p_is_next(q, TokenKind::Plus);
        assert(Seq::<SReturnType>::empty().push(r) =~= seq![r]);
        if plus {
            let (q2, t) = p_advance(q1, Accept::Kind(TokenKind::Plus));
            if t is Some && measure(q2) < measure(p) {
                lemma_bounds_acc(q2, Seq::empty().push(r));
            }
        }
    }
}

/// A generic parameter reads its bounds as a `where` constraint does: when
/// a name is followed by `:`, the parameter and the constraint read from
/// the same place both fail or both give the same name, bounds and span,
/// and they end in the same place.
pub proof fn lemma_generic_param_as_constrait(p: PState)
    requires
        p_identifier(p).1 is Some,
        p_is_next(p_identifier(p).0, TokenKind::Colon).1,
    ensures
        p_generic_param(p).0 == p_generic_constrait(p).0,
        p_generic_param(p).1 is Some <==> p_generic_constrait(p).1 is Some,
        p_generic_constrait(p).1 matches Some(c) ==> p_generic_param(p).1 == Some(
            SGenericParam { identifier: c.identifier, constraits: Some(c.constraits), span: c.span },
        ),
{
    reveal(p_generic_param);
    reveal(p_generic_constrait);
    let q = p_identifier(p).0;
    assert(p_next_if_kind(q, TokenKind::Colon) == p_advance(q, Accept::Kind(TokenKind::Colon)));
}

} // verus!
