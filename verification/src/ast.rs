//! The syntax tree that the parser builds, and its abstract values.
//!
//! Each type of the tree has an abstract counterpart (named with a leading
//! `S`) in which names and texts are sequences of characters and lists are
//! sequences; the parser's contracts are stated over these.
use vstd::prelude::*;

pub mod expression;
pub mod statement;

use crate::ast::expression::{Expression, SExpression, expr_view, opt_expr_view};
use crate::ast::statement::{SStatement, Statement, statements_view};
use crate::tokens::{Span, Spanned};

verus! {

pub type Ast<'i> = Vec<Item<'i>>;

pub type Identifier<'s> = &'s str;

pub type Block<'s> = Spanned<Vec<Statement<'s>>>;

#[derive(Debug, PartialEq, Eq)]
pub struct Item<'i> {
    pub kind: ItemKind<'i>,
    pub span: Span,
}

#[derive(Debug, PartialEq, Eq)]
pub enum ItemKind<'i> {
    Enum(EnumItem<'i>),
    Struct(StructItem<'i>),
    Field(FieldItem<'i>),
    Config(ConfigItem<'i>),
    Const(ConstItem<'i>),
    Func(FuncItem<'i>),
    Sig(SigItem<'i>),
    Import(ImportItem<'i>),
    Feature(FeatureItem<'i>),
    Statement(Statement<'i>),
    Visible(VisibilityModifiers, Box<Item<'i>>),
    AttributeCollectedItem(Vec<Path<'i>>, Box<Item<'i>>),
}

#[derive(Debug, PartialEq, Eq)]
pub struct EnumItem<'i> {
    pub identifier: &'i str,
    pub items: Vec<EnumMember<'i>>,
    pub flags: bool,
    pub derived_type: Option<ReturnType<'i>>,
}

#[derive(Debug, PartialEq, Eq)]
pub struct EnumMember<'i> {
    pub identifier: &'i str,
    pub default_value: Option<Expression<'i>>,
}

#[derive(Debug, PartialEq, Eq)]
pub struct StructItem<'i> {
    pub identifier: &'i str,
    pub tuple_members: Vec<ReturnType<'i>>,
    pub generics: Option<Generics<'i>>,
    pub where_clause: Option<WhereClause<'i>>,
    pub items: Vec<Item<'i>>,
}

/// A `local` field declaration.
#[derive(Debug, PartialEq, Eq)]
pub struct FieldItem<'i> {
    pub identifier: &'i str,
    pub return_type: ReturnType<'i>,
}

#[derive(Debug, PartialEq, Eq)]
pub struct ReturnType<'t> {
    pub kind: ReturnTypeKind<'t>,
    pub span: Span,
}

#[derive(Debug, PartialEq, Eq)]
pub enum ReturnTypeKind<'i> {
    Path(Path<'i>),
    Tuple(Vec<ReturnType<'i>>),
    Array(Box<ReturnType<'i>>),
    Nullable(Box<ReturnType<'i>>),
    Generic(Box<ReturnType<'i>>, Vec<ReturnType<'i>>),
}

#[derive(Debug, PartialEq, Eq)]
pub struct ConfigItem<'i> {
    pub members: Vec<ConfigMember<'i>>,
}

#[derive(Debug, PartialEq, Eq)]
pub struct ConfigMember<'i> {
    pub identifier: &'i str,
    pub expression: Expression<'i>,
}

#[derive(Debug, PartialEq, Eq)]
pub struct ConstItem<'i> {
    pub identifier: &'i str,
    pub return_type: ReturnType<'i>,
    pub eq: Expression<'i>,
}

#[derive(Debug, PartialEq, Eq)]
pub struct FuncItem<'i> {
    pub identifier: &'i str,
    pub params: Vec<FuncParam<'i>>,
    pub block: Option<Block<'i>>,
    pub return_type: Option<ReturnType<'i>>,
    pub where_clause: Option<WhereClause<'i>>,
    pub generics: Option<Generics<'i>>,
}

#[derive(Debug, PartialEq, Eq)]
pub enum FuncParam<'i> {
    SelfP,
    Typed(&'i str, ReturnType<'i>),
}

#[derive(Debug, PartialEq, Eq)]
pub struct SigItem<'i> {
    pub sig_type: Option<ReturnType<'i>>,
    pub identifier: &'i str,
}

#[derive(Debug, PartialEq, Eq)]
pub struct ImportItem<'i> {
    pub path: Path<'i>,
    pub alias: Option<&'i str>,
}

#[derive(Debug, PartialEq, Eq)]
pub struct FeatureItem<'i> {
    pub feature_ident: Path<'i>,
    pub implementation: Option<Path<'i>>,
    pub items: Vec<Item<'i>>,
    pub generics: Option<Generics<'i>>,
    pub where_clause: Option<WhereClause<'i>>,
}

/// Names joined by `::`.
#[derive(Debug, PartialEq, Eq)]
pub struct Path<'i> {
    pub identifiers: Vec<&'i str>,
    pub span: Span,
}

#[derive(Clone, Copy, Debug, PartialEq, Eq, Structural)]
pub enum VisibilityModifiers {
    Public,
}

/// The generic parameters `[T: A + B, U]` of a declaration.
#[derive(Debug, PartialEq, Eq)]
pub struct Generics<'i> {
    pub params: Vec<GenericParam<'i>>,
    pub span: Span,
}

impl<'i> Generics<'i> {
    pub fn new(params: Vec<GenericParam<'i>>, span: Span) -> (r: Self)
        ensures
            r.params@ == params@,
            r.span == span,
    {
        Generics { params, span }
    }
}

#[derive(Debug, PartialEq, Eq)]
pub struct GenericParam<'i> {
    pub identifier: &'i str,
    pub constraits: Option<Vec<ReturnType<'i>>>,
    pub span: Span,
}

/// A `where` clause.
#[derive(Debug, PartialEq, Eq)]
pub struct WhereClause<'i> {
    pub constraits: Vec<GenericConstrait<'i>>,
    pub span: Span,
}

impl<'i> WhereClause<'i> {
    pub fn new(constraits: Vec<GenericConstrait<'i>>, span: Span) -> (r: Self)
        ensures
            r.constraits@ == constraits@,
            r.span == span,
    {
        WhereClause { constraits, span }
    }
}

#[derive(Debug, PartialEq, Eq)]
pub struct GenericConstrait<'i> {
    pub identifier: &'i str,
    pub constraits: Vec<ReturnType<'i>>,
    pub span: Span,
}

/// The abstract value of a [`Block`].
pub struct SBlock {
    pub data: Seq<SStatement>,
    pub span: Span,
}

pub struct SPath {
    pub identifiers: Seq<Seq<char>>,
    pub span: Span,
}

pub struct SReturnType {
    pub kind: SReturnTypeKind,
    pub span: Span,
}

pub enum SReturnTypeKind {
    Path(SPath),
    Tuple(Seq<SReturnType>),
    Array(Box<SReturnType>),
    Nullable(Box<SReturnType>),
    Generic(Box<SReturnType>, Seq<SReturnType>),
}

pub struct SItem {
    pub kind: SItemKind,
    pub span: Span,
}

pub enum SItemKind {
    Enum(Seq<char>, Seq<SEnumMember>, bool, Option<SReturnType>),
    Struct(SStructItem),
    Field(Seq<char>, SReturnType),
    Config(Seq<SConfigMember>),
    Const(Seq<char>, SReturnType, SExpression),
    Func(SFuncItem),
    Sig(Option<SReturnType>, Seq<char>),
    Import(SPath, Option<Seq<char>>),
    Feature(SFeatureItem),
    Statement(SStatement),
    Visible(VisibilityModifiers, Box<SItem>),
    AttributeCollectedItem(Seq<SPath>, Box<SItem>),
}

pub struct SEnumMember {
    pub identifier: Seq<char>,
    pub default_value: Option<SExpression>,
}

pub struct SStructItem {
    pub identifier: Seq<char>,
    pub tuple_members: Seq<SReturnType>,
    pub generics: Option<SGenerics>,
    pub where_clause: Option<SWhereClause>,
    pub items: Seq<SItem>,
}

pub struct SConfigMember {
    pub identifier: Seq<char>,
    pub expression: SExpression,
}

pub struct SFuncItem {
    pub identifier: Seq<char>,
    pub params: Seq<SFuncParam>,
    pub block: Option<SBlock>,
    pub return_type: Option<SReturnType>,
    pub where_clause: Option<SWhereClause>,
    pub generics: Option<SGenerics>,
}

pub enum SFuncParam {
    SelfP,
    Typed(Seq<char>, SReturnType),
}

pub struct SFeatureItem {
    pub feature_ident: SPath,
    pub implementation: Option<SPath>,
    pub items: Seq<SItem>,
    pub generics: Option<SGenerics>,
    pub where_clause: Option<SWhereClause>,
}

pub struct SGenerics {
    pub params: Seq<SGenericParam>,
    pub span: Span,
}

pub struct SGenericParam {
    pub identifier: Seq<char>,
    pub constraits: Option<Seq<SReturnType>>,
    pub span: Span,
}

pub struct SWhereClause {
    pub constraits: Seq<SGenericConstrait>,
    pub span: Span,
}

pub struct SGenericConstrait {
    pub identifier: Seq<char>,
    pub constraits: Seq<SReturnType>,
    pub span: Span,
}

pub open spec fn block_view(b: Block) -> SBlock
    decreases b,
{
    SBlock { data: statements_view(b.data@), span: b.span }
}

pub open spec fn names_view(s: Seq<&str>) -> Seq<Seq<char>> {
    Seq::new(s.len(), |i: int| s[i]@)
}

pub open spec fn opt_name_view(s: Option<&str>) -> Option<Seq<char>> {
    match s {
        Some(x) => Some(x@),
        None => None,
    }
}

pub open spec fn path_view(p: Path) -> SPath {
    SPath { identifiers: names_view(p.identifiers@), span: p.span }
}

pub open spec fn opt_path_view(p: Option<Path>) -> Option<SPath> {
    match p {
        Some(x) => Some(path_view(x)),
        None => None,
    }
}

pub open spec fn paths_view(s: Seq<Path>) -> Seq<SPath> {
    Seq::new(s.len(), |i: int| path_view(s[i]))
}

pub open spec fn return_type_view(r: ReturnType) -> SReturnType
    decreases r,
{
    SReturnType { kind: return_type_kind_view(r.kind), span: r.span }
}

pub open spec fn opt_return_type_view(r: Option<ReturnType>) -> Option<SReturnType>
    decreases r,
{
    match r {
        Some(x) => Some(return_type_view(x)),
        None => None,
    }
}

pub open spec fn return_type_kind_view(k: ReturnTypeKind) -> SReturnTypeKind
    decreases k,
{
    match k {
        ReturnTypeKind::Path(p) => SReturnTypeKind::Path(path_view(p)),
        ReturnTypeKind::Tuple(v) => SReturnTypeKind::Tuple(return_types_view(v@)),
        ReturnTypeKind::Array(b) => SReturnTypeKind::Array(Box::new(return_type_view(*b))),
        ReturnTypeKind::Nullable(b) => SReturnTypeKind::Nullable(Box::new(return_type_view(*b))),
        ReturnTypeKind::Generic(b, v) => SReturnTypeKind::Generic(
            Box::new(return_type_view(*b)),
            return_types_view(v@),
        ),
    }
}

pub open spec fn return_types_view(s: Seq<ReturnType>) -> Seq<SReturnType>
    decreases s,
{
    if s.len() == 0 {
        Seq::empty()
    } else {
        return_types_view(s.subrange(0, s.len() - 1)).push(return_type_view(s[s.len() - 1]))
    }
}

pub proof fn lemma_return_types_push(s: Seq<ReturnType>, x: ReturnType)
    ensures
        return_types_view(s.push(x)) == return_types_view(s).push(return_type_view(x)),
{
    assert(s.push(x).subrange(0, s.len() as int) =~= s);
}

pub open spec fn generic_param_view(g: GenericParam) -> SGenericParam {
    SGenericParam {
        identifier: g.identifier@,
        constraits: match g.constraits {
            Some(v) => Some(return_types_view(v@)),
            None => None,
        },
        span: g.span,
    }
}

pub open spec fn generic_params_view(s: Seq<GenericParam>) -> Seq<SGenericParam> {
    Seq::new(s.len(), |i: int| generic_param_view(s[i]))
}

pub open spec fn opt_generics_view(g: Option<Generics>) -> Option<SGenerics> {
    match g {
        Some(x) => Some(SGenerics { params: generic_params_view(x.params@), span: x.span }),
        None => None,
    }
}

pub open spec fn generic_constrait_view(g: GenericConstrait) -> SGenericConstrait {
    SGenericConstrait {
        identifier: g.identifier@,
        constraits: return_types_view(g.constraits@),
        span: g.span,
    }
}

pub open spec fn generic_constraits_view(s: Seq<GenericConstrait>) -> Seq<SGenericConstrait> {
    Seq::new(s.len(), |i: int| generic_constrait_view(s[i]))
}

pub open spec fn opt_where_view(w: Option<WhereClause>) -> Option<SWhereClause> {
    match w {
        Some(x) => Some(
            SWhereClause { constraits: generic_constraits_view(x.constraits@), span: x.span },
        ),
        None => None,
    }
}

pub open spec fn enum_member_view(m: EnumMember) -> SEnumMember {
    SEnumMember { identifier: m.identifier@, default_value: opt_expr_view(m.default_value) }
}

pub open spec fn enum_members_view(s: Seq<EnumMember>) -> Seq<SEnumMember> {
    Seq::new(s.len(), |i: int| enum_member_view(s[i]))
}

pub open spec fn config_member_view(m: ConfigMember) -> SConfigMember {
    SConfigMember { identifier: m.identifier@, expression: expr_view(m.expression) }
}

pub open spec fn config_members_view(s: Seq<ConfigMember>) -> Seq<SConfigMember> {
    Seq::new(s.len(), |i: int| config_member_view(s[i]))
}

pub open spec fn func_param_view(p: FuncParam) -> SFuncParam {
    match p {
        FuncParam::SelfP => SFuncParam::SelfP,
        FuncParam::Typed(n, r) => SFuncParam::Typed(n@, return_type_view(r)),
    }
}

pub open spec fn func_params_view(s: Seq<FuncParam>) -> Seq<SFuncParam> {
    Seq::new(s.len(), |i: int| func_param_view(s[i]))
}

pub open spec fn item_view(i: Item) -> SItem
    decreases i,
{
    SItem { kind: item_kind_view(i.kind), span: i.span }
}

pub open spec fn item_kind_view(k: ItemKind) -> SItemKind
    decreases k,
{
    match k {
        ItemKind::Enum(e) => SItemKind::Enum(
            e.identifier@,
            enum_members_view(e.items@),
            e.flags,
            opt_return_type_view(e.derived_type),
        ),
        ItemKind::Struct(s) => SItemKind::Struct(
            SStructItem {
                identifier: s.identifier@,
                tuple_members: return_types_view(s.tuple_members@),
                generics: opt_generics_view(s.generics),
                where_clause: opt_where_view(s.where_clause),
                items: items_view(s.items@),
            },
        ),
        ItemKind::Field(f) => SItemKind::Field(f.identifier@, return_type_view(f.return_type)),
        ItemKind::Config(c) => SItemKind::Config(config_members_view(c.members@)),
        ItemKind::Const(c) => SItemKind::Const(
            c.identifier@,
            return_type_view(c.return_type),
            expr_view(c.eq),
        ),
        ItemKind::Func(f) => SItemKind::Func(
            SFuncItem {
                identifier: f.identifier@,
                params: func_params_view(f.params@),
                block: match f.block {
                    Some(b) => Some(block_view(b)),
                    None => None,
                },
                return_type: opt_return_type_view(f.return_type),
                where_clause: opt_where_view(f.where_clause),
                generics: opt_generics_view(f.generics),
            },
        ),
        ItemKind::Sig(s) => SItemKind::Sig(opt_return_type_view(s.sig_type), s.identifier@),
        ItemKind::Import(i) => SItemKind::Import(path_view(i.path), opt_name_view(i.alias)),
        ItemKind::Feature(f) => SItemKind::Feature(
            SFeatureItem {
                feature_ident: path_view(f.feature_ident),
                implementation: opt_path_view(f.implementation),
                items: items_view(f.items@),
                generics: opt_generics_view(f.generics),
                where_clause: opt_where_view(f.where_clause),
            },
        ),
        ItemKind::Statement(s) => SItemKind::Statement(crate::ast::statement::statement_view(s)),
        ItemKind::Visible(v, i) => SItemKind::Visible(v, Box::new(item_view(*i))),
        ItemKind::AttributeCollectedItem(attrs, i) => SItemKind::AttributeCollectedItem(
            paths_view(attrs@),
            Box::new(item_view(*i)),
        ),
    }
}

pub open spec fn items_view(s: Seq<Item>) -> Seq<SItem>
    decreases s,
{
    if s.len() == 0 {
        Seq::empty()
    } else {
        items_view(s.subrange(0, s.len() - 1)).push(item_view(s[s.len() - 1]))
    }
}

pub proof fn lemma_items_push(s: Seq<Item>, x: Item)
    ensures
        items_view(s.push(x)) == items_view(s).push(item_view(x)),
{
    assert(s.push(x).subrange(0, s.len() as int) =~= s);
}

/// The abstract value of an optional type name (without recursion of its
/// own).
pub open spec fn maybe_return_type_view(r: Option<ReturnType>) -> Option<SReturnType> {
    match r {
        Some(x) => Some(return_type_view(x)),
        None => None,
    }
}

/// The abstract value of an enumeration member.
pub proof fn lemma_enum_member_view(m: EnumMember)
    ensures
        enum_member_view(m) == (SEnumMember {
            identifier: m.identifier@,
            default_value: crate::ast::expression::maybe_expr_view(m.default_value),
        }),
{
    assert(opt_expr_view(m.default_value) == crate::ast::expression::maybe_expr_view(
        m.default_value,
    ));
}

/// The abstract value of an item, one level down.
pub proof fn lemma_item_view_shape(i: Item)
    ensures
        item_view(i).span == i.span,
        i.kind matches ItemKind::Enum(e) ==> item_view(i).kind == SItemKind::Enum(
            e.identifier@,
            enum_members_view(e.items@),
            e.flags,
            maybe_return_type_view(e.derived_type),
        ),
        i.kind matches ItemKind::Struct(x) ==> item_view(i).kind == SItemKind::Struct(
            SStructItem {
                identifier: x.identifier@,
                tuple_members: return_types_view(x.tuple_members@),
                generics: opt_generics_view(x.generics),
                where_clause: opt_where_view(x.where_clause),
                items: items_view(x.items@),
            },
        ),
        i.kind matches ItemKind::Field(f) ==> item_view(i).kind == SItemKind::Field(
            f.identifier@,
            return_type_view(f.return_type),
        ),
        i.kind matches ItemKind::Config(c) ==> item_view(i).kind == SItemKind::Config(
            config_members_view(c.members@),
        ),
        i.kind matches ItemKind::Func(f) ==> item_view(i).kind == SItemKind::Func(
            SFuncItem {
                identifier: f.identifier@,
                params: func_params_view(f.params@),
                block: match f.block {
                    Some(b) => Some(block_view(b)),
                    None => None,
                },
                return_type: maybe_return_type_view(f.return_type),
                where_clause: opt_where_view(f.where_clause),
                generics: opt_generics_view(f.generics),
            },
        ),
        i.kind matches ItemKind::Sig(x) ==> item_view(i).kind == SItemKind::Sig(
            maybe_return_type_view(x.sig_type),
            x.identifier@,
        ),
        i.kind matches ItemKind::Import(x) ==> item_view(i).kind == SItemKind::Import(
            path_view(x.path),
            opt_name_view(x.alias),
        ),
        i.kind matches ItemKind::Feature(f) ==> item_view(i).kind == SItemKind::Feature(
            SFeatureItem {
                feature_ident: path_view(f.feature_ident),
                implementation: opt_path_view(f.implementation),
                items: items_view(f.items@),
                generics: opt_generics_view(f.generics),
                where_clause: opt_where_view(f.where_clause),
            },
        ),
        i.kind matches ItemKind::Statement(x) ==> item_view(i).kind == SItemKind::Statement(
            crate::ast::statement::statement_view(x),
        ),
        i.kind matches ItemKind::Visible(v, x) ==> item_view(i).kind == SItemKind::Visible(
            v,
            Box::new(item_view(*x)),
        ),
        i.kind matches ItemKind::AttributeCollectedItem(a, x) ==> item_view(i).kind
            == SItemKind::AttributeCollectedItem(paths_view(a@), Box::new(item_view(*x))),
{
    match i.kind {
        ItemKind::Enum(e) => {
            assert(opt_return_type_view(e.derived_type) == maybe_return_type_view(e.derived_type));
        },
        ItemKind::Func(f) => {
            assert(opt_return_type_view(f.return_type) == maybe_return_type_view(f.return_type));
        },
        ItemKind::Sig(x) => {
            assert(opt_return_type_view(x.sig_type) == maybe_return_type_view(x.sig_type));
        },
        _ => {},
    }
}

/// The abstract value of a list of type names has its length, and ends
/// with the value of its last element.
pub proof fn lemma_return_types_last(s: Seq<ReturnType>)
    ensures
        return_types_view(s).len() == s.len(),
        s.len() > 0 ==> return_types_view(s).last() == return_type_view(s.last()),
    decreases s.len(),
{
    if s.len() > 0 {
        lemma_return_types_last(s.subrange(0, s.len() - 1));
    }
}

/// The abstract value of no items.
pub proof fn lemma_items_empty()
    ensures
        items_view(Seq::<Item>::empty()) == Seq::<SItem>::empty(),
        return_types_view(Seq::<ReturnType>::empty()) == Seq::<SReturnType>::empty(),
{
}

} // verus!
