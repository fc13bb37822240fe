use ezscn::ast::expression::{Expression, ExpressionKind, LiteralExpression};
use ezscn::ast::statement::StatementKind;
use ezscn::ast::{FuncParam, Item, ItemKind, Path, ReturnType, ReturnTypeKind, VisibilityModifiers};
use ezscn::error::ParseErrorKind;
use ezscn::parser::items::{item, struct_item};
use ezscn::parser::Parser;
use ezscn::tokens::{Span, SpanImpl, TokenKind};

fn path_names<'a>(p: &Path<'a>) -> Vec<&'a str> {
    p.identifiers.clone()
}

fn type_path<'a>(t: &ReturnType<'a>) -> Vec<&'a str> {
    match &t.kind {
        ReturnTypeKind::Path(p) => path_names(p),
        other => panic!("expected a path type, got {:?}", other),
    }
}

fn parse_all(text: &str) -> (Vec<Item<'_>>, Parser<'_>) {
    let mut parser = Parser::new(text);
    let mut items = Vec::new();
    while let Some(i) = item(&mut parser) {
        items.push(i);
    }
    (items, parser)
}

#[test]
fn enum_item_with_members() {
    let text = "enum flags Color: u8 { Red, Green = 2, Blue }";
    let (items, parser) = parse_all(text);
    assert!(parser.errors().is_empty());
    assert_eq!(items.len(), 1);
    assert_eq!(items[0].span, Span::new(0, text.len()));
    match &items[0].kind {
        ItemKind::Enum(e) => {
            assert_eq!(e.identifier, "Color");
            assert!(e.flags);
            assert_eq!(type_path(e.derived_type.as_ref().unwrap()), vec!["u8"]);
            let names: Vec<&str> = e.items.iter().map(|m| m.identifier).collect();
            assert_eq!(names, vec!["Red", "Green", "Blue"]);
            assert!(e.items[0].default_value.is_none());
            assert!(matches!(
                e.items[1].default_value,
                Some(Expression { kind: ExpressionKind::Literal(LiteralExpression::Integer(2)), .. })
            ));
        },
        other => panic!("expected an enum, got {:?}", other),
    }
}

#[test]
fn enum_item_plain() {
    let (items, parser) = parse_all("enum E {}");
    assert!(parser.errors().is_empty());
    match &items[0].kind {
        ItemKind::Enum(e) => {
            assert_eq!(e.identifier, "E");
            assert!(!e.flags);
            assert!(e.derived_type.is_none());
            assert!(e.items.is_empty());
        },
        other => panic!("expected an enum, got {:?}", other),
    }
}

#[test]
fn struct_item_with_fields() {
    let text = "struct Point[T: Num] (T, T) { local x: T; local y: T; }";
    let (items, parser) = parse_all(text);
    assert!(parser.errors().is_empty());
    assert_eq!(items.len(), 1);
    assert_eq!(items[0].span, Span::new(0, text.len()));
    match &items[0].kind {
        ItemKind::Struct(s) => {
            assert_eq!(s.identifier, "Point");
            let generics = s.generics.as_ref().unwrap();
            assert_eq!(generics.params.len(), 1);
            assert_eq!(generics.params[0].identifier, "T");
            assert_eq!(generics.params[0].constraits.as_ref().unwrap().len(), 1);
            assert!(s.where_clause.is_none());
            assert_eq!(s.tuple_members.len(), 2);
            assert_eq!(s.items.len(), 2);
            match &s.items[1].kind {
                ItemKind::Field(f) => {
                    assert_eq!(f.identifier, "y");
                    assert_eq!(type_path(&f.return_type), vec!["T"]);
                },
                other => panic!("expected a field, got {:?}", other),
            }
        },
        other => panic!("expected a struct, got {:?}", other),
    }
}

#[test]
fn struct_item_with_semicolon() {
    let (items, parser) = parse_all("struct Unit;");
    assert!(parser.errors().is_empty());
    assert_eq!(items[0].span, Span::new(0, 12));
    match &items[0].kind {
        ItemKind::Struct(s) => {
            assert_eq!(s.identifier, "Unit");
            assert!(s.items.is_empty());
            assert!(s.tuple_members.is_empty());
            assert!(s.generics.is_none());
        },
        other => panic!("expected a struct, got {:?}", other),
    }
}

#[test]
fn struct_item_skips_invalid_body_token() {
    let mut parser = Parser::new("struct S + ;");
    let s = struct_item(&mut parser);
    assert!(matches!(s, Some(Item { kind: ItemKind::Struct(_), .. })));
    assert_eq!(parser.errors().len(), 1);
    assert_eq!(parser.errors()[0].kind(), ParseErrorKind::InvalidStructToken(TokenKind::Plus));
    assert_eq!(parser.errors()[0].span(), Span::new(9, 10));
    assert_eq!(parser.errors()[0].line(), 0);
}

#[test]
fn struct_item_skips_to_identifier() {
    let mut parser = Parser::new("struct + S;");
    let s = struct_item(&mut parser);
    match s {
        Some(Item { kind: ItemKind::Struct(s), .. }) => assert_eq!(s.identifier, "S"),
        other => panic!("expected a struct, got {:?}", other),
    }
    assert_eq!(parser.errors().len(), 1);
    assert_eq!(
        parser.errors()[0].kind(),
        ParseErrorKind::InvalidToken(TokenKind::Identifier, TokenKind::Plus)
    );
}

#[test]
fn struct_item_at_end_of_text() {
    let mut parser = Parser::new("struct S");
    assert!(struct_item(&mut parser).is_none());
    assert!(parser.errors().is_empty());
    assert!(parser.reached_eof());
}

#[test]
fn func_item_with_body() {
    let text = "func add(self, a: int, b: int[]): int? { return a; }";
    let (items, parser) = parse_all(text);
    assert!(parser.errors().is_empty());
    assert_eq!(items.len(), 1);
    assert_eq!(items[0].span, Span::new(0, text.len()));
    match &items[0].kind {
        ItemKind::Func(f) => {
            assert_eq!(f.identifier, "add");
            assert_eq!(f.params.len(), 3);
            assert!(matches!(f.params[0], FuncParam::SelfP));
            match &f.params[1] {
                FuncParam::Typed(n, t) => {
                    assert_eq!(*n, "a");
                    assert_eq!(type_path(t), vec!["int"]);
                },
                other => panic!("expected a typed parameter, got {:?}", other),
            }
            match &f.params[2] {
                FuncParam::Typed(n, ReturnType { kind: ReturnTypeKind::Array(inner), .. }) => {
                    assert_eq!(*n, "b");
                    assert_eq!(type_path(inner), vec!["int"]);
                },
                other => panic!("expected an array parameter, got {:?}", other),
            }
            match &f.return_type {
                Some(ReturnType { kind: ReturnTypeKind::Nullable(inner), .. }) => {
                    assert_eq!(type_path(inner), vec!["int"])
                },
                other => panic!("expected a nullable type, got {:?}", other),
            }
            let block = f.block.as_ref().unwrap();
            assert_eq!(block.data.len(), 1);
            assert!(matches!(block.data[0].kind, StatementKind::Return(Some(_))));
        },
        other => panic!("expected a function, got {:?}", other),
    }
}

#[test]
fn func_item_without_body() {
    let text = "func f[T](x: T) where T: Clone + Eq;";
    let (items, parser) = parse_all(text);
    assert!(parser.errors().is_empty());
    assert_eq!(items[0].span, Span::new(0, text.len()));
    match &items[0].kind {
        ItemKind::Func(f) => {
            assert_eq!(f.identifier, "f");
            assert!(f.block.is_none());
            assert!(f.return_type.is_none());
            assert_eq!(f.generics.as_ref().unwrap().params[0].identifier, "T");
            assert!(f.generics.as_ref().unwrap().params[0].constraits.is_none());
            let w = f.where_clause.as_ref().unwrap();
            assert_eq!(w.constraits.len(), 1);
            assert_eq!(w.constraits[0].identifier, "T");
            let bounds: Vec<Vec<&str>> = w.constraits[0].constraits.iter().map(type_path).collect();
            assert_eq!(bounds, vec![vec!["Clone"], vec!["Eq"]]);
        },
        other => panic!("expected a function, got {:?}", other),
    }
}

#[test]
fn sig_items() {
    let (items, parser) = parse_all("sig [Map[K, V]] handler; sig plain;");
    assert!(parser.errors().is_empty());
    assert_eq!(items.len(), 2);
    match &items[0].kind {
        ItemKind::Sig(s) => {
            assert_eq!(s.identifier, "handler");
            match &s.sig_type {
                Some(ReturnType { kind: ReturnTypeKind::Generic(base, params), .. }) => {
                    assert_eq!(type_path(base), vec!["Map"]);
                    let ps: Vec<Vec<&str>> = params.iter().map(type_path).collect();
                    assert_eq!(ps, vec![vec!["K"], vec!["V"]]);
                },
                other => panic!("expected a generic type, got {:?}", other),
            }
        },
        other => panic!("expected a signal, got {:?}", other),
    }
    match &items[1].kind {
        ItemKind::Sig(s) => {
            assert_eq!(s.identifier, "plain");
            assert!(s.sig_type.is_none());
        },
        other => panic!("expected a signal, got {:?}", other),
    }
}

#[test]
fn import_items() {
    let (items, parser) = parse_all("import std::io as io2; import a;");
    assert!(parser.errors().is_empty());
    assert_eq!(items.len(), 2);
    assert_eq!(items[0].span, Span::new(0, 22));
    match &items[0].kind {
        ItemKind::Import(i) => {
            assert_eq!(path_names(&i.path), vec!["std", "io"]);
            assert_eq!(i.path.span, Span::new(7, 14));
            assert_eq!(i.alias, Some("io2"));
        },
        other => panic!("expected an import, got {:?}", other),
    }
    match &items[1].kind {
        ItemKind::Import(i) => {
            assert_eq!(path_names(&i.path), vec!["a"]);
            assert!(i.alias.is_none());
        },
        other => panic!("expected an import, got {:?}", other),
    }
}

#[test]
fn config_item_members() {
    let (items, parser) = parse_all("config { a = 1, b = true }");
    assert!(parser.errors().is_empty());
    match &items[0].kind {
        ItemKind::Config(c) => {
            let names: Vec<&str> = c.members.iter().map(|m| m.identifier).collect();
            assert_eq!(names, vec!["a", "b"]);
            assert!(matches!(
                c.members[1].expression.kind,
                ExpressionKind::Literal(LiteralExpression::Bool(true))
            ));
        },
        other => panic!("expected a config, got {:?}", other),
    }
}

#[test]
fn feature_item_with_implementation() {
    let text = "feature Show[T] for Point where T: Show { func show(self); }";
    let (items, parser) = parse_all(text);
    assert!(parser.errors().is_empty());
    assert_eq!(items[0].span, Span::new(0, text.len()));
    match &items[0].kind {
        ItemKind::Feature(f) => {
            assert_eq!(path_names(&f.feature_ident), vec!["Show"]);
            assert_eq!(path_names(f.implementation.as_ref().unwrap()), vec!["Point"]);
            assert!(f.generics.is_some());
            assert_eq!(f.where_clause.as_ref().unwrap().constraits.len(), 1);
            assert_eq!(f.items.len(), 1);
            assert!(matches!(f.items[0].kind, ItemKind::Func(_)));
        },
        other => panic!("expected a feature, got {:?}", other),
    }
}

#[test]
fn public_item() {
    let (items, parser) = parse_all("pub func f();");
    assert!(parser.errors().is_empty());
    assert_eq!(items[0].span, Span::new(0, 13));
    match &items[0].kind {
        ItemKind::Visible(VisibilityModifiers::Public, inner) => {
            assert!(matches!(inner.kind, ItemKind::Func(_)));
            assert_eq!(inner.span, Span::new(4, 13));
        },
        other => panic!("expected a public item, got {:?}", other),
    }
}

#[test]
fn attribute_collected_item() {
    let (items, parser) = parse_all("#derive, inline\nfunc f();");
    assert!(parser.errors().is_empty());
    assert_eq!(items.len(), 1);
    match &items[0].kind {
        ItemKind::AttributeCollectedItem(attrs, inner) => {
            let names: Vec<Vec<&str>> = attrs.iter().map(path_names).collect();
            assert_eq!(names, vec![vec!["derive"], vec!["inline"]]);
            assert!(matches!(inner.kind, ItemKind::Func(_)));
        },
        other => panic!("expected an attributed item, got {:?}", other),
    }
}

#[test]
fn items_in_sequence() {
    let (items, parser) = parse_all("local x: int; 5; import a;");
    assert!(parser.errors().is_empty());
    assert_eq!(items.len(), 3);
    assert!(matches!(items[0].kind, ItemKind::Field(_)));
    assert!(matches!(items[1].kind, ItemKind::Statement(_)));
    assert!(matches!(items[2].kind, ItemKind::Import(_)));
}
