use ezscn::ast::statement::{ForLoopStatement, IdentifierOrUnderscore, Statement, StatementKind};
use ezscn::ast::{Item, ItemKind};
use ezscn::parser::Parser;
use ezscn::parser::items::statement_item;

fn statement_kind<'t>(item: Option<Item<'t>>) -> StatementKind<'t> {
    match item {
        Some(Item { kind: ItemKind::Statement(Statement { kind, .. }), .. }) => kind,
        other => panic!("expected a statement, got {:?}", other),
    }
}

fn names(ids: &[IdentifierOrUnderscore<'_>]) -> Vec<Option<String>> {
    ids.iter()
        .map(|i| match i {
            IdentifierOrUnderscore::Identifier(s) => Some(s.to_string()),
            IdentifierOrUnderscore::Underscore => None,
        })
        .collect()
}

fn name(s: &str) -> Option<String> {
    Some(s.to_string())
}

#[test]
fn expression_statement() {
    let mut parser = Parser::new("5;6;e;hello();ereturn");

    for _ in 0..4 {
        assert!(matches!(statement_kind(statement_item(&mut parser)), StatementKind::Expression(_, false)));
    }
    assert!(matches!(statement_kind(statement_item(&mut parser)), StatementKind::Expression(_, true)));
    assert!(parser.errors().is_empty());
}

#[test]
fn return_statement() {
    let mut parser = Parser::new("return 5; return 6; return 7; return;return");

    for _ in 0..3 {
        assert!(matches!(statement_kind(statement_item(&mut parser)), StatementKind::Return(Some(_))));
    }
    assert!(matches!(statement_kind(statement_item(&mut parser)), StatementKind::Return(None)));
    assert!(parser.errors().is_empty());
    assert!(statement_item(&mut parser).is_none());
    assert!(parser.reached_eof());
}

#[test]
fn let_statement() {
    let mut parser = Parser::new(
        "let c = 7; let (c, d) = 8; let i; let (_, _r, g) = -1; let s: (); let c: () = 0;",
    );

    match statement_kind(statement_item(&mut parser)) {
        StatementKind::Let(ids, None, Some(_)) => assert_eq!(names(&ids), vec![name("c")]),
        other => panic!("unexpected {:?}", other),
    }
    match statement_kind(statement_item(&mut parser)) {
        StatementKind::Let(ids, None, Some(_)) => assert_eq!(names(&ids), vec![name("c"), name("d")]),
        other => panic!("unexpected {:?}", other),
    }
    match statement_kind(statement_item(&mut parser)) {
        StatementKind::Let(ids, None, None) => assert_eq!(names(&ids), vec![name("i")]),
        other => panic!("unexpected {:?}", other),
    }
    match statement_kind(statement_item(&mut parser)) {
        StatementKind::Let(ids, None, Some(_)) => {
            assert_eq!(names(&ids), vec![None, name("_r"), name("g")])
        },
        other => panic!("unexpected {:?}", other),
    }
    match statement_kind(statement_item(&mut parser)) {
        StatementKind::Let(ids, Some(_), None) => assert_eq!(names(&ids), vec![name("s")]),
        other => panic!("unexpected {:?}", other),
    }
    match statement_kind(statement_item(&mut parser)) {
        StatementKind::Let(ids, Some(_), Some(_)) => assert_eq!(names(&ids), vec![name("c")]),
        other => panic!("unexpected {:?}", other),
    }
    assert!(parser.errors().is_empty());
    assert!(parser.reached_eof());
}

fn for_names(item: Option<Item<'_>>) -> Vec<Option<String>> {
    match statement_kind(item) {
        StatementKind::ForLoop(ForLoopStatement { identifiers, .. }) => names(&identifiers),
        other => panic!("expected a for loop, got {:?}", other),
    }
}

#[test]
fn for_statement() {
    let mut parser = Parser::new(
        r#"for _ in x { a; } for z in y { b; } for m in n { c; } for (a, b, c) in l { d; }"#,
    );

    assert_eq!(for_names(statement_item(&mut parser)), vec![None]);
    assert_eq!(for_names(statement_item(&mut parser)), vec![name("z")]);
    assert_eq!(for_names(statement_item(&mut parser)), vec![name("m")]);
    assert_eq!(for_names(statement_item(&mut parser)), vec![name("a"), name("b"), name("c")]);
    assert!(parser.errors().is_empty());
    assert!(parser.reached_eof());
}

#[test]
fn while_statement() {
    let mut parser = Parser::new(r#"while x { a; } while y { b; } while z { c; }"#);

    for _ in 0..3 {
        assert!(matches!(statement_kind(statement_item(&mut parser)), StatementKind::WhileLoop(..)));
    }
    assert!(parser.errors().is_empty());
    assert!(parser.reached_eof());
}

#[test]
fn break_statement() {
    let mut parser = Parser::new("break; break");

    assert!(matches!(statement_kind(statement_item(&mut parser)), StatementKind::Break));
    assert!(parser.errors().is_empty());
    assert!(statement_item(&mut parser).is_none());
    assert!(parser.reached_eof());
}

#[test]
fn continue_statement() {
    let mut parser = Parser::new("continue; continue");

    assert!(matches!(statement_kind(statement_item(&mut parser)), StatementKind::Continue));
    assert!(parser.errors().is_empty());
    assert!(statement_item(&mut parser).is_none());
    assert!(parser.reached_eof());
}
