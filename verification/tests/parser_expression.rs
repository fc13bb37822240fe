use ezscn::ast::expression::{
    AccessExpression, AssignmentOperator, BinaryOperator, ClosureParam, ComparisionOperator,
    ConditionalOperator, EqualityOperator, Expression, ExpressionKind, LiteralExpression,
    LogicalOperator, MatchArm, NewExprType, PostOperator, UnaryOperator,
};
use ezscn::parser::Parser;

fn done(parser: &mut Parser<'_>) {
    assert!(parser.expression().is_none());
    assert!(parser.errors().is_empty());
    assert!(parser.reached_eof());
}

fn integer(e: Option<&Expression<'_>>, v: u128) -> bool {
    matches!(e, Some(Expression { kind: ExpressionKind::Literal(LiteralExpression::Integer(x)), .. }) if *x == v)
}

fn identifier(e: &Expression<'_>, name: &str) -> bool {
    matches!(e, Expression { kind: ExpressionKind::Access(AccessExpression::Identifier(x)), .. } if *x == name)
}

fn self_access(e: &Expression<'_>) -> bool {
    matches!(e, Expression { kind: ExpressionKind::Access(AccessExpression::SelfAccess), .. })
}

fn binary(e: Expression<'_>, op: BinaryOperator) -> (Expression<'_>, Expression<'_>) {
    match e {
        Expression { kind: ExpressionKind::Binary(l, o, r), .. } if o == op => (*l, *r),
        other => panic!("expected a binary expression, got {:?}", other),
    }
}

fn call(e: Expression<'_>) -> (Expression<'_>, Vec<Expression<'_>>) {
    match e {
        Expression { kind: ExpressionKind::Call(l, args), .. } => (*l, args),
        other => panic!("expected a call, got {:?}", other),
    }
}

fn index(e: Expression<'_>) -> (Expression<'_>, Vec<Expression<'_>>) {
    match e {
        Expression { kind: ExpressionKind::Index(l, args), .. } => (*l, args),
        other => panic!("expected an index, got {:?}", other),
    }
}

fn reference(e: Expression<'_>) -> (Expression<'_>, Expression<'_>) {
    match e {
        Expression { kind: ExpressionKind::Reference(l, r), .. } => (*l, *r),
        other => panic!("expected a member access, got {:?}", other),
    }
}

#[test]
fn primary_access_expression() {
    let mut parser = Parser::new("self ident _ident $ident @ident");

    assert!(self_access(&parser.expression().unwrap()));
    assert!(identifier(&parser.expression().unwrap(), "ident"));
    assert!(identifier(&parser.expression().unwrap(), "_ident"));
    assert!(identifier(&parser.expression().unwrap(), "$ident"));
    assert!(identifier(&parser.expression().unwrap(), "@ident"));
    done(&mut parser);
}

fn matches_literal_list(values: &[Expression<'_>]) -> bool {
    let mut iter = values.iter();
    assert!(integer(iter.next(), 94));
    assert!(integer(iter.next(), 23));
    assert!(integer(iter.next(), 3214));
    assert!(integer(iter.next(), 25));
    assert!(integer(iter.next(), 654745));
    assert!(matches!(iter.next(), Some(Expression { kind: ExpressionKind::Array(t), .. }) if t.is_empty()));
    assert!(iter.next().is_none());
    true
}

#[test]
fn primary_tuple_expression() {
    let mut parser = Parser::new("(094,23,3214,25,654745,[],)");

    assert!(matches!(parser.expression(), Some(Expression { kind: ExpressionKind::Tuple(e), .. }) if matches_literal_list(&e)));
    done(&mut parser);
}

#[test]
fn empty_tuple_expression() {
    let mut parser = Parser::new("()");

    assert!(matches!(parser.expression(), Some(Expression { kind: ExpressionKind::Tuple(e), .. }) if e.is_empty()));
    done(&mut parser);
}

#[test]
fn primary_array_expression() {
    let mut parser = Parser::new("[094,23,3214,25,654745,[]]");

    assert!(matches!(parser.expression(), Some(Expression { kind: ExpressionKind::Array(e), .. }) if matches_literal_list(&e)));
    done(&mut parser);
}

#[test]
fn empty_array_expression() {
    let mut parser = Parser::new("[]");

    assert!(matches!(parser.expression(), Some(Expression { kind: ExpressionKind::Array(e), .. }) if e.is_empty()));
    done(&mut parser);
}

fn matches_string(e: Option<Expression<'_>>, expected: &str) {
    assert!(matches!(e, Some(Expression { kind: ExpressionKind::Literal(LiteralExpression::String(s)), .. }) if s == expected));
}

#[test]
fn primary_string_literal_expression() {
    let mut parser = Parser::new(
        r#"
            "" "ezscn" "escaped ezscn \t\t\n"
                r"raw ezscn \ \ \\ \\\\ \e\e" m"ez
                scn"m mr"wtf"m MR"tf"m rm"TFF"m RM"pat"m
                "#,
    );

    matches_string(parser.expression(), "");
    matches_string(parser.expression(), "ezscn");
    matches_string(parser.expression(), "escaped ezscn \t\t\n");
    matches_string(parser.expression(), r#"raw ezscn \ \ \\ \\\\ \e\e"#);
    matches_string(parser.expression(), "ez\n                scn");
    matches_string(parser.expression(), "wtf");
    matches_string(parser.expression(), "tf");
    matches_string(parser.expression(), "TFF");
    matches_string(parser.expression(), "pat");
    done(&mut parser);
}

fn matches_char(e: Option<Expression<'_>>, expected: char) {
    assert!(matches!(e, Some(Expression { kind: ExpressionKind::Literal(LiteralExpression::Char(c)), .. }) if c == expected));
}

#[test]
fn primary_char_literal_expression() {
    let mut parser = Parser::new(
        r#"'a' '!' 'ş' '\a' '\b' '\e' '\f' '\n'
            '\r' '\t' '\v' '\\' '\?' '\"' '\xF' '\x1111'
            '\uFFFF' '\U0010FFFE'"#,
    );

    matches_char(parser.expression(), 'a');
    matches_char(parser.expression(), '!');
    matches_char(parser.expression(), 'ş');
    matches_char(parser.expression(), 0x07 as char);
    matches_char(parser.expression(), 0x08 as char);
    matches_char(parser.expression(), 0x1B as char);
    matches_char(parser.expression(), 0x0C as char);
    matches_char(parser.expression(), '\n');
    matches_char(parser.expression(), '\r');
    matches_char(parser.expression(), '\t');
    matches_char(parser.expression(), 0x0B as char);
    matches_char(parser.expression(), '\\');
    matches_char(parser.expression(), 0x3F as char);
    matches_char(parser.expression(), '\"');
    matches_char(parser.expression(), '\u{F}');
    matches_char(parser.expression(), '\u{1111}');
    matches_char(parser.expression(), '\u{FFFF}');
    matches_char(parser.expression(), '\u{10FFFE}');
    done(&mut parser);
}

#[test]
fn primary_integer_literal_expression() {
    let mut parser = Parser::new("0 2 43278493287 4277894234 7532412832198 54743758934981 48481881818818");

    for v in [0u128, 2, 43278493287, 4277894234, 7532412832198, 54743758934981, 48481881818818] {
        assert!(integer(parser.expression().as_ref(), v));
    }
    done(&mut parser);
}

fn matches_float(e: Option<Expression<'_>>, expected: f64) {
    match e {
        Some(Expression { kind: ExpressionKind::Literal(LiteralExpression::Floating(text)), .. }) => {
            assert_eq!(text.parse::<f64>().unwrap(), expected);
        },
        other => panic!("expected a floating literal, got {:?}", other),
    }
}

#[test]
fn primary_float_literal_expression() {
    let mut parser = Parser::new(
        "0.33 0.312321 0.3214123567 0.4234235E+1 0.43325723985734895e-1 0.423742374e-1321321 0.1e-1",
    );

    matches_float(parser.expression(), 0.33);
    matches_float(parser.expression(), 0.312321);
    matches_float(parser.expression(), 0.3214123567);
    matches_float(parser.expression(), 0.4234235E+1);
    matches_float(parser.expression(), 0.43325723985734895e-1);
    matches_float(parser.expression(), 0.0);
    matches_float(parser.expression(), 0.1e-1);
    done(&mut parser);
}

#[test]
fn primary_boolean_literal_expression() {
    let mut parser = Parser::new("true false false true");

    for b in [true, false, false, true] {
        assert!(matches!(parser.expression(), Some(Expression { kind: ExpressionKind::Literal(LiteralExpression::Bool(x)), .. }) if x == b));
    }
    done(&mut parser);
}

#[test]
fn primary_null_literal_expression() {
    let mut parser = Parser::new("null null null");

    for _ in 0..3 {
        assert!(matches!(parser.expression(), Some(Expression { kind: ExpressionKind::Literal(LiteralExpression::Null), .. })));
    }
    done(&mut parser);
}

fn arm_with(arm: Option<&MatchArm<'_>>, pattern: Option<&str>, guard: Option<&str>) -> bool {
    let arm = arm.unwrap();
    let pattern_ok = match (&arm.expression, pattern) {
        (Some(e), Some(name)) => identifier(e, name),
        (None, None) => true,
        _ => false,
    };
    let guard_ok = match (&arm.if_clause, guard) {
        (Some(e), Some(name)) => identifier(e, name),
        (None, None) => true,
        _ => false,
    };
    pattern_ok && guard_ok && arm.block.data.len() == 1
}

#[test]
fn primary_match_expression() {
    let mut parser = Parser::new(
        r#"match x {
                z => 1,
                x => 2,
                y => 3,
                m => {
                    4;
                },
                n if l => 0,
                _ => 0
            }
            "#,
    );

    match parser.expression() {
        Some(Expression { kind: ExpressionKind::Match(matcher, arms), .. }) => {
            assert!(matches!(matcher.kind, ExpressionKind::Access(..)));
            let mut iter = arms.iter();
            assert!(arm_with(iter.next(), Some("z"), None));
            assert!(arm_with(iter.next(), Some("x"), None));
            assert!(arm_with(iter.next(), Some("y"), None));
            assert!(arm_with(iter.next(), Some("m"), None));
            assert!(arm_with(iter.next(), Some("n"), Some("l")));
            assert!(arm_with(iter.next(), None, None));
            assert!(iter.next().is_none());
        },
        other => panic!("expected a match expression, got {:?}", other),
    }
    done(&mut parser);
}

#[test]
fn primary_if_expression() {
    let mut parser = Parser::new(
        r#"
            if x {
                a;
            } else if y {
                b;
            } else if z {
                c;
            } else {
                d;
            }

            if i { e; }

            if l {
                f;
            } else {
                g;
            }

            if k {
                h;
            } else if m {
                k;
            }


            "#,
    );

    assert!(matches!(parser.expression(), Some(Expression { kind: ExpressionKind::If(_, else_if, Some(_)), .. }) if else_if.len() == 2));
    assert!(matches!(parser.expression(), Some(Expression { kind: ExpressionKind::If(_, else_if, None), .. }) if else_if.is_empty()));
    assert!(matches!(parser.expression(), Some(Expression { kind: ExpressionKind::If(_, else_if, Some(_)), .. }) if else_if.is_empty()));
    assert!(matches!(parser.expression(), Some(Expression { kind: ExpressionKind::If(_, else_if, None), .. }) if else_if.len() == 1));
    done(&mut parser);
}

#[test]
fn primary_new_expression() {
    let mut parser = Parser::new(
        r#"
            new EmptyIdent
            new EmptyIdentCBL {}
            new IdentCBLWithInits {
                S = 0,
                I = 2,
                H = 1,
                T = 3,
            }
            new IdentCBLWithOptionalInits {
            a,b,c,d = 5,
            }"#,
    );

    assert!(matches!(parser.expression(), Some(Expression { kind: ExpressionKind::New(_, NewExprType::Zero), .. })));
    assert!(matches!(parser.expression(), Some(Expression { kind: ExpressionKind::New(_, NewExprType::Field(props)), .. }) if props.is_empty()));
    assert!(matches!(parser.expression(), Some(Expression { kind: ExpressionKind::New(_, NewExprType::Field(props)), .. }) if props.len() == 4));
    assert!(matches!(parser.expression(), Some(Expression { kind: ExpressionKind::New(_, NewExprType::Field(props)), .. }) if props.len() == 4));
    done(&mut parser);
}

fn matches_second_closure_params(p: &[ClosureParam<'_>]) -> bool {
    let mut iter = p.iter();
    assert!(matches!(iter.next(), Some(ClosureParam { identifier: "a", return_type: None, .. })));
    assert!(matches!(iter.next(), Some(ClosureParam { identifier: "b", return_type: Some(_), .. })));
    assert!(matches!(iter.next(), Some(ClosureParam { identifier: "c", return_type: None, .. })));
    assert!(iter.next().is_none());
    true
}

#[test]
fn primary_closure_expression() {
    let mut parser = Parser::new("$() => {} $(a, b: X, c) => {}");

    assert!(matches!(parser.expression(), Some(Expression { kind: ExpressionKind::Closure(params, ..), .. }) if params.is_empty()));
    assert!(matches!(parser.expression(), Some(Expression { kind: ExpressionKind::Closure(params, ..), .. }) if matches_second_closure_params(&params)));
    done(&mut parser);
}

fn assignment_op(e: Option<Expression<'_>>) -> AssignmentOperator {
    match e {
        Some(Expression { kind: ExpressionKind::Assignment(_, op, _), .. }) => op,
        other => panic!("expected an assignment, got {:?}", other),
    }
}

#[test]
fn assignment_expression() {
    let mut parser = Parser::new(
        "a = b = c d <<= 0 e >>= 1 f &= 2 g |= 3 h ^= 4 i ~= 5 j *= 6 k /= 7 l += 8 m -= 9 n %= 10",
    );

    assert!(matches!(parser.expression(), Some(Expression { kind: ExpressionKind::Assignment(left, AssignmentOperator::Assign, _), .. })
        if matches!(&*left, Expression { kind: ExpressionKind::Assignment(_, AssignmentOperator::Assign, _), .. })));
    for op in [
        AssignmentOperator::BitLeft,
        AssignmentOperator::BitRight,
        AssignmentOperator::And,
        AssignmentOperator::Or,
        AssignmentOperator::Xor,
        AssignmentOperator::Complement,
        AssignmentOperator::Multiplication,
        AssignmentOperator::Division,
        AssignmentOperator::Addition,
        AssignmentOperator::Substraction,
        AssignmentOperator::Modulo,
    ] {
        assert_eq!(assignment_op(parser.expression()), op);
    }
    done(&mut parser);
}

#[test]
fn conditional_or_expression() {
    let mut parser = Parser::new("a || b || c");

    assert!(matches!(parser.expression(), Some(Expression { kind: ExpressionKind::Conditional(l, ConditionalOperator::Or, _), .. })
        if matches!(&*l, Expression { kind: ExpressionKind::Conditional(_, ConditionalOperator::Or, _), .. })));
    done(&mut parser);
}

#[test]
fn conditional_and_expression() {
    let mut parser = Parser::new("a && b && c");

    assert!(matches!(parser.expression(), Some(Expression { kind: ExpressionKind::Conditional(l, ConditionalOperator::And, _), .. })
        if matches!(&*l, Expression { kind: ExpressionKind::Conditional(_, ConditionalOperator::And, _), .. })));
    done(&mut parser);
}

#[test]
fn logical_or_expression() {
    let mut parser = Parser::new("a | b | c");

    assert!(matches!(parser.expression(), Some(Expression { kind: ExpressionKind::Logical(l, LogicalOperator::Or, _), .. })
        if matches!(&*l, Expression { kind: ExpressionKind::Logical(_, LogicalOperator::Or, _), .. })));
    done(&mut parser);
}

#[test]
fn logical_xor_expression() {
    let mut parser = Parser::new("a ^ b ^ c");

    assert!(matches!(parser.expression(), Some(Expression { kind: ExpressionKind::Logical(l, LogicalOperator::Xor, _), .. })
        if matches!(&*l, Expression { kind: ExpressionKind::Logical(_, LogicalOperator::Xor, _), .. })));
    done(&mut parser);
}

#[test]
fn logical_and_expression() {
    let mut parser = Parser::new("a & b & c");

    assert!(matches!(parser.expression(), Some(Expression { kind: ExpressionKind::Logical(l, LogicalOperator::And, _), .. })
        if matches!(&*l, Expression { kind: ExpressionKind::Logical(_, LogicalOperator::And, _), .. })));
    done(&mut parser);
}

#[test]
fn equality_expression() {
    let mut parser = Parser::new("a != b c == d");

    assert!(matches!(parser.expression(), Some(Expression { kind: ExpressionKind::Equality(_, EqualityOperator::NotEquals, _), .. })));
    assert!(matches!(parser.expression(), Some(Expression { kind: ExpressionKind::Equality(_, EqualityOperator::Equals, _), .. })));
    done(&mut parser);
}

#[test]
fn comparision_expression() {
    let mut parser = Parser::new("a < b c > d e >= f g <= h");

    assert!(matches!(parser.expression(), Some(Expression { kind: ExpressionKind::Comparision(_, ComparisionOperator::LessThan, _), .. })));
    assert!(matches!(parser.expression(), Some(Expression { kind: ExpressionKind::Comparision(_, ComparisionOperator::GreaterThan, _), .. })));
    assert!(matches!(parser.expression(), Some(Expression { kind: ExpressionKind::Comparision(_, ComparisionOperator::GreaterThanEquals, _), .. })));
    assert!(matches!(parser.expression(), Some(Expression { kind: ExpressionKind::Comparision(_, ComparisionOperator::LessThanEquals, _), .. })));
    done(&mut parser);
}

#[test]
fn shift_expression() {
    let mut parser = Parser::new("0 >> 1 2 << 2 5 << 2 >> 1");

    assert!(matches!(parser.expression(), Some(Expression { kind: ExpressionKind::Binary(_, BinaryOperator::BitRight, _), .. })));
    assert!(matches!(parser.expression(), Some(Expression { kind: ExpressionKind::Binary(_, BinaryOperator::BitLeft, _), .. })));
    assert!(matches!(parser.expression(), Some(Expression { kind: ExpressionKind::Binary(l, BinaryOperator::BitRight, _), .. })
        if matches!(&*l, Expression { kind: ExpressionKind::Binary(_, BinaryOperator::BitLeft, _), .. })));
    done(&mut parser);
}

#[test]
fn additive_expression() {
    let mut parser = Parser::new("0 + 1 + 2 + 3 - 4");

    let (left, right) = binary(parser.expression().unwrap(), BinaryOperator::Substraction);
    assert!(integer(Some(&right), 4));
    let (left, right) = binary(left, BinaryOperator::Addition);
    assert!(integer(Some(&right), 3));
    let (left, right) = binary(left, BinaryOperator::Addition);
    assert!(integer(Some(&right), 2));
    let (left, right) = binary(left, BinaryOperator::Addition);
    assert!(integer(Some(&right), 1));
    assert!(integer(Some(&left), 0));
    done(&mut parser);
}

#[test]
fn multiplicative_expression() {
    let mut parser = Parser::new("0 * 1 * 2 * 3 / 3 % 6");

    let (left, right) = binary(parser.expression().unwrap(), BinaryOperator::Modulo);
    assert!(integer(Some(&right), 6));
    let (left, right) = binary(left, BinaryOperator::Division);
    assert!(integer(Some(&right), 3));
    let (left, right) = binary(left, BinaryOperator::Multiplication);
    assert!(integer(Some(&right), 3));
    let (left, right) = binary(left, BinaryOperator::Multiplication);
    assert!(integer(Some(&right), 2));
    let (left, right) = binary(left, BinaryOperator::Multiplication);
    assert!(integer(Some(&right), 1));
    assert!(integer(Some(&left), 0));
    done(&mut parser);
}

#[test]
fn unary_expression() {
    let mut parser = Parser::new("!a ~b");

    assert!(matches!(parser.expression(), Some(Expression { kind: ExpressionKind::Unary(UnaryOperator::Not, _), .. })));
    assert!(matches!(parser.expression(), Some(Expression { kind: ExpressionKind::Unary(UnaryOperator::Complement, _), .. })));
    done(&mut parser);
}

#[test]
fn unary_minus() {
    let mut parser = Parser::new("-a");

    assert!(matches!(parser.expression(), Some(Expression { kind: ExpressionKind::Unary(UnaryOperator::Negative, _), .. })));
    done(&mut parser);
}

#[test]
fn unary_positive() {
    let mut parser = Parser::new("+a");

    assert!(matches!(parser.expression(), Some(Expression { kind: ExpressionKind::Unary(UnaryOperator::Plus, _), .. })));
    done(&mut parser);
}

#[test]
fn pre_increment() {
    let mut parser = Parser::new("++x");

    assert!(matches!(parser.expression(), Some(Expression { kind: ExpressionKind::Unary(UnaryOperator::Increment, _), .. })));
    done(&mut parser);
}

#[test]
fn pre_decrement() {
    let mut parser = Parser::new("--x");

    assert!(matches!(parser.expression(), Some(Expression { kind: ExpressionKind::Unary(UnaryOperator::Decrement, _), .. })));
    done(&mut parser);
}

#[test]
fn postfix_combined() {
    let mut parser = Parser::new("s.a[0]?.b()[a]++--");

    let (left, right) = reference(parser.expression().unwrap());
    assert!(identifier(&left, "s"));

    let (left, right) = reference(right);
    let inner = match left {
        Expression { kind: ExpressionKind::ShortCircuit(e), .. } => *e,
        other => panic!("expected `?`, got {:?}", other),
    };
    let (acs, params) = index(inner);
    assert!(identifier(&acs, "a"));
    assert!(integer(params.first(), 0));
    assert!(params.len() == 1);

    let exp = match right {
        Expression { kind: ExpressionKind::PostOp(e, PostOperator::Decrement), .. } => *e,
        other => panic!("expected `--`, got {:?}", other),
    };
    let exp = match exp {
        Expression { kind: ExpressionKind::PostOp(e, PostOperator::Increment), .. } => *e,
        other => panic!("expected `++`, got {:?}", other),
    };
    let (left, params) = index(exp);
    assert!(identifier(params.first().unwrap(), "a"));
    assert!(params.len() == 1);
    let (left, params) = call(left);
    assert!(params.is_empty());
    assert!(identifier(&left, "b"));
    done(&mut parser);
}

/// Unwraps calls from the outside in: `shape[i]` is the list of integer
/// arguments of the `i`-th call from the outside; the callee is `s`.
fn check_calls(e: Expression<'_>, shape: &[&[u128]]) {
    let mut current = e;
    for args in shape {
        let (left, params) = call(current);
        assert_eq!(params.len(), args.len());
        for (p, v) in params.iter().zip(args.iter()) {
            assert!(integer(Some(p), *v));
        }
        current = left;
    }
    assert!(identifier(&current, "s"));
}

#[test]
fn postfix_call_expression() {
    let mut parser = Parser::new("s(0)(1)(2)()() s(0, 1)(2)() s(0, 1, 2)() s()");

    check_calls(parser.expression().unwrap(), &[&[], &[], &[2], &[1], &[0]]);
    check_calls(parser.expression().unwrap(), &[&[], &[2], &[0, 1]]);
    check_calls(parser.expression().unwrap(), &[&[], &[0, 1, 2]]);
    check_calls(parser.expression().unwrap(), &[&[]]);
    done(&mut parser);
}

/// Unwraps `count` index expressions `[count - 1] .. [0]` around a name.
fn check_indexes(e: Expression<'_>, count: u128) {
    let mut current = e;
    for i in (0..count).rev() {
        let (left, params) = index(current);
        assert!(integer(params.first(), i));
        assert!(params.len() == 1);
        current = left;
    }
    assert!(matches!(current, Expression { kind: ExpressionKind::Access(..), .. }));
}

#[test]
fn postfix_index_expression() {
    let mut parser =
        Parser::new("s[0][1][2][3][4][5] s[0][1][2][3][4] s[0][1][2][3] s[0][1][2] s[0][1] s[0]");

    for count in [6u128, 5, 4, 3, 2, 1] {
        check_indexes(parser.expression().unwrap(), count);
    }
    done(&mut parser);
}

#[test]
fn postfix_reference_expression() {
    let mut parser = Parser::new(
        "self.ident ident.ident2.ident3 ident1.ident2.ident3.ident4.ident5 self.self.ident.self.ident.a self.0",
    );

    let (l, r) = reference(parser.expression().unwrap());
    assert!(self_access(&l) && identifier(&r, "ident"));

    let (l, r) = reference(parser.expression().unwrap());
    assert!(identifier(&l, "ident"));
    let (l, r) = reference(r);
    assert!(identifier(&l, "ident2") && identifier(&r, "ident3"));

    let mut current = parser.expression().unwrap();
    for name in ["ident1", "ident2", "ident3", "ident4"] {
        let (l, r) = reference(current);
        assert!(identifier(&l, name));
        current = r;
    }
    assert!(identifier(&current, "ident5"));

    let (l, r) = reference(parser.expression().unwrap());
    assert!(self_access(&l));
    let (l, r) = reference(r);
    assert!(self_access(&l));
    let (l, r) = reference(r);
    assert!(identifier(&l, "ident"));
    let (l, r) = reference(r);
    assert!(self_access(&l));
    let (l, r) = reference(r);
    assert!(identifier(&l, "ident") && identifier(&r, "a"));

    let (l, r) = reference(parser.expression().unwrap());
    assert!(self_access(&l) && integer(Some(&r), 0));
    done(&mut parser);
}

#[test]
fn postfix_post_op_expression() {
    let mut parser = Parser::new("a++ a--");

    assert!(matches!(parser.expression(), Some(Expression { kind: ExpressionKind::PostOp(_, PostOperator::Increment), .. })));
    assert!(matches!(parser.expression(), Some(Expression { kind: ExpressionKind::PostOp(_, PostOperator::Decrement), .. })));
    done(&mut parser);
}

#[test]
fn postfix_short_circuit_expression() {
    let mut parser = Parser::new("a? b?? c???");

    assert!(matches!(parser.expression(), Some(Expression { kind: ExpressionKind::ShortCircuit(_), .. })));
    assert!(matches!(parser.expression(), Some(Expression { kind: ExpressionKind::ShortCircuit(e), .. }) if matches!(e.kind, ExpressionKind::ShortCircuit(_))));
    assert!(matches!(parser.expression(), Some(Expression { kind: ExpressionKind::ShortCircuit(e), .. })
        if matches!(&e.kind, ExpressionKind::ShortCircuit(x) if matches!(x.kind, ExpressionKind::ShortCircuit(_)))));
    done(&mut parser);
}
