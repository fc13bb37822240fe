use ezscn::error::ParseErrorKind;
use ezscn::lexer::TokenStream;
use ezscn::parser::items::struct_item;
use ezscn::parser::Parser;
use ezscn::string::UnescapedStringBuilder;
use ezscn::tokens::{StringOptions, TokenKind};

#[test]
fn peek_then_next_give_the_same_token() {
    let mut stream = TokenStream::new("alpha + 12 \"s\"");
    loop {
        let first = stream.peek();
        let second = stream.peek();
        assert_eq!(first, second);
        let taken = stream.next();
        assert_eq!(first, taken);
        if taken.is_none() {
            break;
        }
    }
    assert!(stream.reached_eof());
    assert_eq!(stream.next(), None);
}

#[test]
fn is_next_does_not_consume() {
    let mut stream = TokenStream::new("a b");
    assert!(stream.is_next(TokenKind::Identifier));
    assert!(stream.is_next(TokenKind::Identifier));
    assert!(!stream.is_next(TokenKind::Plus));
    assert_eq!(stream.next().map(|t| t.span.start), Some(0));
    assert_eq!(stream.next().map(|t| t.span.start), Some(2));
}

#[test]
fn errors_are_only_appended() {
    let mut parser = Parser::new("struct + S; struct T - ; struct U;");
    assert!(struct_item(&mut parser).is_some());
    let after_first: Vec<ParseErrorKind> = parser.errors().iter().map(|e| e.kind()).collect();
    assert_eq!(after_first, vec![ParseErrorKind::InvalidToken(TokenKind::Identifier, TokenKind::Plus)]);

    assert!(struct_item(&mut parser).is_some());
    let after_second: Vec<ParseErrorKind> = parser.errors().iter().map(|e| e.kind()).collect();
    assert_eq!(
        after_second,
        vec![
            ParseErrorKind::InvalidToken(TokenKind::Identifier, TokenKind::Plus),
            ParseErrorKind::InvalidStructToken(TokenKind::Minus),
        ]
    );

    assert!(struct_item(&mut parser).is_some());
    assert_eq!(parser.errors().len(), 2);
    assert!(parser.reached_eof());
}

#[test]
fn every_expression_call_makes_progress() {
    let mut parser = Parser::new("1 2 3");
    let mut count = 0;
    while parser.expression().is_some() {
        count += 1;
    }
    assert_eq!(count, 3);
    assert!(parser.reached_eof());
    assert!(parser.errors().is_empty());
}

#[test]
fn text_without_backslash_is_kept_as_is() {
    let text = "tab\there, ünïcödé and \"quotes\"";
    let mut errors = Vec::new();
    let mut sb = UnescapedStringBuilder::new(text, 4);
    assert_eq!(sb.collect_string(&mut errors), text);
    assert!(errors.is_empty());
}

#[test]
fn union_of_string_options_contains_both() {
    let raw = StringOptions::rawstr();
    let multi = StringOptions::multiline_str();
    let both = raw.union(multi);
    assert!(both.contains(raw));
    assert!(both.contains(multi));
    assert!(both.contains(StringOptions::empty()));
    assert!(raw.contains(raw));
    assert!(!raw.contains(multi));
    assert_eq!(both, raw | multi);
}

#[test]
fn string_options_from_prefix() {
    assert_eq!(StringOptions::try_from("r"), Ok(StringOptions::rawstr()));
    assert_eq!(StringOptions::try_from("Mr"), Ok(StringOptions::rawstr().union(StringOptions::multiline_str())));
    assert_eq!(StringOptions::try_from(""), Ok(StringOptions::empty()));
    assert_eq!(StringOptions::try_from("rx"), Err("rx"));
}

#[test]
fn identifiers_follow_unicode_classes() {
    let mut stream = TokenStream::new("été x1_y 9a");
    let t = stream.next().unwrap();
    assert_eq!(t.kind, TokenKind::Identifier);
    assert_eq!((t.span.start, t.span.end), (0, 5));
    let t = stream.next().unwrap();
    assert_eq!(t.kind, TokenKind::Identifier);
    assert_eq!((t.span.start, t.span.end), (6, 10));
    let t = stream.next().unwrap();
    assert!(matches!(t.kind, TokenKind::NumberLiteral { .. }));
    assert_eq!((t.span.start, t.span.end), (11, 12));
    let t = stream.next().unwrap();
    assert_eq!(t.kind, TokenKind::Identifier);
    assert_eq!(stream.next(), None);
}

#[test]
fn unicode_whitespace_separates_tokens() {
    let mut stream = TokenStream::new("a\u{2003}b");
    let t = stream.next().unwrap();
    assert_eq!((t.span.start, t.span.end), (0, 1));
    let t = stream.next().unwrap();
    assert_eq!(t.kind, TokenKind::Identifier);
    assert_eq!((t.span.start, t.span.end), (4, 5));
}

#[test]
fn escapes_are_pushed_in_order() {
    let mut errors = Vec::new();
    let mut sb = UnescapedStringBuilder::new(r"a\nb\x41\u00e9", 0);
    assert_eq!(sb.collect_string(&mut errors), "a\nbAé");
    assert!(errors.is_empty());
}

#[test]
fn token_spans_lie_within_the_text() {
    let text = "let é = \"ü\\\"x\" + 'ß' ... :: 0x1F 1.5e3 r\"raw\" @name $ _ <<= >>= ≠";
    let mut stream = TokenStream::new(text);
    let mut last_end = 0;
    while let Some(t) = stream.next() {
        assert!(t.span.start >= last_end);
        assert!(t.span.start < t.span.end);
        assert!(text.get(t.span.start..t.span.end).is_some());
        last_end = t.span.end;
    }
    assert!(last_end <= text.len());
}

#[test]
fn colon_run_ends_past_the_colons() {
    let mut stream = TokenStream::new(":::");
    let t = stream.next().unwrap();
    assert_eq!(t.kind, TokenKind::Unknown);
    assert_eq!((t.span.start, t.span.end), (0, 4));
    assert_eq!(stream.next(), None);
}

#[test]
fn expression_at_end_records_nothing() {
    let mut parser = Parser::new("  ) \n  ");
    assert!(parser.expression().is_none());
    assert_eq!(parser.errors().len(), 1);
    for _ in 0..3 {
        assert!(parser.expression().is_none());
        assert_eq!(parser.errors().len(), 1);
        assert!(parser.reached_eof());
    }
}

#[test]
fn shown_kinds_lex_back() {
    let kinds = [
        TokenKind::CurlyBracketLeft, TokenKind::CurlyBracketRight, TokenKind::ParanthesisLeft,
        TokenKind::ParanthesisRight, TokenKind::SquareBracketLeft, TokenKind::SquareBracketRight,
        TokenKind::Dot, TokenKind::DotDot, TokenKind::DotDotDot, TokenKind::Semicolon, TokenKind::Colon,
        TokenKind::ColonColon, TokenKind::Comma, TokenKind::LessThan, TokenKind::BitwiseLeft,
        TokenKind::LessThanEquals, TokenKind::GreaterThan, TokenKind::BitwiseRight,
        TokenKind::BitwiseRightCompound, TokenKind::GreaterThanEquals, TokenKind::Equals,
        TokenKind::EqualsEquals, TokenKind::Not, TokenKind::NotEquals, TokenKind::And, TokenKind::AndAnd,
        TokenKind::AndEquals, TokenKind::Caret, TokenKind::CaretEquals, TokenKind::Tilde,
        TokenKind::TildeEquals, TokenKind::Or, TokenKind::OrEquals, TokenKind::OrOr, TokenKind::Star,
        TokenKind::StarEquals, TokenKind::Slash, TokenKind::SlashEquals, TokenKind::Percent,
        TokenKind::PercentEquals, TokenKind::Plus, TokenKind::PlusEquals, TokenKind::PlusPlus,
        TokenKind::Minus, TokenKind::MinusEquals, TokenKind::MinusMinus, TokenKind::At, TokenKind::Dollar,
        TokenKind::Backslash, TokenKind::QuestionMark, TokenKind::Underscore, TokenKind::Tag,
        TokenKind::FatArrow, TokenKind::EnumKeyword, TokenKind::StructKeyword, TokenKind::ConfigKeyword,
        TokenKind::ConstKeyword, TokenKind::FlagsKeyword, TokenKind::SelfKeyword, TokenKind::FuncKeyword,
        TokenKind::MatchKeyword, TokenKind::LetKeyword, TokenKind::IfKeyword, TokenKind::ElseKeyword,
        TokenKind::WhileKeyword, TokenKind::ForKeyword, TokenKind::InKeyword, TokenKind::SigKeyword,
        TokenKind::NewKeyword, TokenKind::ReturnKeyword, TokenKind::TrueKeyword, TokenKind::NullKeyword,
        TokenKind::FalseKeyword, TokenKind::FeatureKeyword, TokenKind::ImportKeyword,
        TokenKind::ContinueKeyword, TokenKind::WhereKeyword, TokenKind::AsKeyword, TokenKind::PubKeyword,
        TokenKind::LocalKeyword,
    ];
    for k in kinds {
        let text = k.to_string();
        let mut stream = TokenStream::new(&text);
        let t = stream.next().unwrap();
        assert_eq!(t.kind, k);
        assert_eq!((t.span.start, t.span.end, t.line), (0, text.len(), 0));
        assert_eq!(stream.next(), None);
    }
    let mut stream = TokenStream::new(&TokenKind::BitwiseLeftCompound.to_string());
    assert_eq!(stream.next().map(|t| t.kind), Some(TokenKind::BitwiseRightCompound));
}

#[test]
fn no_token_stays_none() {
    let mut stream = TokenStream::new("a \n ");
    assert!(stream.next().is_some());
    for _ in 0..3 {
        assert_eq!(stream.next(), None);
        assert_eq!(stream.line(), 1);
    }
}

#[test]
fn token_lines_count_line_feeds_before_them() {
    let text = "a\nb  \n\n  c \"x\ny\" d";
    let mut stream = TokenStream::new(text);
    while let Some(t) = stream.next() {
        assert_eq!(t.line, text[..t.span.start].matches('\n').count());
    }
    assert_eq!(stream.line(), text.matches('\n').count());
}

#[test]
fn whitespace_agrees_with_std() {
    for u in 0..=0x10FFFFu32 {
        if let Some(c) = char::from_u32(u) {
            assert_eq!(ezscn::chars::is_whitespace(c), c.is_whitespace(), "{:X}", u);
        }
    }
}

#[test]
fn fresh_stream_hands_out_at_most_one_token_per_character() {
    let text = "a;b\n\n::: 'c' \"s\ntr\" 12.5\n";
    let mut stream = TokenStream::new(text);
    assert_eq!(stream.line(), 0);
    let mut count = 0;
    let mut last_line = 0;
    loop {
        let peeked = stream.peek();
        assert!(stream.line() >= last_line);
        last_line = stream.line();
        let t = stream.next();
        assert_eq!(t, peeked);
        assert!(stream.line() >= last_line);
        last_line = stream.line();
        match t {
            Some(_) => count += 1,
            None => break,
        }
    }
    assert!(count <= text.chars().count());
    assert_eq!(stream.line(), text.matches('\n').count());
    assert_eq!(stream.next(), None);
    assert_eq!(stream.line(), text.matches('\n').count());
}
