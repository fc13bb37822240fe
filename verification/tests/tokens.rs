use ezscn::tokens::{BaseN, Span, SpanImpl, StringOptions, Token, TokenKind};

#[test]
fn token_kinds_are_shown_by_their_text() {
    assert_eq!(TokenKind::Plus.to_string(), "+");
    assert_eq!(TokenKind::FatArrow.to_string(), "=>");
    assert_eq!(TokenKind::Backslash.to_string(), "\\");
    assert_eq!(TokenKind::FuncKeyword.to_string(), "func");
    assert_eq!(TokenKind::Identifier.to_string(), "<IDENTIFIER>");
    assert_eq!(TokenKind::NumberLiteral { base: BaseN::Hex, is_floating: false }.to_string(), "<NUMBER>");
    assert_eq!(
        TokenKind::StringLiteral { options: StringOptions::empty(), quote_start: 0, terminated: true, ending_line: 0 }
            .to_string(),
        "<STRING>"
    );
}

#[test]
fn token_kind_text_keeps_its_quirks() {
    assert_eq!(TokenKind::BitwiseLeftCompound.to_string(), ">>=");
    assert_eq!(TokenKind::BreakKeyword.to_string(), "continue");
}

#[test]
fn lexeme_is_empty_and_needs_text_past_the_token() {
    let t = Token::new(TokenKind::Identifier, Span::new(0, 2), 0);
    assert_eq!(t.lexeme("abc"), Some(""));
    assert_eq!(t.lexeme("ab"), None);
}
