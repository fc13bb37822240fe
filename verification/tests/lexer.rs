use ezscn::lexer::TokenStream;
use ezscn::tokens::{BaseN, CharacterEscapeType, Span, SpanImpl, StringOptions, Token, TokenKind};

    #[test]
    fn consume_basic_chars() {
        let str = r"{}()[];,^\?_=";
        let mut stream = TokenStream::new(str);

        assert_eq!(stream.next(), Some(Token { kind: TokenKind::CurlyBracketLeft, span: Span::new(0, 1), line: 0 }));
        assert_eq!(stream.next(), Some(Token { kind: TokenKind::CurlyBracketRight, span: Span::new(1, 2), line: 0 }));
        assert_eq!(stream.next(), Some(Token { kind: TokenKind::ParanthesisLeft, span: Span::new(2, 3), line: 0 }));
        assert_eq!(stream.next(), Some(Token { kind: TokenKind::ParanthesisRight, span: Span::new(3, 4), line: 0 }));
        assert_eq!(stream.next(), Some(Token { kind: TokenKind::SquareBracketLeft, span: Span::new(4, 5), line: 0 }));
        assert_eq!(stream.next(), Some(Token { kind: TokenKind::SquareBracketRight, span: Span::new(5, 6), line: 0 }));
        assert_eq!(stream.next(), Some(Token { kind: TokenKind::Semicolon, span: Span::new(6, 7), line: 0 }));
        assert_eq!(stream.next(), Some(Token { kind: TokenKind::Comma, span: Span::new(7, 8), line: 0 }));
        assert_eq!(stream.next(), Some(Token { kind: TokenKind::Caret, span: Span::new(8, 9), line: 0 }));
        assert_eq!(stream.next(), Some(Token { kind: TokenKind::Backslash, span: Span::new(9, 10), line: 0 }));
        assert_eq!(stream.next(), Some(Token { kind: TokenKind::QuestionMark, span: Span::new(10, 11), line: 0 }));
        assert_eq!(stream.next(), Some(Token { kind: TokenKind::Underscore, span: Span::new(11, 12), line: 0 }));
        assert_eq!(stream.next(), Some(Token { kind: TokenKind::Equals, span: Span::new(12, 13), line: 0 }));
        assert_eq!(stream.next(), None)
    }

    #[test]
    fn consume_extra_char_test() {
        let str = ". .. ... : :: + += ++ - -= --";
        let mut stream = TokenStream::new(str);

        assert_eq!(stream.next(), Some(Token { kind: TokenKind::Dot, span: Span::new(0, 1), line: 0 }));
        assert_eq!(stream.next(), Some(Token { kind: TokenKind::DotDot, span: Span::new(2, 4), line: 0 }));
        assert_eq!(stream.next(), Some(Token { kind: TokenKind::DotDotDot, span: Span::new(5, 8), line: 0 }));
        assert_eq!(stream.next(), Some(Token { kind: TokenKind::Colon, span: Span::new(9, 10), line: 0 }));
        assert_eq!(stream.next(), Some(Token { kind: TokenKind::ColonColon, span: Span::new(11, 13), line: 0 }));
        assert_eq!(stream.next(), Some(Token { kind: TokenKind::Plus, span: Span::new(14, 15), line: 0 }));
        assert_eq!(stream.next(), Some(Token { kind: TokenKind::PlusEquals, span: Span::new(16, 18), line: 0 }));
        assert_eq!(stream.next(), Some(Token { kind: TokenKind::PlusPlus, span: Span::new(19, 21), line: 0 }));
        assert_eq!(stream.next(), Some(Token { kind: TokenKind::Minus, span: Span::new(22, 23), line: 0 }));
        assert_eq!(stream.next(), Some(Token { kind: TokenKind::MinusEquals, span: Span::new(24, 26), line: 0 }));
        assert_eq!(stream.next(), Some(Token { kind: TokenKind::MinusMinus, span: Span::new(27, 29), line: 0 }));
        assert_eq!(stream.next(), None);
    }

    #[test]
    fn special_care_char_test() {
        let str = "< << <<= <= > >> >>= >= = == ! != & &= && | |= || ~ ~= * *= / /= % %= => $";
        let mut stream = TokenStream::new(str);

        assert_eq!(stream.next(), Some(Token { kind: TokenKind::LessThan, span: Span::new(0, 1), line: 0 }));
        assert_eq!(stream.next(), Some(Token { kind: TokenKind::BitwiseLeft, span: Span::new(2, 4), line: 0 }));
        assert_eq!(stream.next(), Some(Token { kind: TokenKind::BitwiseLeftCompound, span: Span::new(5, 8), line: 0 }));
        assert_eq!(stream.next(), Some(Token { kind: TokenKind::LessThanEquals, span: Span::new(9, 11), line: 0 }));
        assert_eq!(stream.next(), Some(Token { kind: TokenKind::GreaterThan, span: Span::new(12, 13), line: 0 }));
        assert_eq!(stream.next(), Some(Token { kind: TokenKind::BitwiseRight, span: Span::new(14, 16), line: 0 }));
        assert_eq!(stream.next(), Some(Token { kind: TokenKind::BitwiseRightCompound, span: Span::new(17, 20), line: 0 }));
        assert_eq!(stream.next(), Some(Token { kind: TokenKind::GreaterThanEquals, span: Span::new(21, 23), line: 0 }));
        assert_eq!(stream.next(), Some(Token { kind: TokenKind::Equals, span: Span::new(24, 25), line: 0 }));
        assert_eq!(stream.next(), Some(Token { kind: TokenKind::EqualsEquals, span: Span::new(26, 28), line: 0 }));
        assert_eq!(stream.next(), Some(Token { kind: TokenKind::Not, span: Span::new(29, 30), line: 0 }));
        assert_eq!(stream.next(), Some(Token { kind: TokenKind::NotEquals, span: Span::new(31, 33), line: 0 }));
        assert_eq!(stream.next(), Some(Token { kind: TokenKind::And, span: Span::new(34, 35), line: 0 }));
        assert_eq!(stream.next(), Some(Token { kind: TokenKind::AndEquals, span: Span::new(36, 38), line: 0 }));
        assert_eq!(stream.next(), Some(Token { kind: TokenKind::AndAnd, span: Span::new(39, 41), line: 0 }));
        assert_eq!(stream.next(), Some(Token { kind: TokenKind::Or, span: Span::new(42, 43), line: 0 }));
        assert_eq!(stream.next(), Some(Token { kind: TokenKind::OrEquals, span: Span::new(44, 46), line: 0 }));
        assert_eq!(stream.next(), Some(Token { kind: TokenKind::OrOr, span: Span::new(47, 49), line: 0 }));
        assert_eq!(stream.next(), Some(Token { kind: TokenKind::Tilde, span: Span::new(50, 51), line: 0 }));
        assert_eq!(stream.next(), Some(Token { kind: TokenKind::TildeEquals, span: Span::new(52, 54), line: 0 }));
        assert_eq!(stream.next(), Some(Token { kind: TokenKind::Star, span: Span::new(55, 56), line: 0 }));
        assert_eq!(stream.next(), Some(Token { kind: TokenKind::StarEquals, span: Span::new(57, 59), line: 0 }));
        assert_eq!(stream.next(), Some(Token { kind: TokenKind::Slash, span: Span::new(60, 61), line: 0 }));
        assert_eq!(stream.next(), Some(Token { kind: TokenKind::SlashEquals, span: Span::new(62, 64), line: 0 }));
        assert_eq!(stream.next(), Some(Token { kind: TokenKind::Percent, span: Span::new(65, 66), line: 0 }));
        assert_eq!(stream.next(), Some(Token { kind: TokenKind::PercentEquals, span: Span::new(67, 69), line: 0 }));
        assert_eq!(stream.next(), Some(Token { kind: TokenKind::FatArrow, span: Span::new(70, 72), line: 0 }));
        assert_eq!(stream.next(), Some(Token { kind: TokenKind::Dollar, span: Span::new(73, 74), line: 0 }));
        assert_eq!(stream.next(), None);
    }

    #[test]
    fn null_bool_literal() {
        let str = "null true false";
        let mut stream = TokenStream::new(str);

        assert_eq!(stream.next(), Some(Token { kind: TokenKind::NullKeyword, span: Span::new(0, 4), line: 0 }));
        assert_eq!(stream.next(), Some(Token { kind: TokenKind::TrueKeyword, span: Span::new(5, 9), line: 0 }));
        assert_eq!(stream.next(), Some(Token { kind: TokenKind::FalseKeyword, span: Span::new(10, 15), line: 0 }));
        assert_eq!(stream.next(), None);
    }

    #[test]
    fn identifier() {
        let str = "mrb $mrb @mrb _mrb mşrb";
        let mut stream = TokenStream::new(str);

        assert_eq!(stream.next(), Some(Token { kind: TokenKind::Identifier, span: Span::new(0, 3), line: 0 }));
        assert_eq!(stream.next(), Some(Token { kind: TokenKind::Identifier, span: Span::new(4, 8), line: 0 }));
        assert_eq!(stream.next(), Some(Token { kind: TokenKind::Identifier, span: Span::new(9, 13), line: 0 }));
        assert_eq!(stream.next(), Some(Token { kind: TokenKind::Identifier, span: Span::new(14, 18), line: 0 }));
        assert_eq!(stream.next(), Some(Token { kind: TokenKind::Identifier, span: Span::new(19, 24), line: 0 }));
        assert_eq!(stream.next(), None);
    }

    #[test]
    fn keywords() {
        let str = r#"enum struct config const flags self func match
            let if else while for in sig new return feature import continue break where as pub local"#;
        let mut stream = TokenStream::new(str);

        assert_eq!(stream.next(), Some(Token { kind: TokenKind::EnumKeyword, span: Span::new(0, 4), line: 0 }));
        assert_eq!(stream.next(), Some(Token { kind: TokenKind::StructKeyword, span: Span::new(5, 11), line: 0 }));
        assert_eq!(stream.next(), Some(Token { kind: TokenKind::ConfigKeyword, span: Span::new(12, 18), line: 0 }));
        assert_eq!(stream.next(), Some(Token { kind: TokenKind::ConstKeyword, span: Span::new(19, 24), line: 0 }));
        assert_eq!(stream.next(), Some(Token { kind: TokenKind::FlagsKeyword, span: Span::new(25, 30), line: 0 }));
        assert_eq!(stream.next(), Some(Token { kind: TokenKind::SelfKeyword, span: Span::new(31, 35), line: 0 }));
        assert_eq!(stream.next(), Some(Token { kind: TokenKind::FuncKeyword, span: Span::new(36, 40), line: 0 }));
        assert_eq!(stream.next(), Some(Token { kind: TokenKind::MatchKeyword, span: Span::new(41, 46), line: 0 }));
        assert_eq!(stream.next(), Some(Token { kind: TokenKind::LetKeyword, span: Span::new(59, 62), line: 1 }));
        assert_eq!(stream.next(), Some(Token { kind: TokenKind::IfKeyword, span: Span::new(63, 65), line: 1 }));
        assert_eq!(stream.next(), Some(Token { kind: TokenKind::ElseKeyword, span: Span::new(66, 70), line: 1 }));
        assert_eq!(stream.next(), Some(Token { kind: TokenKind::WhileKeyword, span: Span::new(71, 76), line: 1 }));
        assert_eq!(stream.next(), Some(Token { kind: TokenKind::ForKeyword, span: Span::new(77, 80), line: 1 }));
        assert_eq!(stream.next(), Some(Token { kind: TokenKind::InKeyword, span: Span::new(81, 83), line: 1 }));
        assert_eq!(stream.next(), Some(Token { kind: TokenKind::SigKeyword, span: Span::new(84, 87), line: 1 }));
        assert_eq!(stream.next(), Some(Token { kind: TokenKind::NewKeyword, span: Span::new(88, 91), line: 1 }));
        assert_eq!(stream.next(), Some(Token { kind: TokenKind::ReturnKeyword, span: Span::new(92, 98), line: 1 }));
        assert_eq!(stream.next(), Some(Token { kind: TokenKind::FeatureKeyword, span: Span::new(99, 106), line: 1 }));
        assert_eq!(stream.next(), Some(Token { kind: TokenKind::ImportKeyword, span: Span::new(107, 113), line: 1 }));
        assert_eq!(stream.next(), Some(Token { kind: TokenKind::ContinueKeyword, span: Span::new(114, 122), line: 1 }));
        assert_eq!(stream.next(), Some(Token { kind: TokenKind::BreakKeyword, span: Span::new(123, 128), line: 1 }));
        assert_eq!(stream.next(), Some(Token { kind: TokenKind::WhereKeyword, span: Span::new(129, 134), line: 1 }));
        assert_eq!(stream.next(), Some(Token { kind: TokenKind::AsKeyword, span: Span::new(135, 137), line: 1 }));
        assert_eq!(stream.next(), Some(Token { kind: TokenKind::PubKeyword, span: Span::new(138, 141), line: 1 }));
        assert_eq!(stream.next(), Some(Token { kind: TokenKind::LocalKeyword, span: Span::new(142, 147), line: 1}));
        assert_eq!(stream.next(), None);
    }

    #[test]
    fn num_literal() {
        let str = r#"0b0010 0b0100 0b1000 0o1234567
            0o7564312 0o7162534 0x123456789ABCDEF 0xFABCDE22 0x31245DA
            129381274 17483291 17823646 9 1 8 6.54
            5.32 2.4e9 2.432e+11 222.233e-333 51123.3932e-999 2222.4e"#;
        let mut stream = TokenStream::new(str);

        assert_eq!(stream.next(), Some(Token { kind: TokenKind::NumberLiteral { base: BaseN::Bin, is_floating: false }, span: Span::new(0, 6), line: 0 })); // 0b0010
        assert_eq!(stream.next(), Some(Token { kind: TokenKind::NumberLiteral { base: BaseN::Bin, is_floating: false }, span: Span::new(7, 13), line: 0 })); // 0b0100
        assert_eq!(stream.next(), Some(Token { kind: TokenKind::NumberLiteral { base: BaseN::Bin,  is_floating: false }, span: Span::new(14, 20), line: 0 })); // 0b1000
        assert_eq!(stream.next(), Some(Token { kind: TokenKind::NumberLiteral { base: BaseN::Octal, is_floating: false }, span: Span::new(21, 30), line: 0 })); // 0o1234567
        assert_eq!(stream.next(), Some(Token { kind: TokenKind::NumberLiteral { base: BaseN::Octal, is_floating: false }, span: Span::new(43, 52), line: 1 })); // 0o7564312
        assert_eq!(stream.next(), Some(Token { kind: TokenKind::NumberLiteral { base: BaseN::Octal, is_floating: false }, span: Span::new(53, 62), line: 1 })); // 0o7162534
        assert_eq!(stream.next(), Some(Token { kind: TokenKind::NumberLiteral { base: BaseN::Hex, is_floating: false }, span: Span::new(63, 80), line: 1 })); // 0x123456789ABCDEF
        assert_eq!(stream.next(), Some(Token { kind: TokenKind::NumberLiteral { base: BaseN::Hex, is_floating: false }, span: Span::new(81, 91), line: 1 })); // 0xFABCDE22
        assert_eq!(stream.next(), Some(Token { kind: TokenKind::NumberLiteral { base: BaseN::Hex, is_floating: false }, span: Span::new(92, 101), line: 1 })); // 0x31245DA
        assert_eq!(stream.next(), Some(Token { kind: TokenKind::NumberLiteral { base: BaseN::Decimal, is_floating: false }, span: Span::new(114, 123), line: 2 })); // 129381274
        assert_eq!(stream.next(), Some(Token { kind: TokenKind::NumberLiteral { base: BaseN::Decimal, is_floating: false }, span: Span::new(124, 132), line: 2 })); // 17483291
        assert_eq!(stream.next(), Some(Token { kind: TokenKind::NumberLiteral { base: BaseN::Decimal, is_floating: false }, span: Span::new(133, 141), line: 2 })); // 17823646
        assert_eq!(stream.next(), Some(Token { kind: TokenKind::NumberLiteral { base: BaseN::Decimal, is_floating: false }, span: Span::new(142, 143), line: 2 })); // 9
        assert_eq!(stream.next(), Some(Token { kind: TokenKind::NumberLiteral { base: BaseN::Decimal, is_floating: false }, span: Span::new(144, 145), line: 2 })); // 1
        assert_eq!(stream.next(), Some(Token { kind: TokenKind::NumberLiteral { base: BaseN::Decimal, is_floating: false }, span: Span::new(146, 147), line: 2 })); // 8
        assert_eq!(stream.next(), Some(Token { kind: TokenKind::NumberLiteral { base: BaseN::Decimal, is_floating: true }, span: Span::new(148, 152), line: 2 })); // 6.54
        assert_eq!(stream.next(), Some(Token { kind: TokenKind::NumberLiteral { base: BaseN::Decimal, is_floating: true }, span: Span::new(165, 169), line: 3 })); // 5.32
        assert_eq!(stream.next(), Some(Token { kind: TokenKind::NumberLiteral { base: BaseN::Decimal, is_floating: true }, span: Span::new(170, 175), line: 3 })); // 2.4e8
        assert_eq!(stream.next(), Some(Token { kind: TokenKind::NumberLiteral { base: BaseN::Decimal, is_floating: true }, span: Span::new(176, 185), line: 3 })); // 2.432e+11
        assert_eq!(stream.next(), Some(Token { kind: TokenKind::NumberLiteral { base: BaseN::Decimal, is_floating: true }, span: Span::new(186, 198), line: 3 })); // 222.233e-333
        assert_eq!(stream.next(), Some(Token { kind: TokenKind::NumberLiteral { base: BaseN::Decimal, is_floating: true }, span: Span::new(199, 214), line: 3 })); // 51123.3932e-999
        assert_eq!(stream.next(), Some(Token { kind: TokenKind::NumberLiteral { base: BaseN::Decimal, is_floating: true }, span: Span::new(215, 222), line: 3 })); // 2222.4e
        assert_eq!(stream.next(), None);
    }

    #[test]
    fn char_literal() {
        let str = r#"'a' 'a '!' 'ş' '\a' '\a '\b' '\e' '\f' '\n'
            '\r' '\t' '\v' '\\' '\?' '\"' '\xF' '\x1111' '\x1000
            '\uFFFF' '\uAAAA '\U0010FFFE' '\U0010FFFE '\p' '\o' 'bbb' "#;
        let mut stream = TokenStream::new(str);

        assert_eq!(stream.next(), Some(Token { kind: TokenKind::CharacterLiteral { escape_type: CharacterEscapeType::Unescaped, terminated: true }, span: Span::new(0, 3), line: 0 })); // 'a'
        assert_eq!(stream.next(), Some(Token { kind: TokenKind::CharacterLiteral { escape_type: CharacterEscapeType::Unescaped, terminated: false }, span: Span::new(4, 6), line: 0 })); // 'a
        assert_eq!(stream.next(), Some(Token { kind: TokenKind::CharacterLiteral { escape_type: CharacterEscapeType::Unescaped, terminated: true }, span: Span::new(7, 10), line: 0 })); // '!'
        assert_eq!(stream.next(), Some(Token { kind: TokenKind::CharacterLiteral { escape_type: CharacterEscapeType::Unescaped, terminated: true }, span: Span::new(11, 15), line: 0 })); // 'ş'
        assert_eq!(stream.next(), Some(Token { kind: TokenKind::CharacterLiteral { escape_type: CharacterEscapeType::Simple, terminated: true }, span: Span::new(16, 20), line: 0 })); // '\a'
        assert_eq!(stream.next(), Some(Token { kind: TokenKind::CharacterLiteral { escape_type: CharacterEscapeType::Simple, terminated: false }, span: Span::new(21, 24), line: 0 })); // '\a
        assert_eq!(stream.next(), Some(Token { kind: TokenKind::CharacterLiteral { escape_type: CharacterEscapeType::Simple, terminated: true }, span: Span::new(25, 29), line: 0 })); // '\b'
        assert_eq!(stream.next(), Some(Token { kind: TokenKind::CharacterLiteral { escape_type: CharacterEscapeType::Simple, terminated: true }, span: Span::new(30, 34), line: 0 })); // '\e'
        assert_eq!(stream.next(), Some(Token { kind: TokenKind::CharacterLiteral { escape_type: CharacterEscapeType::Simple, terminated: true }, span: Span::new(35, 39), line: 0 })); // '\f'
        assert_eq!(stream.next(), Some(Token { kind: TokenKind::CharacterLiteral { escape_type: CharacterEscapeType::Simple, terminated: true }, span: Span::new(40, 44), line: 0 })); // '\n'
        assert_eq!(stream.next(), Some(Token { kind: TokenKind::CharacterLiteral { escape_type: CharacterEscapeType::Simple, terminated: true }, span: Span::new(57, 61), line: 1 })); // '\r'
        assert_eq!(stream.next(), Some(Token { kind: TokenKind::CharacterLiteral { escape_type: CharacterEscapeType::Simple, terminated: true }, span: Span::new(62, 66), line: 1 })); // '\t'
        assert_eq!(stream.next(), Some(Token { kind: TokenKind::CharacterLiteral { escape_type: CharacterEscapeType::Simple, terminated: true }, span: Span::new(67, 71), line: 1 })); // '\v'
        assert_eq!(stream.next(), Some(Token { kind: TokenKind::CharacterLiteral { escape_type: CharacterEscapeType::Simple, terminated: true }, span: Span::new(72, 76), line: 1 })); // '\\'
        assert_eq!(stream.next(), Some(Token { kind: TokenKind::CharacterLiteral { escape_type: CharacterEscapeType::Simple, terminated: true }, span: Span::new(77, 81), line: 1 })); // '\?'
        assert_eq!(stream.next(), Some(Token { kind: TokenKind::CharacterLiteral { escape_type: CharacterEscapeType::Simple, terminated: true }, span: Span::new(82, 86), line: 1 })); // '\"'
        assert_eq!(stream.next(), Some(Token { kind: TokenKind::CharacterLiteral { escape_type: CharacterEscapeType::Hex, terminated: true }, span: Span::new(87, 92), line: 1 })); // '\xF'
        assert_eq!(stream.next(), Some(Token { kind: TokenKind::CharacterLiteral { escape_type: CharacterEscapeType::Hex, terminated: true }, span: Span::new(93, 101), line: 1 })); // '\x1111'
        assert_eq!(stream.next(), Some(Token { kind: TokenKind::CharacterLiteral { escape_type: CharacterEscapeType::Hex, terminated: false }, span: Span::new(102, 109), line: 1 })); // '\x1000
        assert_eq!(stream.next(), Some(Token { kind: TokenKind::CharacterLiteral { escape_type: CharacterEscapeType::Utf16, terminated: true }, span: Span::new(122, 130), line: 2 })); // '\uFFFF'
        assert_eq!(stream.next(), Some(Token { kind: TokenKind::CharacterLiteral { escape_type: CharacterEscapeType::Utf16, terminated: false }, span: Span::new(131, 138), line: 2 })); // '\uAAAA
        assert_eq!(stream.next(), Some(Token { kind: TokenKind::CharacterLiteral { escape_type: CharacterEscapeType::Utf32, terminated: true }, span: Span::new(139, 151), line: 2 })); // '\U0010FFFE'
        assert_eq!(stream.next(), Some(Token { kind: TokenKind::CharacterLiteral { escape_type: CharacterEscapeType::Utf32, terminated: false }, span: Span::new(152, 163), line: 2 })); // '\U0010FFFE
        assert_eq!(stream.next(), Some(Token { kind: TokenKind::CharacterLiteral { escape_type: CharacterEscapeType::Simple, terminated: true }, span: Span::new(164, 168), line: 2 })); // '\p'
        assert_eq!(stream.next(), Some(Token { kind: TokenKind::CharacterLiteral { escape_type: CharacterEscapeType::Simple, terminated: true }, span: Span::new(169, 173), line: 2 })); // '\o'
        assert_eq!(stream.next(), Some(Token { kind: TokenKind::CharacterLiteral { escape_type: CharacterEscapeType::Unescaped, terminated: false }, span: Span::new(174, 176), line: 2 })); // 'b
        assert_eq!(stream.next(), Some(Token { kind: TokenKind::Identifier, span: Span::new(176, 178), line: 2 })); // bb
        assert_eq!(stream.next(), Some(Token { kind: TokenKind::CharacterLiteral { escape_type: CharacterEscapeType::Unescaped, terminated: false }, span: Span::new(178, 180), line: 2 })); // "' "
        assert_eq!(stream.next(), None);
    }

    #[test]
    fn string_literal() {
        let str = r#" "" "ezscn" "escaped ezscn \t\t\n" "unterminated
            r"raw ezscn \ \ \\ \\\\ \e\e" m"ez
            scn"m mr"wtf"m MR"tf"m rm"TFF"m RM"pat"m
            m"unterminated multiline""#;
        let mut stream = TokenStream::new(str);

        assert_eq!(stream.next(), Some(Token { kind: TokenKind::StringLiteral { options: StringOptions::empty(), quote_start: 1, terminated: true, ending_line: 0 }, span: Span::new(1, 3), line: 0 })); // ""
        assert_eq!(stream.next(), Some(Token { kind: TokenKind::StringLiteral { options: StringOptions::empty(), quote_start: 4, terminated: true, ending_line: 0 }, span: Span::new(4, 11), line: 0 })); // "ezscn"
        assert_eq!(stream.next(), Some(Token { kind: TokenKind::StringLiteral { options: StringOptions::empty(), quote_start: 12, terminated: true, ending_line: 0 }, span: Span::new(12, 34), line: 0 })); // "escaped ezscn \t\t\n"
        assert_eq!(stream.next(), Some(Token { kind: TokenKind::StringLiteral { options: StringOptions::empty(), quote_start: 35, terminated: false, ending_line: 1 }, span: Span::new(35, 48), line: 0 })); // "unterminated
        assert_eq!(stream.next(), Some(Token { kind: TokenKind::StringLiteral { options: StringOptions::rawstr(), quote_start: 62, terminated: true, ending_line: 1 }, span: Span::new(61, 90), line: 1 })); // r"raw ezscn \ \ \\ \\\\ \e\e"
        assert_eq!(stream.next(), Some(Token { kind: TokenKind::StringLiteral { options: StringOptions::multiline_str(), quote_start: 92, terminated: true, ending_line: 2 }, span: Span::new(91, 113), line: 1 })); // m"ez
                                                                                                                                                 //scn"m
        assert_eq!(stream.next(), Some(Token { kind: TokenKind::StringLiteral { options: StringOptions::multiline_str() | StringOptions::rawstr(), quote_start: 116, terminated: true, ending_line: 2 }, span: Span::new(114, 122), line: 2 })); // mr"wtf"m
        assert_eq!(stream.next(), Some(Token { kind: TokenKind::StringLiteral { options: StringOptions::multiline_str() | StringOptions::rawstr(), quote_start: 125, terminated: true, ending_line: 2 }, span: Span::new(123, 130), line: 2 })); // MR"tf"m
        assert_eq!(stream.next(), Some(Token { kind: TokenKind::StringLiteral { options: StringOptions::multiline_str() | StringOptions::rawstr(), quote_start: 133, terminated: true, ending_line: 2 }, span: Span::new(131, 139), line: 2 })); // rm"TFF"m
        assert_eq!(stream.next(), Some(Token { kind: TokenKind::StringLiteral { options: StringOptions::multiline_str() | StringOptions::rawstr(), quote_start: 142, terminated: true, ending_line: 2 }, span: Span::new(140, 148), line: 2 })); // RM"pat"m
        assert_eq!(stream.next(), Some(Token { kind: TokenKind::StringLiteral { options: StringOptions::multiline_str(), quote_start: 162, terminated: false, ending_line: 3 }, span: Span::new(161, 186), line: 3 })); // m"unterminated multiline"
        assert_eq!(stream.next(), None);
    }
