use ezscn::string::{char_escape_sequence_map, char_escape_sequence_map_str, hex_escape_sequence, UnescapedStringBuilder};

#[test]
fn can_produce_simple_string() {
    let raw_str = r#"ahhfhdkjskfgşgreşgşreşgerş
            nfgjkewhgjkerhgjkrehkjgerger"#;

    let mut errors = Vec::new();
    let mut sb = UnescapedStringBuilder::new(raw_str, 0);

    let cow_str: String = sb.collect_string(&mut errors);

    assert!(errors.is_empty());
    assert_eq!(&cow_str, raw_str);
}

#[test]
fn can_produce_correct_string_simple_escaped() {
    let raw_str = r"mrb \r\r\n\n\n";
    let mut errors = Vec::new();
    let mut sb = UnescapedStringBuilder::new(raw_str, 0);

    let cow_str: String = sb.collect_string(&mut errors);

    assert!(errors.is_empty());
    assert_eq!(&cow_str, "mrb \r\r\n\n\n");
}

#[test]
fn can_produce_correct_string_hex_escaped() {
    let raw_str = r#"mrb \r\n \t\t\t \x0D \u0027 \U00000022"#;
    let mut errors = Vec::new();
    let mut sb = UnescapedStringBuilder::new(raw_str, 0);

    let cow_str: String = sb.collect_string(&mut errors);

    assert!(errors.is_empty());
    assert_eq!(&cow_str, "mrb \r\n \t\t\t \r \' \"");
}

#[test]
fn escape_map_covers_simple_escapes() {
    assert_eq!(char_escape_sequence_map('n'), Some('\n'));
    assert_eq!(char_escape_sequence_map('a'), Some(0x07 as char));
    assert_eq!(char_escape_sequence_map('?'), Some('?'));
    assert_eq!(char_escape_sequence_map('p'), None);
    assert_eq!(char_escape_sequence_map_str(r"\t"), Some('\t'));
    assert_eq!(char_escape_sequence_map_str(r"\"), None);
}

#[test]
fn hex_escape_values() {
    assert_eq!(hex_escape_sequence(r"\xF"), Some('\u{F}'));
    assert_eq!(hex_escape_sequence(r"\x1111"), Some('\u{1111}'));
    assert_eq!(hex_escape_sequence(r"\U0010FFFE"), Some('\u{10FFFE}'));
    assert_eq!(hex_escape_sequence(r"\uD800"), None);
    assert_eq!(hex_escape_sequence(r"\x"), None);
    assert_eq!(hex_escape_sequence(r"\xZZ"), None);
}

#[test]
fn unescaping_stops_at_unknown_escape() {
    let mut errors = Vec::new();
    let mut sb = UnescapedStringBuilder::new(r"ab\pcd", 0);
    assert_eq!(sb.collect_string(&mut errors), "ab");
    assert!(errors.is_empty());
}

#[test]
fn trailing_backslash_is_an_empty_escape() {
    let mut errors = Vec::new();
    let mut sb = UnescapedStringBuilder::new("ab\\", 3);
    assert_eq!(sb.collect_string(&mut errors), "ab");
    assert_eq!(errors.len(), 1);
    assert_eq!(errors[0].kind, ezscn::error::ParseErrorKind::EmptyEscapeSequence);
    assert_eq!(errors[0].span.start, 2);
    assert_eq!(errors[0].span.end, 2);
    assert_eq!(errors[0].line, 3);
}

#[test]
fn hex_escape_digits_start_at_the_third_byte() {
    assert_eq!(hex_escape_sequence("\u{E9}12"), Some('\u{12}'));
    assert_eq!(hex_escape_sequence("\\x41"), Some('A'));
    assert_eq!(hex_escape_sequence("ab"), None);
    assert_eq!(hex_escape_sequence("\u{E9}"), None);
}
