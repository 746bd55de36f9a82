use rusty_llm::keyword::sanitize_keyword;

#[test]
fn sanitize_normal_input_unchanged() {
    assert_eq!(sanitize_keyword("hello world"), "hello world");
}

#[test]
fn sanitize_strips_control_chars() {
    assert_eq!(sanitize_keyword("hello\x00world"), "helloworld");
    assert_eq!(sanitize_keyword("test\x01\x02\x03value"), "testvalue");
}

#[test]
fn sanitize_preserves_space() {
    assert_eq!(sanitize_keyword("hello world"), "hello world");
}

#[test]
fn sanitize_collapses_multiple_spaces() {
    assert_eq!(sanitize_keyword("hello    world"), "hello world");
}

#[test]
fn sanitize_collapses_tabs_and_newlines() {
    assert_eq!(sanitize_keyword("hello\t\n\r  world"), "hello world");
}

#[test]
fn sanitize_trims_leading_trailing() {
    assert_eq!(sanitize_keyword("  hello world  "), "hello world");
}

#[test]
fn sanitize_all_whitespace_becomes_empty() {
    assert_eq!(sanitize_keyword("   \t\n  "), "");
}

#[test]
fn sanitize_all_control_chars_becomes_empty() {
    assert_eq!(sanitize_keyword("\x00\x01\x02"), "");
}

#[test]
fn sanitize_preserves_unicode() {
    assert_eq!(sanitize_keyword("café résumé"), "café résumé");
}

#[test]
fn sanitize_mixed_control_and_whitespace() {
    assert_eq!(
        sanitize_keyword("\x00 hello \x01 \t world \x02"),
        "hello world"
    );
}

#[test]
fn sanitize_treats_every_character_as_documented() {
    for code in 0..=0x10ffff_u32 {
        if let Some(c) = char::from_u32(code) {
            let expected = if c.is_ascii_control() && c != '\t' && c != '\n' && c != '\r' {
                "ab".to_string()
            } else if c.is_whitespace() {
                "a b".to_string()
            } else {
                format!("a{c}b")
            };
            assert_eq!(sanitize_keyword(&format!("a{c}b")), expected, "{code:x}");
        }
    }
}

#[test]
fn sanitize_result_is_clean() {
    let raw = " \u{3000}best\x0b \x7f\u{2003}coffee\r\n\u{a0}shops \x0c in\u{85}Seattle\x1f ";
    let keyword = sanitize_keyword(raw);
    assert_eq!(keyword, "best coffee shops in Seattle");
    assert_eq!(sanitize_keyword(&keyword), keyword);
}

#[test]
fn sanitize_keeps_other_characters_in_order() {
    let raw = "\x00z\ty x\x1b[0m 字\u{200b}!";
    let letters = |text: &str| -> String {
        text.chars()
            .filter(|c| !c.is_whitespace() && !c.is_ascii_control())
            .collect()
    };
    assert_eq!(letters(&sanitize_keyword(raw)), letters(raw));
    assert_eq!(sanitize_keyword(raw), "z y x[0m 字\u{200b}!");
}

#[test]
fn sanitize_vertical_tab_joins_words() {
    assert_eq!(sanitize_keyword("a\x0bb\x0cc"), "abc");
}
