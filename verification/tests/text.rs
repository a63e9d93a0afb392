use zed_harnlang::text::{get_word_at_position, word_lookup_supported};

#[test]
fn text_test_get_word_at_start() {
    let text = "Harness::init()";
    assert_eq!(get_word_at_position(text, 0, 0), Some("Harness".to_string()));
    assert_eq!(get_word_at_position(text, 0, 3), Some("Harness".to_string()));
    assert_eq!(get_word_at_position(text, 0, 7), Some("Harness".to_string()));
}

#[test]
fn text_test_get_word_in_middle() {
    let text = "let h = HarnessContext_v2::new();";
    assert_eq!(get_word_at_position(text, 0, 10), Some("HarnessContext_v2".to_string()));
}

#[test]
fn text_test_get_word_punctuation_or_spaces() {
    let text = "fn   main() {\n  // comment\n}";
    assert_eq!(get_word_at_position(text, 0, 3), None);

    let text2 = "a + ( b )";
    assert_eq!(get_word_at_position(text2, 0, 4), None);
}

#[test]
fn text_test_get_word_multiline() {
    let text = "line0\nline1_word\nline2";
    assert_eq!(get_word_at_position(text, 1, 6), Some("line1_word".to_string()));
}

#[test]
fn text_test_get_word_out_of_bounds() {
    let text = "hello";
    assert_eq!(get_word_at_position(text, 5, 0), None);
    assert_eq!(get_word_at_position(text, 0, 100), None);
    assert_eq!(get_word_at_position("", 0, 0), None);
}

#[test]
fn text_test_get_word_unicode() {
    let text = "let привет = Harness::new();";
    assert_eq!(get_word_at_position(text, 0, 4), Some("привет".to_string()));
    let harness_idx = text.find("Harness").unwrap();
    assert_eq!(get_word_at_position(text, 0, harness_idx + 2), Some("Harness".to_string()));
}

#[test]
fn lines_follow_str_lines() {
    let text = "first\r\nsecond_line\r\n\nlast";
    assert_eq!(get_word_at_position(text, 0, 5), Some("first".to_string()));
    assert_eq!(get_word_at_position(text, 1, 0), Some("second_line".to_string()));
    assert_eq!(get_word_at_position(text, 1, 11), Some("second_line".to_string()));
    assert_eq!(get_word_at_position(text, 1, 12), None);
    assert_eq!(get_word_at_position(text, 2, 0), None);
    assert_eq!(get_word_at_position(text, 3, 4), Some("last".to_string()));
    assert_eq!(get_word_at_position(text, 4, 0), None);
    assert_eq!(get_word_at_position("only\n", 1, 0), None);
    assert_eq!(get_word_at_position("a\rb", 0, 0), Some("a".to_string()));
}

#[test]
fn word_boundaries_are_exact() {
    assert_eq!(get_word_at_position("x y", 0, 1), Some("x".to_string()));
    assert_eq!(get_word_at_position("x y", 0, 2), Some("y".to_string()));
    assert_eq!(get_word_at_position("_a1 ", 0, 3), Some("_a1".to_string()));
    // Walking back stops at a byte that does not start a character, so a
    // word of multi-byte characters is found only from its first byte.
    assert_eq!(get_word_at_position("日本語 x", 0, 9), None);
    assert_eq!(get_word_at_position("日本語 x", 0, 0), Some("日本語".to_string()));
    assert_eq!(get_word_at_position("é_b", 0, 2), Some("_b".to_string()));
    assert_eq!(get_word_at_position("é_b", 0, 0), Some("é_b".to_string()));
}

#[test]
fn lookup_support_is_about_character_boundaries() {
    let text = "let привет = 1;\nok";
    assert!(word_lookup_supported(text, 0, 4));
    assert!(!word_lookup_supported(text, 0, 5));
    assert!(word_lookup_supported(text, 0, 6));
    assert!(word_lookup_supported(text, 0, 1000));
    assert!(word_lookup_supported(text, 7, 5));
    assert!(word_lookup_supported(text, 1, 2));
}
