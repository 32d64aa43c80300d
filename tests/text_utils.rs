use rss_bluesky_bridge::text_utils::{join_units, truncate_graphemes, truncate_to_word};

#[test]
fn test_truncate_to_word() {
    // Basic cases
    assert_eq!(truncate_to_word("Hello", 5), "Hello");
    assert_eq!(truncate_to_word("Hello, world!", 5), "Hell…");
    assert_eq!(truncate_to_word("Short", 10), "Short");

    // Edge cases with max_graphemes
    assert_eq!(truncate_to_word("Any text", 0), "Any text");
    assert_eq!(truncate_to_word("A", 1), "A");
    assert_eq!(truncate_to_word("Ab", 1), "…");

    // Exact length matches
    assert_eq!(truncate_to_word("Exactly", 7), "Exactly");
    assert_eq!(truncate_to_word("Exactly!", 7), "Exactl…");

    // Spaces and punctuation
    assert_eq!(truncate_to_word("Hello, world!", 7), "Hello,…");
    assert_eq!(truncate_to_word("Hello world", 11), "Hello world");
    assert_eq!(truncate_to_word("Hello world", 10), "Hello…");

    // Multiple spaces
    assert_eq!(truncate_to_word("Hello   world", 8), "Hello…");

    // All spaces
    assert_eq!(truncate_to_word("    ", 2), "");

    // Unicode characters
    assert_eq!(truncate_to_word("こんにちは世界", 5), "こんにち…");
    assert_eq!(truncate_to_word("🌍🌎🌏", 2), "🌍…");

    // Mixed ASCII and Unicode
    assert_eq!(truncate_to_word("Hello 世界", 7), "Hello…");

    // Long word at the start
    assert_eq!(
        truncate_to_word("Supercalifragilisticexpialidocious is long", 10),
        "Supercali…"
    );

    // No spaces
    assert_eq!(truncate_to_word("NoSpacesHere", 5), "NoSp…");

    // Empty string
    assert_eq!(truncate_to_word("", 5), "");

    // Only ellipsis fits
    assert_eq!(truncate_to_word("Too long", 1), "…");

    // Trailing spaces
    assert_eq!(truncate_to_word("Trailing spaces   ", 10), "Trailing…");

    // Leading spaces
    assert_eq!(truncate_to_word("   Leading spaces", 10), "Leading…");

    // Exactly one character over
    assert_eq!(truncate_to_word("Exactly_one_over", 15), "Exactly_one_ov…");

    // Max length is the length of the string
    assert_eq!(truncate_to_word("Exact", 5), "Exact");

    // Max length is one less than the string length
    assert_eq!(truncate_to_word("Almost", 5), "Almo…");

    // String with newlines
    assert_eq!(truncate_to_word("Line_1\nLine_2", 7), "Line_1…");

    // String with tabs
    assert_eq!(truncate_to_word("Tab\tSeparated", 5), "Tab\t…");
}

fn units(parts: &[&str]) -> Vec<String> {
    parts.iter().map(|p| p.to_string()).collect()
}

#[test]
fn fitting_text_comes_back_trimmed() {
    assert_eq!(truncate_to_word("  Short  ", 10), "Short");
    assert_eq!(truncate_to_word("\u{a0}\tfits exactly\n", 12), "fits exactly");
}

#[test]
fn zero_budget_only_trims() {
    assert_eq!(truncate_to_word("  a long text that would not fit  ", 0), "a long text that would not fit");
    assert_eq!(truncate_to_word("", 0), "");
}

#[test]
fn result_stays_within_budget() {
    let text = "The quick brown fox jumps over the lazy dog";
    for max in 1..50 {
        let r = truncate_to_word(text, max);
        assert!(r.chars().count() <= max, "budget {} gave {:?}", max, r);
    }
}

#[test]
fn combining_sequences_count_as_one_unit() {
    // "e" followed by a combining acute accent is one user-perceived character.
    let text = "e\u{301}e\u{301}e\u{301}e\u{301}";
    assert_eq!(truncate_to_word(text, 4), text);
    assert_eq!(truncate_to_word(text, 3), "e\u{301}e\u{301}…");
}

#[test]
fn cut_keeps_whole_words_only() {
    assert_eq!(truncate_to_word("one two three four", 12), "one two…");
    assert_eq!(truncate_to_word("one two three four", 8), "one two…");
    assert_eq!(truncate_to_word("one two three four", 7), "one…");
}

#[test]
fn leading_space_unit_is_not_a_cut_point() {
    let r = truncate_graphemes(units(&[" ", "a", "b", "c"]), 3);
    assert_eq!(r, units(&[" ", "a", "…"]));
}

#[test]
fn only_spaces_in_head_leave_just_the_marker() {
    let r = truncate_graphemes(units(&[" ", " ", "x"]), 2);
    assert_eq!(r, units(&["…"]));
}

#[test]
fn units_unchanged_when_they_fit() {
    let u = units(&["a", "b"]);
    assert_eq!(truncate_graphemes(u.clone(), 2), u);
    assert_eq!(truncate_graphemes(u.clone(), 0), u);
}

#[test]
fn join_writes_units_in_order() {
    assert_eq!(join_units(&units(&["ab", "", "c", "é"])), "abcé");
    assert_eq!(join_units(&Vec::new()), "");
}
