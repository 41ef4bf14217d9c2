use build_proxy::ansi::strip_ansi;

#[test]
fn escape_sequences_are_taken_out() {
    assert_eq!(strip_ansi("\u{1b}[32mfoo\u{1b}[m bar"), "foo bar");
    assert_eq!(strip_ansi("\u{1b}[1m\u{1b}[31merror\u{1b}[0m: é"), "error: é");
    assert_eq!(strip_ansi("\u{1b}]0;title\u{7}text"), "text");
    assert_eq!(strip_ansi(""), "");
}

#[test]
fn control_characters_are_taken_out() {
    assert_eq!(strip_ansi("a\tb\rc\nd\u{85}e\u{7f}"), "abc\nde\u{7f}");
}

#[test]
fn stripping_twice_changes_nothing_more() {
    for text in [
        "plain",
        "\u{1b}[32mfoo\u{1b}[m\tbar",
        "\u{1b}P\u{11c}\u{1b}\\x",
        "\u{1b}",
        "a\u{1b}é",
    ] {
        let once = strip_ansi(text);
        assert!(once.chars().all(|c| c == '\n' || !(c <= '\u{1f}' || ('\u{80}'..='\u{9f}').contains(&c))));
        assert_eq!(strip_ansi(&once), once);
    }
}
