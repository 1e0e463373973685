use depscan::file_handler::string_exists_in_multiline_text;

#[test]
fn string_exists() {
    let content = "foo\nbar\nbazz";
    assert_eq!(string_exists_in_multiline_text("bar", &content), true);
    assert_eq!(string_exists_in_multiline_text("foo", &content), true);
    assert_eq!(string_exists_in_multiline_text("fooo", &content), false);
    assert_eq!(string_exists_in_multiline_text("bazzz", &content), false);
}

#[test]
fn string_exists_matches_inside_words() {
    // A plain substring match: no word boundaries are required.
    assert_eq!(string_exists_in_multiline_text("log", "the catalogue"), true);
}

#[test]
fn string_exists_does_not_cross_lines() {
    // The term must sit inside one line; a match spanning the separator
    // does not count.
    assert_eq!(string_exists_in_multiline_text("ab", "a\nb"), false);
    assert_eq!(string_exists_in_multiline_text("ab", "xab\ny"), true);
}

#[test]
fn string_exists_empty_cases() {
    // Empty text has no lines at all, so even the empty term is absent.
    assert_eq!(string_exists_in_multiline_text("", ""), false);
    assert_eq!(string_exists_in_multiline_text("", "x"), true);
    assert_eq!(string_exists_in_multiline_text("x", ""), false);
}

#[test]
fn string_exists_carriage_returns() {
    // A carriage return before the separator is not part of the line.
    assert_eq!(string_exists_in_multiline_text("bar\r", "bar\r\nbaz"), false);
    assert_eq!(string_exists_in_multiline_text("bar", "bar\r\nbaz"), true);
    // One at the very end of the text is kept.
    assert_eq!(string_exists_in_multiline_text("bar\r", "bar\r"), true);
}

#[test]
fn string_exists_trailing_newline() {
    assert_eq!(string_exists_in_multiline_text("bazz", "foo\nbazz\n"), true);
    assert_eq!(string_exists_in_multiline_text("qux", "foo\nbazz\n"), false);
}
