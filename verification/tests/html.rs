use jobsearch::html::html_to_md;

#[test]
fn html_to_text() {
    assert_eq!(html_to_md("<p>Hello world</p>").as_deref(), Some("Hello world"));
    assert_eq!(html_to_md("<p>a &amp; b</p>").as_deref(), Some("a & b"));
    assert_eq!(html_to_md("   "), None);
    assert_eq!(html_to_md("<p></p>"), None);
}

#[test]
fn control_characters_in_long_words_are_dropped() {
    for html in [
        format!("<p>{}\u{1}{}</p>", "a".repeat(60), "b".repeat(100)),
        format!("<p>{}&#1;{}</p>", "a".repeat(119), "b".repeat(50)),
        format!("<pre>{}\u{1b}{}</pre>", "a".repeat(120), "b".repeat(50)),
        format!("<p>\u{85}{}</p>", "c".repeat(200)),
    ] {
        let text = html_to_md(&html).expect("text");
        assert!(!text.chars().any(|c| c.is_control() && c != '\n'));
    }
}
