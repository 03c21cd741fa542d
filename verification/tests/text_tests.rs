use captains_log::text::{ends_with, is_blank, starts_with};

#[test]
fn blank_text_is_empty_or_white_space() {
    assert!(is_blank(""));
    assert!(is_blank(" "));
    assert!(is_blank(" \t\r\n"));
    assert!(is_blank("\u{3000}\u{a0}\u{2003}"));
}

#[test]
fn text_with_a_visible_character_is_not_blank() {
    assert!(!is_blank("a"));
    assert!(!is_blank("  a  "));
    assert!(!is_blank("\n\n.\n"));
    assert!(!is_blank("\u{200b}"));
    assert!(!is_blank(" \u{e9} "));
}

#[test]
fn blank_is_what_trimming_leaves_empty() {
    for text in ["", "   ", "x", " x", "x ", "\t\n", "line one\nline two", "\u{2028}", "\u{feff}"] {
        assert_eq!(is_blank(text), text.trim().is_empty());
    }
}

#[test]
fn starts_with_compares_the_leading_characters() {
    assert!(starts_with("event12", "event"));
    assert!(starts_with("event", "event"));
    assert!(starts_with("anything", ""));
    assert!(starts_with("", ""));
    assert!(!starts_with("even", "event"));
    assert!(!starts_with("prevent", "event"));
    assert!(!starts_with("", "e"));
    assert!(starts_with("\u{e9}t\u{e9}", "\u{e9}t"));
    assert!(!starts_with("\u{e9}t\u{e9}", "et"));
}

#[test]
fn ends_with_compares_the_trailing_characters() {
    assert!(ends_with("a.json", ".json"));
    assert!(ends_with(".json", ".json"));
    assert!(ends_with("anything", ""));
    assert!(!ends_with("json", ".json"));
    assert!(!ends_with("a.json5", ".json"));
    assert!(!ends_with("", "x"));
    assert!(ends_with("na\u{ef}ve.json", ".json"));
    assert!(ends_with("caf\u{e9}", "f\u{e9}"));
}

#[test]
fn prefix_and_suffix_tests_agree_with_the_standard_library() {
    let texts =
        ["", "e", "event", "event0", "a.json", ".json", "\u{e9}v\u{e9}nement", "x.json.json"];
    let parts = ["", "e", "event", ".json", "json", "\u{e9}", "n"];
    for text in texts {
        for part in parts {
            assert_eq!(starts_with(text, part), text.starts_with(part));
            assert_eq!(ends_with(text, part), text.ends_with(part));
        }
    }
}
