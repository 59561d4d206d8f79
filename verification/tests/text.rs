use question::answer::answer_from_line;
use question::prompt::ends_with_single_space;
use question::prompt::ensure_ends_with_whitespace;
use question::whitespace::is_whitespace;
use question::whitespace::trim_str;

#[test]
fn is_whitespace_agrees_with_std_on_every_character() {
    for code in 0..=0x10FFFFu32 {
        if let Some(c) = char::from_u32(code) {
            assert_eq!(is_whitespace(c), c.is_whitespace(), "U+{:04X}", code);
        }
    }
}

#[test]
fn is_whitespace_on_the_edges_of_its_ranges() {
    for c in ['\t', '\n', '\u{b}', '\u{c}', '\r', ' ', '\u{85}', '\u{a0}', '\u{1680}'] {
        assert!(is_whitespace(c));
    }
    for c in ['\u{2000}', '\u{200a}', '\u{2028}', '\u{2029}', '\u{202f}', '\u{205f}', '\u{3000}'] {
        assert!(is_whitespace(c));
    }
    for c in ['\u{8}', '\u{e}', '\u{1f}', '!', 'a', '\u{84}', '\u{86}', '\u{9f}', '\u{a1}'] {
        assert!(!is_whitespace(c));
    }
    for c in ['\u{180e}', '\u{1fff}', '\u{200b}', '\u{2027}', '\u{202a}', '\u{2060}', '\u{feff}'] {
        assert!(!is_whitespace(c));
    }
}

#[test]
fn trim_str_strips_both_ends() {
    assert_eq!(trim_str("  answer text \n"), "answer text");
    assert_eq!(trim_str("answer text"), "answer text");
    assert_eq!(trim_str("\t\r\n x"), "x");
    assert_eq!(trim_str("x \u{3000}"), "x");
    assert_eq!(trim_str("a"), "a");
}

#[test]
fn trim_str_keeps_the_whitespace_inside() {
    assert_eq!(trim_str(" a \t b "), "a \t b");
    assert_eq!(trim_str("\u{a0}é \u{2003} ü\u{2028}"), "é \u{2003} ü");
}

#[test]
fn trim_str_of_whitespace_is_empty() {
    assert_eq!(trim_str(""), "");
    assert_eq!(trim_str(" "), "");
    assert_eq!(trim_str(" \t\r\n\u{85}\u{2009}"), "");
}

#[test]
fn trim_str_agrees_with_std() {
    let samples = [
        "",
        "x",
        " x",
        "x ",
        "  I'm fine, thank you!\n",
        "\u{feff} x \u{feff}",
        "\u{200b}x\u{200b}",
        "\u{1680}\u{2000}日本語 テキスト\u{205f}\u{202f}",
        "\n\n\n",
        "a\nb\n",
    ];
    for sample in samples {
        assert_eq!(trim_str(sample), sample.trim(), "{:?}", sample);
    }
}

#[test]
fn ends_with_single_space_counts_the_spaces() {
    assert!(ends_with_single_space(" "));
    assert!(ends_with_single_space("a "));
    assert!(ends_with_single_space("a b "));
    assert!(ends_with_single_space("é "));
    assert!(ends_with_single_space("\t "));
    assert!(!ends_with_single_space(""));
    assert!(!ends_with_single_space("a"));
    assert!(!ends_with_single_space("  "));
    assert!(!ends_with_single_space("a  "));
    assert!(!ends_with_single_space(" a"));
    assert!(!ends_with_single_space("a\t"));
    assert!(!ends_with_single_space("a\u{a0}"));
    assert!(!ends_with_single_space("a\u{2020}"));
}

#[test]
fn ensure_ends_with_whitespace_adds_one_space() {
    assert_eq!(ensure_ends_with_whitespace("How are you?"), "How are you? ");
    assert_eq!(ensure_ends_with_whitespace(""), " ");
    assert_eq!(ensure_ends_with_whitespace("a\n"), "a\n ");
    assert_eq!(ensure_ends_with_whitespace("a  "), "a   ");
    assert_eq!(ensure_ends_with_whitespace("é"), "é ");
}

#[test]
fn ensure_ends_with_whitespace_keeps_one_space() {
    assert_eq!(ensure_ends_with_whitespace("How are you? "), "How are you? ");
    assert_eq!(ensure_ends_with_whitespace(" "), " ");
}

#[test]
fn ensure_ends_with_whitespace_twice_is_once() {
    for text in ["", "a", "a ", " ", "a\t", "a b", "?"] {
        let once = ensure_ends_with_whitespace(text);
        assert_eq!(ensure_ends_with_whitespace(&once), once);
    }
}

#[test]
fn ensure_ends_with_whitespace_adds_to_a_run_of_spaces() {
    let once = ensure_ends_with_whitespace("a  ");
    assert_eq!(once, "a   ");
    assert_eq!(ensure_ends_with_whitespace(&once), "a    ");
}

#[test]
fn answer_from_line_is_none_when_nothing_was_read() {
    assert_eq!(answer_from_line(0, ""), None);
}

#[test]
fn answer_from_line_trims_what_was_read() {
    assert_eq!(answer_from_line(12, "answer text\n"), Some("answer text".to_owned()));
    assert_eq!(answer_from_line(4, "   \n"), Some(String::new()));
    assert_eq!(answer_from_line(1, "\n"), Some(String::new()));
    assert_eq!(answer_from_line(3, "yes"), Some("yes".to_owned()));
}
