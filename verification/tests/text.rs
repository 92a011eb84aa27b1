use scparse::text::{
    chars_of, closing_brace, has_prefix, is_whitespace, scan, stops_at, strip_prefix, text_of,
    trim_range, Stop,
};

fn trimmed(text: &str) -> String {
    let buf = chars_of(text);
    let (lo, hi) = trim_range(&buf, 0, buf.len());
    text_of(&buf, lo, hi)
}

#[test]
fn white_space_is_what_unicode_says() {
    for code in 0..=0x10ffffu32 {
        if let Some(c) = char::from_u32(code) {
            assert_eq!(is_whitespace(c), c.is_whitespace(), "U+{:04X}", code);
        }
    }
}

#[test]
fn trim_range_agrees_with_trim() {
    let samples = [
        "",
        " ",
        "a",
        "  a  ",
        "\n\t a b \r\n",
        "\u{3000}x y\u{2003}",
        "\u{feff}x",
        "x\u{200b}",
        " \u{85}\u{a0}é\u{1680} ",
    ];
    for sample in samples {
        assert_eq!(trimmed(sample), sample.trim());
    }
}

#[test]
fn trim_range_stays_inside_its_window() {
    let buf = chars_of("ab  cd  ef");
    assert_eq!(trim_range(&buf, 2, 8), (4, 6));
    assert_eq!(trim_range(&buf, 2, 4), (4, 4));
    assert_eq!(trim_range(&buf, 0, 10), (0, 10));
}

#[test]
fn chars_and_text_round_trip() {
    let buf = chars_of("héllo");
    assert_eq!(buf, vec!['h', 'é', 'l', 'l', 'o']);
    assert_eq!(text_of(&buf, 1, 4), "éll");
    assert_eq!(text_of(&buf, 2, 2), "");
    assert_eq!(text_of(&buf, 0, 5), "héllo");
}

#[test]
fn prefix_is_read_inside_the_window() {
    let buf = chars_of("xifif y");
    assert!(has_prefix(&buf, 1, 7, "if"));
    assert!(!has_prefix(&buf, 0, 7, "if"));
    assert!(!has_prefix(&buf, 1, 2, "if"));
    assert!(has_prefix(&buf, 1, 1, ""));
    assert!(!has_prefix(&buf, 1, 7, "elif"));
}

#[test]
fn strip_prefix_takes_every_repetition() {
    let buf = chars_of("ififi x");
    assert_eq!(strip_prefix(&buf, 0, 7, "if"), 4);
    assert_eq!(strip_prefix(&buf, 0, 3, "if"), 2);
    assert_eq!(strip_prefix(&buf, 1, 7, "if"), 1);
    assert_eq!(strip_prefix(&buf, 0, 7, ""), 0);
}

#[test]
fn scans_stop_at_their_own_characters() {
    for c in ['\n', ';', '{', '#'] {
        assert!(stops_at(Stop::Terminator, c));
    }
    for c in ['}', '=', ' ', 'a'] {
        assert!(!stops_at(Stop::Terminator, c));
    }
    assert!(stops_at(Stop::Equals, '='));
    assert!(!stops_at(Stop::Equals, ';'));
    assert!(stops_at(Stop::Newline, '\n'));
    assert!(!stops_at(Stop::Newline, '\r'));
}

#[test]
fn scan_finds_the_first_stop_or_the_end() {
    let buf = chars_of("a = b; c\nd");
    assert_eq!(scan(&buf, 0, 10, 0, Stop::Terminator), 5);
    assert_eq!(scan(&buf, 0, 10, 6, Stop::Terminator), 8);
    assert_eq!(scan(&buf, 0, 10, 9, Stop::Terminator), 10);
    assert_eq!(scan(&buf, 0, 5, 0, Stop::Equals), 2);
    assert_eq!(scan(&buf, 3, 5, 3, Stop::Equals), 5);
    assert_eq!(scan(&buf, 0, 10, 0, Stop::Newline), 8);
    assert_eq!(scan(&buf, 0, 8, 0, Stop::Newline), 8);
}

#[test]
fn closing_brace_counts_inner_blocks() {
    let buf = chars_of("{ a { b } c } d }");
    assert_eq!(closing_brace(&buf, 0, 17, 1), Some(12));
    assert_eq!(closing_brace(&buf, 0, 17, 5), Some(8));
    assert_eq!(closing_brace(&buf, 0, 17, 13), Some(16));
    assert_eq!(closing_brace(&buf, 0, 12, 1), None);
    assert_eq!(closing_brace(&buf, 0, 17, 17), None);
}
