use niche::text::{
    concatenate, contains, format_decimal, format_hex_padded, format_signed, join, parse_u64, shorten,
    split_lines, starts_with, str_eq, trim,
};

#[test]
fn parse_u64_reads_plain_and_plus_prefixed_numbers() {
    assert_eq!(parse_u64("42"), Some(42));
    assert_eq!(parse_u64("+7"), Some(7));
    assert_eq!(parse_u64("0"), Some(0));
    assert_eq!(parse_u64("18446744073709551615"), Some(u64::MAX));
}

#[test]
fn parse_u64_refuses_what_str_parse_refuses() {
    assert_eq!(parse_u64(""), None);
    assert_eq!(parse_u64("+"), None);
    assert_eq!(parse_u64("-1"), None);
    assert_eq!(parse_u64("12a"), None);
    assert_eq!(parse_u64(" 1"), None);
    assert_eq!(parse_u64("18446744073709551616"), None);
    for s in ["", "+", "-1", "12a", "99999999999999999999", "+0", "007"] {
        assert_eq!(parse_u64(s), s.parse::<u64>().ok());
    }
}

#[test]
fn parse_reads_back_what_format_writes() {
    for n in [0u64, 9, 10, 1700000000, u64::MAX] {
        assert_eq!(parse_u64(&format_decimal(n as u128)), Some(n));
    }
}

#[test]
fn numbers_are_written_like_format() {
    assert_eq!(format_decimal(0), "0");
    assert_eq!(format_decimal(1234567890), "1234567890");
    assert_eq!(format_signed(-1), "-1");
    assert_eq!(format_signed(i64::MIN), i64::MIN.to_string());
    assert_eq!(format_signed(127), "127");
    assert_eq!(format_hex_padded(12345, 5), "03039");
    assert_eq!(format_hex_padded(0, 5), "00000");
    assert_eq!(format_hex_padded(99999, 5), format!("{:05x}", 99999));
}

#[test]
fn lines_split_like_str_lines() {
    for s in ["", "a", "a\n", "a\n\n", "a\r\nb\n", "\r", "x\ry", "one\ntwo\r\nthree", "\n\n"] {
        let ours = split_lines(s);
        let theirs: Vec<String> = s.lines().map(|l| l.to_string()).collect();
        assert_eq!(ours, theirs, "lines of {s:?}");
    }
}

#[test]
fn join_puts_separator_between() {
    let parts = vec!["a".to_string(), "b".to_string(), "c".to_string()];
    assert_eq!(join(&parts, ", "), "a, b, c");
    assert_eq!(join(&Vec::new(), ", "), "");
    assert_eq!(join(&vec!["solo".to_string()], "\n"), "solo");
}

#[test]
fn trim_removes_unicode_white_space() {
    for s in ["  a b  ", "\t\nx\u{3000}", "", "   ", "\u{a0}y\u{2009}", "no"] {
        assert_eq!(trim(s), s.trim());
    }
}

#[test]
fn shorten_cuts_long_text_by_bytes() {
    let long = "a".repeat(101);
    assert_eq!(shorten(&long, 100, 97), format!("{}...", "a".repeat(97)));
    let exact = "b".repeat(100);
    assert_eq!(shorten(&exact, 100, 97), exact);
}

#[test]
fn small_string_helpers() {
    assert!(str_eq("abc", "abc"));
    assert!(!str_eq("abc", "abd"));
    assert!(starts_with(".niche_sessions", ".niche"));
    assert!(!starts_with("nic", ".niche"));
    assert!(contains("a/.git/b", "/.git/"));
    assert!(!contains("a/git/b", "/.git/"));
    assert!(contains("anything", ""));
    assert_eq!(concatenate("ab", "cd"), "abcd");
}
