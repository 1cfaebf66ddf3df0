use quill::text::{
    chars_of, decimal_string, is_white_space_char, join, parse_u64, same_text, split_whitespace,
    starts_with, trim,
};

#[test]
fn white_space_follows_unicode() {
    for c in [' ', '\t', '\n', '\r', '\u{b}', '\u{c}', '\u{85}', '\u{a0}', '\u{2003}', '\u{3000}'] {
        assert!(is_white_space_char(c), "{:?}", c);
        assert_eq!(is_white_space_char(c), c.is_whitespace());
    }
    for c in ['a', '0', '-', '\u{200b}', '\u{feff}'] {
        assert!(!is_white_space_char(c), "{:?}", c);
        assert_eq!(is_white_space_char(c), c.is_whitespace());
    }
}

#[test]
fn chars_in_order() {
    assert_eq!(chars_of("añb"), vec!['a', 'ñ', 'b']);
    assert_eq!(chars_of(""), Vec::<char>::new());
}

#[test]
fn trim_removes_both_ends() {
    assert_eq!(trim("  ab c \n"), "ab c");
    assert_eq!(trim("\u{a0}x\u{3000}"), "x");
    assert_eq!(trim("   "), "");
    assert_eq!(trim(""), "");
    assert_eq!(trim("x"), "x");
}

#[test]
fn words_are_maximal_runs() {
    assert_eq!(split_whitespace("MemTotal:   16384 kB"), vec!["MemTotal:", "16384", "kB"]);
    assert_eq!(split_whitespace("  a\u{a0}b\t\tc  "), vec!["a", "b", "c"]);
    assert_eq!(split_whitespace("   "), Vec::<String>::new());
    assert_eq!(split_whitespace("-b:v 350k"), vec!["-b:v", "350k"]);
}

#[test]
fn prefix_and_equality() {
    assert!(starts_with("MemTotal: 1 kB", "MemTotal:"));
    assert!(!starts_with("MemFree: 1 kB", "MemTotal:"));
    assert!(!starts_with("Mem", "MemTotal:"));
    assert!(starts_with("x", ""));
    assert!(same_text("--seek", "--seek"));
    assert!(!same_text("--seek", "--see"));
}

#[test]
fn parse_follows_u64_from_str() {
    let cases = [
        "", "+", "-", "0", "+7", "-7", "007", "42", " 42", "42 ", "4_2", "18446744073709551615",
        "18446744073709551616", "99999999999999999999999", "+18446744073709551615", "1a",
    ];
    for c in cases {
        assert_eq!(parse_u64(c), c.parse::<u64>().ok(), "{:?}", c);
    }
    assert_eq!(parse_u64("+7"), Some(7));
    assert_eq!(parse_u64("18446744073709551616"), None);
}

#[test]
fn decimal_matches_to_string() {
    for n in [0u64, 7, 10, 405, 4000, 1_000_000, u64::MAX] {
        assert_eq!(decimal_string(n), n.to_string());
    }
}

#[test]
fn decimal_reads_back() {
    for n in [0u64, 9, 10, 350, 123_456_789, u64::MAX] {
        assert_eq!(parse_u64(&decimal_string(n)), Some(n));
    }
}

#[test]
fn join_puts_separator_between() {
    let parts = vec!["-y".to_string(), "-i".to_string(), "in.mp4".to_string()];
    assert_eq!(join(&parts, " "), "-y -i in.mp4");
    assert_eq!(join(&Vec::new(), " "), "");
    assert_eq!(join(&vec!["a".to_string()], ", "), "a");
}
