use icn_covm::text::{
    find_char, format_i64, format_u64, join, keep_non_empty, lines, parse_unsigned, split_char,
    starts_with, str_eq, strip_prefix, substring, trim,
};

#[test]
fn decimal_formatting_matches_display() {
    for n in [0u64, 7, 10, 99, 100, 12345, u64::MAX] {
        assert_eq!(format_u64(n), n.to_string());
    }
    for n in [0i64, -1, 42, -9050, i64::MIN, i64::MAX] {
        assert_eq!(format_i64(n), n.to_string());
    }
}

#[test]
fn unsigned_parsing_matches_std() {
    for s in ["0", "7", "+7", "255", "256", "007", "", "+", "-0", "-5", " 5", "5 ", "1_0", "٣", "99999999999999999999"] {
        assert_eq!(parse_unsigned(s, 255), s.parse::<u8>().ok().map(|v| v as u64), "{s}");
        assert_eq!(parse_unsigned(s, u64::MAX), s.parse::<u64>().ok(), "{s}");
    }
    assert_eq!(parse_unsigned("18446744073709551615", u64::MAX), Some(u64::MAX));
}

#[test]
fn trimming_matches_std() {
    for s in ["", "  ", " a ", "\t\nab c\r\n", "\u{2003}x\u{2003}", "x"] {
        assert_eq!(trim(s), s.trim());
    }
}

#[test]
fn splitting_matches_std() {
    for s in ["", "a", "a,b", ",", "a,,b,", ",x"] {
        let expected: Vec<String> = s.split(',').map(|p| p.to_string()).collect();
        assert_eq!(split_char(s, ','), expected);
    }
}

#[test]
fn lines_match_std() {
    for s in ["", "\n", "a", "a\n", "a\r\nb", "a\n\nb\n", "x\r", "x\r\n\r\n", "\r"] {
        let expected: Vec<String> = s.lines().map(|p| p.to_string()).collect();
        assert_eq!(lines(s), expected, "{s:?}");
    }
}

#[test]
fn prefixes_and_search() {
    assert!(starts_with("custom:x", "custom:"));
    assert!(!starts_with("cust", "custom:"));
    assert_eq!(strip_prefix("custom:x", "custom:"), Some("x".to_string()));
    assert_eq!(strip_prefix("other", "custom:"), None);
    assert_eq!(find_char("ab_cd_e", '_'), Some(2));
    assert_eq!(find_char("abc", '_'), None);
    assert_eq!(substring("héllo", 1, 3), "él");
    assert!(str_eq("é", "é"));
    assert!(!str_eq("a", "b"));
}

#[test]
fn joining_and_filtering() {
    let v = vec!["a".to_string(), "".to_string(), "c".to_string()];
    assert_eq!(join(&v, ", "), "a, , c");
    assert_eq!(join(&Vec::new(), ", "), "");
    assert_eq!(keep_non_empty(v), vec!["a".to_string(), "c".to_string()]);
}

#[test]
fn trim_treats_exactly_the_std_whitespace_as_whitespace() {
    for n in 0u32..=0x3100 {
        if let Some(c) = char::from_u32(n) {
            let s = format!("{c}a{c}");
            assert_eq!(trim(&s), s.trim(), "U+{n:04X}");
        }
    }
}
