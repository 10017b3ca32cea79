use sysfacts::text::{parse_u64, split_colon, split_lines, starts_with, to_decimal, trim};

#[test]
fn trim_both_ends() {
    assert_eq!(trim("  a b\t\n"), "a b");
    assert_eq!(trim("plain"), "plain");
    assert_eq!(trim("   \t\r\n"), "");
    assert_eq!(trim(""), "");
}

#[test]
fn split_lines_basic() {
    assert_eq!(split_lines("a\nb\n"), vec!["a", "b"]);
    assert_eq!(split_lines("a\n\nb"), vec!["a", "", "b"]);
    assert_eq!(split_lines("solo"), vec!["solo"]);
    assert_eq!(split_lines(""), Vec::<String>::new());
    assert_eq!(split_lines("\n"), vec![""]);
}

#[test]
fn split_colon_cases() {
    // the remainder keeps its spacing but for one leading space
    assert_eq!(
        split_colon("MemTotal:   16 kB"),
        Some(("MemTotal".to_string(), "  16 kB".to_string()))
    );
    assert_eq!(split_colon("a:b:c"), Some(("a".to_string(), "b:c".to_string())));
    assert_eq!(split_colon("k:\tv"), Some(("k".to_string(), "\tv".to_string())));
    assert_eq!(split_colon("nocolon"), None);
    assert_eq!(split_colon(":"), Some(("".to_string(), "".to_string())));
    assert_eq!(split_colon(": x"), Some(("".to_string(), "x".to_string())));
}

#[test]
fn starts_with_cases() {
    assert!(starts_with("processor\t: 0", "processor"));
    assert!(starts_with("abc", ""));
    assert!(!starts_with("proc", "processor"));
    assert!(!starts_with("xprocessor", "processor"));
}

#[test]
fn parse_u64_cases() {
    assert_eq!(parse_u64("0"), Some(0));
    assert_eq!(parse_u64("007"), Some(7));
    assert_eq!(parse_u64("18446744073709551615"), Some(u64::MAX));
    assert_eq!(parse_u64("18446744073709551616"), None);
    assert_eq!(parse_u64(""), None);
    assert_eq!(parse_u64("12a"), None);
    assert_eq!(parse_u64("-3"), None);
    assert_eq!(parse_u64(" 5"), None);
}

#[test]
fn to_decimal_cases() {
    assert_eq!(to_decimal(0), "0");
    assert_eq!(to_decimal(7), "7");
    assert_eq!(to_decimal(1234567890), "1234567890");
    assert_eq!(to_decimal(u64::MAX), "18446744073709551615");
}
