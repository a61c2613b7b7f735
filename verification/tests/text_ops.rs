use scraping_engine::text::{find_sub, join_path, name_marks_date, parse_i64, parse_usize,
    starts_with, str_eq, tmp_path, trim_str, usize_to_dec};

#[test]
fn trim_removes_surrounding_whitespace() {
    assert_eq!(trim_str("  a b \t\n"), "a b");
    assert_eq!(trim_str("xyz"), "xyz");
    assert_eq!(trim_str("   "), "");
    assert_eq!(trim_str(""), "");
    assert_eq!(trim_str(" h\u{e9}llo \u{a0}"), "h\u{e9}llo");
}

#[test]
fn parse_usize_accepts_what_std_accepts() {
    assert_eq!(parse_usize("0"), Some(0));
    assert_eq!(parse_usize("42"), Some(42));
    assert_eq!(parse_usize("+7"), Some(7));
    assert_eq!(parse_usize(""), None);
    assert_eq!(parse_usize("+"), None);
    assert_eq!(parse_usize("-1"), None);
    assert_eq!(parse_usize("4x"), None);
    assert_eq!(parse_usize("99999999999999999999999999"), None);
    assert_eq!(parse_usize("007"), Some(7));
}

#[test]
fn parse_i64_handles_signs_and_bounds() {
    assert_eq!(parse_i64("-1500"), Some(-1500));
    assert_eq!(parse_i64("+12"), Some(12));
    assert_eq!(parse_i64("9223372036854775807"), Some(i64::MAX));
    assert_eq!(parse_i64("-9223372036854775808"), Some(i64::MIN));
    assert_eq!(parse_i64("9223372036854775808"), None);
    assert_eq!(parse_i64("abc"), None);
}

#[test]
fn decimal_formatting_matches_std() {
    assert_eq!(usize_to_dec(0), "0");
    assert_eq!(usize_to_dec(10), "10");
    assert_eq!(usize_to_dec(90210), "90210");
    assert_eq!(usize_to_dec(usize::MAX), usize::MAX.to_string());
}

#[test]
fn path_helpers_compose_like_the_platform() {
    assert_eq!(join_path("out", "f.txt"), "out/f.txt");
    assert_eq!(join_path("out/", "f.txt"), "out/f.txt");
    assert_eq!(join_path("", "f.txt"), "f.txt");
    assert_eq!(join_path("out", "/abs.txt"), "/abs.txt");
    assert_eq!(tmp_path("out/f.txt"), "out/f.txt.tmp");
}

#[test]
fn searching_and_matching() {
    assert!(str_eq("abc", "abc"));
    assert!(!str_eq("abc", "abd"));
    assert!(starts_with("image/png", "image/"));
    assert!(!starts_with("text/html", "image/"));
    assert_eq!(find_sub("a charset=utf-8", "charset="), Some(2));
    assert_eq!(find_sub("abc", "charset="), None);
    assert!(name_marks_date("updateDate"));
    assert!(name_marks_date("DATE_FIELD"));
    assert!(!name_marks_date("data"));
}
