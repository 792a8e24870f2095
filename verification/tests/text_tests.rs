use netover::text::{is_six_upper, mask_prefix, parse_u32, push_decimal, split_spaces_exec};

#[test]
fn mask_prefix_shows_only_the_start() {
    assert_eq!(mask_prefix("abcdefghij", 4), "abcd...");
    assert_eq!(mask_prefix("abc", 4), "abc...");
    assert_eq!(mask_prefix("", 2), "...");
    assert_eq!(mask_prefix("日本語テキスト", 2), "日本...");
}

#[test]
fn six_uppercase_ids() {
    assert!(is_six_upper("ABCDEF"));
    assert!(!is_six_upper("ABCDE"));
    assert!(!is_six_upper("ABCDEFG"));
    assert!(!is_six_upper("abcdef"));
    assert!(!is_six_upper("ABC1EF"));
    assert!(!is_six_upper(""));
}

#[test]
fn parse_u32_as_std_does() {
    assert_eq!(parse_u32("0"), Some(0));
    assert_eq!(parse_u32("42"), Some(42));
    assert_eq!(parse_u32("+7"), Some(7));
    assert_eq!(parse_u32("007"), Some(7));
    assert_eq!(parse_u32("4294967295"), Some(u32::MAX));
    assert_eq!(parse_u32("4294967296"), None);
    assert_eq!(parse_u32(""), None);
    assert_eq!(parse_u32("+"), None);
    assert_eq!(parse_u32("-1"), None);
    assert_eq!(parse_u32(" 1"), None);
    assert_eq!(parse_u32("1a"), None);
    for s in ["0", "42", "+7", "4294967295", "4294967296", "", "-1", "x"] {
        assert_eq!(parse_u32(s), s.parse::<u32>().ok());
    }
}

#[test]
fn split_at_every_space() {
    assert_eq!(split_spaces_exec("KEY_DOWN A"), vec!["KEY_DOWN", "A"]);
    assert_eq!(split_spaces_exec("a  b"), vec!["a", "", "b"]);
    assert_eq!(split_spaces_exec(""), vec![""]);
    assert_eq!(split_spaces_exec(" "), vec!["", ""]);
    for s in ["x y z", "  ", "no_space", "trailing "] {
        assert_eq!(split_spaces_exec(s), s.split(" ").collect::<Vec<_>>());
    }
}

#[test]
fn decimal_rendering() {
    let mut s = String::from("n=");
    push_decimal(&mut s, 0);
    assert_eq!(s, "n=0");
    let mut t = String::new();
    push_decimal(&mut t, 4294967295);
    assert_eq!(t, "4294967295");
    let mut u = String::new();
    push_decimal(&mut u, 1020);
    assert_eq!(u, "1020");
}
