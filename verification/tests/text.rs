use kiiyo_api::text::{contains, less, parse_u64, same};

#[test]
fn parse_reads_plain_and_plus_signed_digits() {
    assert_eq!(parse_u64("48213"), Some(48213));
    assert_eq!(parse_u64("+7"), Some(7));
    assert_eq!(parse_u64("007"), Some(7));
    assert_eq!(parse_u64("18446744073709551615"), Some(u64::MAX));
}

#[test]
fn parse_refuses_what_u64_parsing_refuses() {
    for s in ["", "+", "-", "-1", "1.5", " 1", "1 ", "18446744073709551616", "99999999999999999999x", "x"] {
        assert_eq!(parse_u64(s), s.parse::<u64>().ok(), "input {s:?}");
        assert_eq!(parse_u64(s), None);
    }
}

#[test]
fn contains_and_same_and_less() {
    assert!(contains("https://x/2a96cbd8b46e442fc41c2b86b821562f.png", "2a96cbd8b46e442fc41c2b86b821562f"));
    assert!(!contains("https://x/a.png", "2a96cbd8"));
    assert!(contains("abc", ""));
    assert!(same("é", "é"));
    assert!(!same("ab", "abc"));
    assert!(less("Ada", "C"));
    assert!(less("ab", "abc"));
    assert!(!less("abc", "abc"));
    assert!(less("Z", "a"));
}
