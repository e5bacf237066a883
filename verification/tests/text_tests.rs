use banditrs::text::{parse_i64, parse_u32, sort_strings};

#[test]
fn integer_parsing_follows_str_parse() {
    for s in ["0", "42", "+7", "-7", "-9223372036854775808", "9223372036854775807", "9223372036854775808", "", "+", "-", " 1", "1a", "00012"] {
        assert_eq!(parse_i64(s), s.parse::<i64>().ok(), "{s}");
        assert_eq!(parse_u32(s), s.parse::<u32>().ok(), "{s}");
    }
    assert_eq!(parse_u32("4294967295"), Some(u32::MAX));
    assert_eq!(parse_u32("4294967296"), None);
}

#[test]
fn sorting_keeps_duplicates() {
    let r = sort_strings(vec!["b".to_string(), "a".to_string(), "b".to_string(), "A".to_string()]);
    assert_eq!(r, vec!["A", "a", "b", "b"]);
}
