use radio::text::{decimal_string, parse_usize, str_equal};

#[test]
fn decimal_string_writes_plain_decimal() {
    assert_eq!(decimal_string(0), "0");
    assert_eq!(decimal_string(7), "7");
    assert_eq!(decimal_string(10), "10");
    assert_eq!(decimal_string(44100), "44100");
    assert_eq!(decimal_string(u32::MAX), "4294967295");
}

#[test]
fn parse_usize_accepts_what_str_parse_accepts() {
    for s in ["0", "42", "+42", "007", "18446744073709551615"] {
        assert_eq!(parse_usize(s), s.parse::<usize>().ok(), "{}", s);
    }
    assert_eq!(parse_usize("+42"), Some(42));
    assert_eq!(parse_usize("007"), Some(7));
}

#[test]
fn parse_usize_rejects_what_str_parse_rejects() {
    for s in ["", "+", "-", "-1", " 1", "1 ", "12a", "++1", "1.5", "18446744073709551616", "٣"] {
        assert_eq!(parse_usize(s), None, "{}", s);
        assert_eq!(s.parse::<usize>().ok(), None, "{}", s);
    }
}

#[test]
fn parse_of_decimal_roundtrips() {
    for n in [0u32, 1, 9, 10, 99, 100, 65535, 4294967295] {
        assert_eq!(parse_usize(&decimal_string(n)), Some(n as usize));
    }
}

#[test]
fn str_equal_compares_characters() {
    assert!(str_equal("audio/mpeg", "audio/mpeg"));
    assert!(!str_equal("audio/mpeg", "audio/mpe"));
    assert!(!str_equal("audio/mpeg", "Audio/mpeg"));
    assert!(str_equal("", ""));
    assert!(str_equal("Café", "Café"));
}
