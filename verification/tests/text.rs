use ultracam::decimal::{decimal_string, parse_u16, parse_u32, two_digit_string};
use ultracam::text::{
    split_text, text_equals, text_order, text_starts_with, trim_text, TextOrder,
};

#[test]
fn split_keeps_empty_fields() {
    assert_eq!(split_text("a  b", ' '), vec!["a", "", "b"]);
    assert_eq!(split_text("", ':'), vec![""]);
    assert_eq!(split_text(":", ':'), vec!["", ""]);
    assert_eq!(split_text("12:30", ':'), vec!["12", "30"]);
}

#[test]
fn order_is_string_order() {
    let pairs = [("a", "b"), ("", "a"), ("ab", "abc"), ("10", "2"), ("Z", "a"), ("z", "é")];
    for (a, b) in pairs {
        assert_eq!(text_order(a, b), TextOrder::Before);
        assert_eq!(text_order(b, a), TextOrder::After);
        assert!(a < b);
    }
    assert_eq!(text_order("same", "same"), TextOrder::Same);
    assert_eq!(text_order("汉", "汉"), TextOrder::Same);
    assert!(!text_equals("ab", "abc"));
    assert!(text_equals("", ""));
}

#[test]
fn prefixes() {
    assert!(text_starts_with("KEYFRAME 1", "KEYFRAME"));
    assert!(!text_starts_with("KEY", "KEYFRAME"));
    assert!(text_starts_with("x", ""));
}

#[test]
fn trim_matches_std() {
    for s in ["  a b  ", "\t\n x\r\n", "", "   ", "\u{3000}ip\u{2028}", "\u{a0}5555 ", "no"] {
        assert_eq!(trim_text(s), s.trim());
    }
}

#[test]
fn unsigned_numbers_read_as_std_reads_them() {
    let cases = [
        "0", "7", "007", "+5", "+", "-", "-0", "", " 1", "1 ", "12a", "4294967295", "4294967296",
        "99999999999999999999", "٣", "65535", "65536",
    ];
    for s in cases {
        assert_eq!(parse_u32(s), s.parse::<u32>().ok(), "{s:?}");
        assert_eq!(parse_u16(s), s.parse::<u16>().ok(), "{s:?}");
    }
}

#[test]
fn decimal_text() {
    assert_eq!(decimal_string(0), "0");
    assert_eq!(decimal_string(1234), "1234");
    assert_eq!(decimal_string(u32::MAX), u32::MAX.to_string());
    assert_eq!(two_digit_string(7), "07");
    assert_eq!(two_digit_string(42), "42");
}
