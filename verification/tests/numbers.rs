use bydleni::numbers::{fmt_int, parse_i32, parse_u16};

fn chars(s: &str) -> Vec<char> {
    s.chars().collect()
}

#[test]
fn parse_i32_like_std() {
    for s in [
        "0", "42", "+42", "-42", "007", "2147483647", "-2147483648", "2147483648", "-2147483649",
        "", "+", "-", "1 ", " 1", "1e3", "++1", "99999999999999999999", "٣",
    ] {
        assert_eq!(parse_i32(&chars(s)), s.parse::<i32>().ok(), "input {s:?}");
    }
}

#[test]
fn parse_u16_like_std() {
    for s in ["0", "65535", "65536", "+80", "-0", "-1", "", "3000", "80a"] {
        assert_eq!(parse_u16(&chars(s)), s.parse::<u16>().ok(), "input {s:?}");
    }
}

#[test]
fn fmt_int_like_std() {
    for v in [0i64, 7, -7, 10, 2024, -999, i64::MAX, i64::MIN] {
        assert_eq!(fmt_int(v), v.to_string());
    }
}

#[test]
fn print_then_parse_roundtrip() {
    for v in [0i32, 1, -1, 2025, i32::MAX, i32::MIN] {
        assert_eq!(parse_i32(&chars(&fmt_int(v as i64))), Some(v));
    }
}
