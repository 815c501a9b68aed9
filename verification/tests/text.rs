use kute::text::{push_zero_padded, chars_of, parse_bool, parse_i32, parse_i64, parse_u64, split_all_exec, trim_exec};

fn chars(s: &str) -> Vec<char> {
    s.chars().collect()
}

#[test]
fn numbers_parse_like_from_str() {
    for text in ["0", "+0", "-0", "12", "+12", "-12", "007", "4294967295", "18446744073709551615", "18446744073709551616", "", "+", "-", "1 ", " 1", "1_0", "٣"] {
        assert_eq!(parse_u64(&chars(text)), text.parse::<u64>().ok(), "u64 {text:?}");
        assert_eq!(parse_i64(&chars(text)), text.parse::<i64>().ok(), "i64 {text:?}");
        assert_eq!(parse_i32(&chars(text)), text.parse::<i32>().ok(), "i32 {text:?}");
        assert_eq!(parse_bool(&chars(text)), text.parse::<bool>().ok(), "bool {text:?}");
    }
    for text in ["true", "false", "True", "-2147483648", "2147483647", "2147483648", "-9223372036854775808", "9223372036854775808"] {
        assert_eq!(parse_i64(&chars(text)), text.parse::<i64>().ok(), "i64 {text:?}");
        assert_eq!(parse_i32(&chars(text)), text.parse::<i32>().ok(), "i32 {text:?}");
        assert_eq!(parse_bool(&chars(text)), text.parse::<bool>().ok(), "bool {text:?}");
    }
}

#[test]
fn trimming_like_str_trim() {
    for text in ["  a b  ", "\u{3000}x\u{85}", "\t\r\n", "", "x", "\u{200b}x"] {
        let trimmed: String = trim_exec(&chars(text)).into_iter().collect();
        assert_eq!(trimmed, text.trim(), "{text:?}");
    }
}

#[test]
fn splitting_like_str_split() {
    for text in ["a, b, c", ", ", "a,, b", "", "a, , b, "] {
        let parts: Vec<String> = split_all_exec(&chars(text), &chars(", ")).into_iter().map(|p| p.into_iter().collect()).collect();
        let expected: Vec<String> = text.split(", ").map(|p| p.to_string()).collect();
        assert_eq!(parts, expected, "{text:?}");
    }
    assert_eq!(chars_of("héllo"), chars("héllo"));
}

#[test]
fn zero_padding_any_width() {
    for (n, width) in [(0u64, 0usize), (7, 1), (7, 3), (123, 2), (42, 6), (u64::MAX, 25)] {
        let mut out = String::from(">");
        push_zero_padded(&mut out, n, width);
        assert_eq!(out, format!(">{:0width$}", n, width = width));
    }
}
