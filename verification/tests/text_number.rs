use dgmon::number::parse_i64;
use dgmon::report::fmt_opt;
use dgmon::number::{decimal_string, digit_of, parse_unsigned, push_decimal};
use dgmon::text::{
    after_last_exec, char_is_whitespace, chars_of, find, join_chars, lines_of, split_by, split_whitespace,
    trim_str,
};

fn cs(s: &str) -> Vec<char> {
    s.chars().collect()
}

#[test]
fn decimal_writing() {
    assert_eq!(decimal_string(0), "0");
    assert_eq!(decimal_string(7), "7");
    assert_eq!(decimal_string(1234567890), "1234567890");
    assert_eq!(decimal_string(u64::MAX), u64::MAX.to_string());
    let mut s = "x=".to_string();
    push_decimal(&mut s, 42);
    assert_eq!(s, "x=42");
}

#[test]
fn unsigned_parsing() {
    assert_eq!(parse_unsigned(&cs("65535"), 10, 65535), Some(65535));
    assert_eq!(parse_unsigned(&cs("65536"), 10, 65535), None);
    assert_eq!(parse_unsigned(&cs("+12"), 10, 100), Some(12));
    assert_eq!(parse_unsigned(&cs("+"), 10, 100), None);
    assert_eq!(parse_unsigned(&cs(""), 10, 100), None);
    assert_eq!(parse_unsigned(&cs("1F90"), 16, 65535), Some(8080));
    assert_eq!(parse_unsigned(&cs("1f90"), 16, 65535), Some(8080));
    assert_eq!(parse_unsigned(&cs("12a"), 10, 1000), None);
    assert_eq!(parse_unsigned(&cs(" 1"), 10, 1000), None);
    assert_eq!(digit_of('z', 36), Some(35));
    assert_eq!(digit_of('8', 8), None);
}

#[test]
fn decimal_reads_back() {
    for n in [0u64, 1, 9, 10, 99, 100, 65535, 1 << 40, u64::MAX] {
        assert_eq!(parse_unsigned(&cs(&decimal_string(n)), 10, u64::MAX), Some(n));
        assert_eq!(decimal_string(n).parse::<u64>().unwrap(), n);
    }
}

#[test]
fn unicode_white_space() {
    for c in [' ', '\t', '\n', '\r', '\u{0b}', '\u{0c}', '\u{85}', '\u{a0}', '\u{1680}', '\u{2000}', '\u{200a}', '\u{2028}', '\u{2029}', '\u{202f}', '\u{205f}', '\u{3000}'] {
        assert!(char_is_whitespace(c), "{:?}", c);
        assert!(c.is_whitespace());
    }
    for c in ['a', '_', '\u{200b}', '\u{feff}', '\u{180e}', '0'] {
        assert_eq!(char_is_whitespace(c), c.is_whitespace(), "{:?}", c);
    }
    for n in 0u32..0x3100 {
        if let Some(c) = char::from_u32(n) {
            assert_eq!(char_is_whitespace(c), c.is_whitespace(), "{:?}", c);
        }
    }
}

#[test]
fn trimming_and_words() {
    assert_eq!(trim_str("  a b \u{3000}"), "a b");
    assert_eq!(trim_str("\t\n"), "");
    assert_eq!(split_whitespace("  tcp  0\t0 127.0.0.1:80 "), vec!["tcp", "0", "0", "127.0.0.1:80"]);
    assert!(split_whitespace("   ").is_empty());
}

#[test]
fn lines_like_std() {
    for s in ["", "a", "a\n", "a\r\nb", "a\n\nb\n", "x\r", "\n", "a\rb\n"] {
        let ours = lines_of(&cs(s));
        let std: Vec<String> = s.lines().map(|l| l.to_string()).collect();
        assert_eq!(ours, std, "{:?}", s);
    }
}

#[test]
fn splitting_and_searching() {
    assert_eq!(split_by(&cs("a, b,, c"), &cs(", ")), vec!["a", "b,", "c"]);
    assert_eq!(find(&cs("hello world"), &cs("o w")), Some(4));
    assert_eq!(find(&cs("abc"), &cs("")), Some(0));
    assert_eq!(find(&cs("abc"), &cs("d")), None);
    assert_eq!(after_last_exec(&cs("0.0.0.0:8000"), ':'), cs("8000"));
    assert_eq!(after_last_exec(&cs("nocolon"), ':'), cs("nocolon"));
    let parts = vec!["a".to_string(), "b c".to_string()];
    assert_eq!(join_chars(&parts, " "), cs("a b c"));
    assert_eq!(chars_of("hé"), vec!['h', 'é']);
}

#[test]
fn signed_parsing_like_std() {
    for s in ["0", "-0", "+5", "-5", "9223372036854775807", "9223372036854775808", "-9223372036854775808",
        "-9223372036854775809", "", "-", "+", "-+1", "+-1", "1.5", " 1", "12a", "00042"] {
        assert_eq!(parse_i64(s), s.parse::<i64>().ok(), "{s:?}");
    }
}

#[test]
fn optional_counts_as_text() {
    assert_eq!(fmt_opt(Some(140000)), "140000");
    assert_eq!(fmt_opt(None), "N/A");
}
