use sharc::bigint::IBig;
use sharc::text::{
    char_to_digit, chars_of, decimal_text, decimal_text_u64, digit_to_char, parse_u32, same_chars,
    same_text, spells, string_of,
};

#[test]
fn decimal_text_reads_as_the_number_it_stands_for() {
    assert_eq!(IBig::parse("0"), Some(IBig::from_u64(0)));
    assert_eq!(IBig::parse("999999"), Some(IBig::from_u64(999999)));
    assert_eq!(IBig::parse("+42"), Some(IBig::from_u64(42)));
    assert_eq!(IBig::parse("007"), Some(IBig::from_u64(7)));
    assert_eq!(IBig::parse("000"), Some(IBig::from_u64(0)));
    assert_eq!(IBig::parse("-0"), Some(IBig::from_u64(0)));
    assert_eq!(
        IBig::parse("18446744073709551615").unwrap().to_u64(),
        Some(18446744073709551615)
    );
    assert_eq!(IBig::parse("18446744073709551616").unwrap().to_u64(), None);
    assert_eq!(IBig::parse("-1").unwrap().to_u64(), None);
    assert_ne!(IBig::parse("-1"), IBig::parse("1"));
    for n in [0u64, 1, 9, 10, 11, 99, 100, 1234567890, u64::MAX] {
        assert_eq!(IBig::from_u64(n).to_u64(), Some(n));
        assert_eq!(IBig::parse(&n.to_string()), Some(IBig::from_u64(n)));
        assert_eq!(IBig::from_u64(n).to_text(), n.to_string());
    }
}

#[test]
fn what_is_no_decimal_text() {
    for text in ["", "+", "-", "12a", "a12", "1 2", " 1", "1.5", "--1", "+-1", "0x10", "\u{0663}"] {
        assert_eq!(IBig::parse(text), None, "{:?}", text);
    }
}

#[test]
fn sign_and_text_of_a_number() {
    let big = IBig::parse("-123456789012345678901234567890").unwrap();
    assert!(big.is_negative());
    assert!(!big.is_zero());
    assert_eq!(big.to_text(), "-123456789012345678901234567890");
    let zero = IBig::parse("-000").unwrap();
    assert!(!zero.is_negative());
    assert!(zero.is_zero());
    assert_eq!(zero.to_text(), "0");
    assert_eq!(IBig::parse("+0012").unwrap().to_text(), "12");
    assert!(!IBig::from_u64(5).is_negative());
}

#[test]
fn widths_are_read_as_the_standard_library_reads_them() {
    let read = |text: &str, from: usize| parse_u32(&text.chars().collect(), from);
    for text in ["8", "+8", "008", "0", "4294967295", "+4294967295", "32"] {
        assert_eq!(read(text, 0), text.parse::<u32>().ok(), "{:?}", text);
        assert!(read(text, 0).is_some());
    }
    for text in ["", "+", "-8", "8a", "a8", "4294967296", "99999999999999999999", "++8", "8+", " 8"] {
        assert_eq!(read(text, 0), None, "{:?}", text);
        assert!(text.parse::<u32>().is_err());
    }
    assert_eq!(read("u32", 1), Some(32));
    assert_eq!(read("u", 1), None);
    assert_eq!(read("uint", 1), None);
}

#[test]
fn numbers_are_written_in_decimal_digits() {
    assert_eq!(decimal_text(0), "0");
    assert_eq!(decimal_text(7), "7");
    assert_eq!(decimal_text(10), "10");
    assert_eq!(decimal_text(120), "120");
    assert_eq!(decimal_text(usize::MAX), usize::MAX.to_string());
    assert_eq!(decimal_text_u64(u64::MAX), "18446744073709551615");
    assert_eq!(decimal_text_u64(1000), "1000");
    for d in 0..10u8 {
        assert_eq!(char_to_digit(digit_to_char(d)), Some(d));
    }
    assert_eq!(digit_to_char(4), '4');
    assert_eq!(char_to_digit('a'), None);
    assert_eq!(char_to_digit('/'), None);
    assert_eq!(char_to_digit(':'), None);
}

#[test]
fn texts_are_compared_and_cut_by_characters() {
    assert_eq!(chars_of("a\u{e9}b"), vec!['a', '\u{e9}', 'b']);
    assert!(chars_of("").is_empty());
    assert!(same_text("abc", "abc"));
    assert!(!same_text("abc", "abd"));
    assert!(!same_text("abc", "ab"));
    assert!(same_text("", ""));
    assert!(same_chars(&vec!['x'], &vec!['x']));
    assert!(!same_chars(&vec!['x'], &vec![]));
    let chars = chars_of("--help");
    assert!(spells(&chars, 2, 6, "help"));
    assert!(!spells(&chars, 2, 6, "hel"));
    assert!(!spells(&chars, 1, 6, "help"));
    assert!(spells(&chars, 3, 3, ""));
    assert_eq!(string_of(&chars, 2, 6), "help");
    assert_eq!(string_of(&chars, 0, 0), "");
    assert_eq!(string_of(&chars_of("a\u{e9}b"), 1, 3), "\u{e9}b");
}
