use rinha_backend_2026::text::{
    decimal_text, equals_lowered, join, parse_number, same_text, trim, NumberError,
};

#[test]
fn numbers_are_read_as_the_standard_library_reads_them() {
    for text in [
        "", "+", "-", "0", "7", "+7", "++7", "-0", "-7", "007", "00000000000000000000000000000009",
        "12a", "a12", " 1", "1 ", "1_000", "9223372036854775808", "18446744073709551615",
        "18446744073709551616", "18446744073709551620", "99999999999999999999x",
        "184467440737095516150", "18446744073709551615x", "x99999999999999999999",
        "9999999999x9999999999999999", "+99999999999999999999", "\u{0661}", "+\u{0661}", "1\u{0}",
    ] {
        let expected = text.parse::<usize>().map_err(|error| error.to_string());
        let number = parse_number(text).map_err(|error| error.message().to_string());
        assert_eq!(number, expected, "{text:?}");
    }
    assert_eq!(parse_number(""), Err(NumberError::Empty));
    assert_eq!(parse_number("+"), Err(NumberError::InvalidDigit));
    assert_eq!(parse_number("18446744073709551616x"), Err(NumberError::TooLarge));
    assert_eq!(parse_number("18446744073709551615x"), Err(NumberError::InvalidDigit));
}

#[test]
fn decimal_notation_is_read_back() {
    for number in [0, 1, 9, 10, 99, 100, 12345, usize::MAX - 1, usize::MAX] {
        let text = decimal_text(number);
        assert_eq!(text, number.to_string());
        assert_eq!(parse_number(&text), Ok(number));
    }
}

#[test]
fn white_space_is_that_of_unicode() {
    for code in 0..=0x10ffff_u32 {
        if let Some(c) = char::from_u32(code) {
            if c.is_whitespace() || code < 0x3100 {
                let text = format!("{c}x{c}");
                assert_eq!(trim(&text), text.trim(), "{code:x}");
            }
        }
    }
    assert_eq!(trim(""), "");
    assert_eq!(trim(" \t\r\n"), "");
    assert_eq!(trim(" a b "), "a b");
}

#[test]
fn ascii_letters_are_lowered() {
    for code in 0..0x250_u32 {
        let c = char::from_u32(code).unwrap();
        let text = format!("{c}");
        assert!(equals_lowered(&text, &text.to_ascii_lowercase()));
        assert!(!equals_lowered(&text, "ab"));
        if text != text.to_ascii_lowercase() {
            assert!(!equals_lowered(&text, &text));
        }
    }
}

#[test]
fn texts_are_joined_and_compared() {
    assert_eq!(join(&vec![], ", "), "");
    assert_eq!(join(&vec!["a".to_string()], ", "), "a");
    assert_eq!(join(&vec!["a".to_string(), "".to_string(), "c".to_string()], ", "), "a, , c");
    assert!(same_text("ab", "ab"));
    assert!(!same_text("ab", "a"));
    assert!(!same_text("ab", "aB"));
}
