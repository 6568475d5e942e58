use ksi::number::{decimal_string, is_decimal_digit, parse_number, parse_number_in};
use ksi::text::chars_of;

#[test]
fn decimal_string_examples() {
    assert_eq!(decimal_string(0), "0");
    assert_eq!(decimal_string(7), "7");
    assert_eq!(decimal_string(10), "10");
    assert_eq!(decimal_string(1234567890), "1234567890");
    assert_eq!(decimal_string(usize::MAX), usize::MAX.to_string());
}

#[test]
fn decimal_string_agrees_with_std() {
    for n in 0usize..5000 {
        assert_eq!(decimal_string(n), n.to_string());
    }
    let mut n: usize = 1;
    while n < usize::MAX / 7 {
        assert_eq!(decimal_string(n), n.to_string());
        assert_eq!(decimal_string(n - 1), (n - 1).to_string());
        n *= 7;
    }
}

#[test]
fn decimal_digits_only() {
    for code in 0u32..=0x10FFFF {
        if let Some(c) = char::from_u32(code) {
            assert_eq!(is_decimal_digit(c), c.is_ascii_digit());
        }
    }
}

#[test]
fn parse_number_examples() {
    assert_eq!(parse_number("0"), Some(0));
    assert_eq!(parse_number("2"), Some(2));
    assert_eq!(parse_number("0002"), Some(2));
    assert_eq!(parse_number("+2"), Some(2));
    assert_eq!(parse_number("12345"), Some(12345));
    assert_eq!(parse_number(""), None);
    assert_eq!(parse_number("+"), None);
    assert_eq!(parse_number("-2"), None);
    assert_eq!(parse_number("++2"), None);
    assert_eq!(parse_number(" 2"), None);
    assert_eq!(parse_number("2 "), None);
    assert_eq!(parse_number("2x"), None);
    assert_eq!(parse_number("x2"), None);
    assert_eq!(parse_number("1_000"), None);
    assert_eq!(parse_number("\u{0662}"), None);
}

#[test]
fn parse_number_at_the_limit() {
    let max = usize::MAX.to_string();
    assert_eq!(parse_number(&max), Some(usize::MAX));
    assert_eq!(parse_number(&format!("+{}", max)), Some(usize::MAX));
    assert_eq!(parse_number(&format!("000{}", max)), Some(usize::MAX));
    let over = format!("{}", usize::MAX as u128 + 1);
    assert_eq!(parse_number(&over), None);
    assert_eq!(parse_number(&format!("{}0", max)), None);
    assert_eq!(parse_number(&format!("{}x", over)), None);
    assert_eq!(parse_number("99999999999999999999999999999999999999999999"), None);
}

#[test]
fn parse_number_agrees_with_std() {
    let inputs = vec![
        "", "+", "-", "0", "00", "+0", "-0", "1", "+1", "-1", "42", "4 2", " 42", "42 ", "4+2", "+-1",
        "18446744073709551615", "18446744073709551616", "18446744073709551625", "28446744073709551615",
        "4294967295", "4294967296", "abc", "1e3", "0x10", "\u{ff11}",
    ];
    for input in inputs {
        assert_eq!(parse_number(input), input.parse::<usize>().ok(), "{:?}", input);
    }
}

#[test]
fn parse_number_in_reads_a_range() {
    let chars = chars_of("d 12 x");
    assert_eq!(parse_number_in(&chars, 2, 4), Some(12));
    assert_eq!(parse_number_in(&chars, 2, 3), Some(1));
    assert_eq!(parse_number_in(&chars, 2, 5), None);
    assert_eq!(parse_number_in(&chars, 2, 2), None);
    assert_eq!(parse_number_in(&chars, 0, 1), None);
}

#[test]
fn written_numbers_are_read_back() {
    for n in 0usize..3000 {
        assert_eq!(parse_number(&decimal_string(n)), Some(n));
    }
    assert_eq!(parse_number(&decimal_string(usize::MAX)), Some(usize::MAX));
}
