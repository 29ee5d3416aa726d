use usbbench::text::{
    chars_of, decimal_string, digit_of, is_digit_char, is_letter, is_space, order_of, parse_digits,
    push_spaces, text_of, trim, trim_bounds, Order,
};

#[test]
fn trim_agrees_with_the_host() {
    let samples = [
        "",
        " ",
        "a",
        " a",
        "a ",
        "  a b  ",
        "\t\n\r\u{b}\u{c} x \u{85}\u{a0}",
        "\u{1680}\u{2000}\u{2001}\u{2002}\u{2003}\u{2004}\u{2005}\u{2006}\u{2007}\u{2008}\u{2009}\u{200a}y\u{2028}\u{2029}\u{202f}\u{205f}\u{3000}",
        "\u{200b}z\u{200b}",
        "\u{feff}w",
        "\u{1c}q\u{1f}",
        " \u{e9}t\u{e9} ",
    ];
    for s in samples {
        assert_eq!(trim(s), s.trim(), "{s:?}");
    }
}

#[test]
fn white_space_is_what_unicode_says() {
    for n in 0..0x3100u32 {
        if let Some(c) = char::from_u32(n) {
            assert_eq!(is_space(c), c.is_whitespace(), "{n:#x}");
        }
    }
    assert!(!is_space('\u{10ffff}'));
}

#[test]
fn trim_bounds_frame_the_text() {
    let v: Vec<char> = "  ab c ".chars().collect();
    assert_eq!(trim_bounds(&v), (2, 6));
    let blank: Vec<char> = "   ".chars().collect();
    let (a, b) = trim_bounds(&blank);
    assert_eq!(a, b);
    assert_eq!(trim_bounds(&Vec::new()), (0, 0));
}

#[test]
fn chars_and_back() {
    let v = chars_of("h\u{e9}llo");
    assert_eq!(v, vec!['h', '\u{e9}', 'l', 'l', 'o']);
    assert_eq!(text_of(&v, 0, 5), "h\u{e9}llo");
    assert_eq!(text_of(&v, 1, 3), "\u{e9}l");
    assert_eq!(text_of(&v, 2, 2), "");
}

#[test]
fn digits_and_letters() {
    for (d, c) in "0123456789".chars().enumerate() {
        assert_eq!(digit_of(d as u8), c);
        assert!(is_digit_char(c));
    }
    assert!(!is_digit_char('/'));
    assert!(!is_digit_char(':'));
    assert!(!is_digit_char('\u{661}'));
    assert!(is_letter('k', 'K'));
    assert!(is_letter('K', 'K'));
    assert!(!is_letter('M', 'K'));
    assert!(!is_letter('+', 'K'));
    assert!(!is_letter('\u{212a}', 'K'));
}

#[test]
fn decimal_text_of_numbers() {
    assert_eq!(decimal_string(0), "0");
    assert_eq!(decimal_string(7), "7");
    assert_eq!(decimal_string(10), "10");
    assert_eq!(decimal_string(1_234_567_890), "1234567890");
    assert_eq!(decimal_string(u128::MAX), "340282366920938463463374607431768211455");
}

#[test]
fn digits_are_read_up_to_the_first_other_character() {
    let v = chars_of("x123K");
    assert_eq!(parse_digits(&v, 1, u64::MAX), (4, Some(123)));
    assert_eq!(parse_digits(&v, 0, u64::MAX), (0, Some(0)));
    assert_eq!(parse_digits(&v, 4, u64::MAX), (4, Some(0)));
    assert_eq!(parse_digits(&v, 5, u64::MAX), (5, Some(0)));
    assert_eq!(parse_digits(&v, 1, 122), (4, None));
    assert_eq!(parse_digits(&v, 1, 123), (4, Some(123)));
    let big = chars_of("18446744073709551616");
    assert_eq!(parse_digits(&big, 0, u64::MAX), (20, None));
    let max = chars_of("18446744073709551615");
    assert_eq!(parse_digits(&max, 0, u64::MAX), (20, Some(u64::MAX)));
    let zeros = chars_of("000000000000000000000000000042");
    assert_eq!(parse_digits(&zeros, 0, 42), (30, Some(42)));
}

#[test]
fn order_of_dictionaries() {
    assert_eq!(order_of("", ""), Order::Same);
    assert_eq!(order_of("", "a"), Order::Before);
    assert_eq!(order_of("a", ""), Order::After);
    assert_eq!(order_of("abc", "abd"), Order::Before);
    assert_eq!(order_of("abd", "abc"), Order::After);
    assert_eq!(order_of("ab", "abc"), Order::Before);
    assert_eq!(order_of("abc", "abc"), Order::Same);
    assert_eq!(order_of("Z", "a"), Order::Before);
    assert_eq!(order_of("\u{e9}", "z"), Order::After);
    for (a, b) in [("/media/a", "/media/b"), ("x", "x"), ("b", "a"), ("", "x"), ("\u{1f600}", "\u{ffff}")] {
        let expected = match a.cmp(b) {
            std::cmp::Ordering::Less => Order::Before,
            std::cmp::Ordering::Equal => Order::Same,
            std::cmp::Ordering::Greater => Order::After,
        };
        assert_eq!(order_of(a, b), expected);
    }
}

#[test]
fn spaces_are_appended() {
    let mut s = String::from("x");
    push_spaces(&mut s, 3);
    assert_eq!(s, "x   ");
    push_spaces(&mut s, 0);
    assert_eq!(s, "x   ");
}
