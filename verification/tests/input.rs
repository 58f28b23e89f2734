use noughts_and_crosses::input::{chars_of, is_space_char, read_number};

#[test]
fn plain_digits_are_a_number() {
    assert_eq!(read_number("0"), Some(0));
    assert_eq!(read_number("5"), Some(5));
    assert_eq!(read_number("8"), Some(8));
    assert_eq!(read_number("42"), Some(42));
    assert_eq!(read_number("007"), Some(7));
    assert_eq!(read_number("4294967295"), Some(u32::MAX));
    assert_eq!(read_number("0000000004294967295"), Some(u32::MAX));
}

#[test]
fn white_space_at_both_ends_is_passed_over() {
    assert_eq!(read_number("5\n"), Some(5));
    assert_eq!(read_number("5\r\n"), Some(5));
    assert_eq!(read_number("  \t 6  \n"), Some(6));
    assert_eq!(read_number("\u{a0}12\u{3000}"), Some(12));
    assert_eq!(read_number("\u{2003}2\u{85}"), Some(2));
}

#[test]
fn a_plus_sign_may_come_first() {
    assert_eq!(read_number("+5"), Some(5));
    assert_eq!(read_number(" +15\n"), Some(15));
}

#[test]
fn what_is_no_number_is_refused() {
    for line in [
        "", " ", "\n", "+", "-", "-1", "-0", "++1", "+-1", "1+", "five", "5a", "a5", "1 2", "+ 1",
        "1_000", "0x10", "1.0", "1e3", "٣", "５", "\u{200b}5", "5\u{feff}",
    ] {
        assert_eq!(read_number(line), None, "{:?}", line);
    }
}

#[test]
fn a_value_beyond_u32_is_refused() {
    assert_eq!(read_number("4294967296"), None);
    assert_eq!(read_number("4294967300"), None);
    assert_eq!(read_number("99999999999999999999999999"), None);
    assert_eq!(read_number("+4294967296\n"), None);
}

#[test]
fn read_number_agrees_with_trim_and_parse() {
    let pieces = ["", " ", "\n", "\t", "+", "-", "0", "1", "9", "42", "4294967295", "4294967296", "a", "\u{a0}", "\u{1680}", "\u{180e}", "_"];
    for a in pieces {
        for b in pieces {
            for c in pieces {
                let line = format!("{}{}{}", a, b, c);
                assert_eq!(read_number(&line), line.trim().parse::<u32>().ok(), "{:?}", line);
            }
        }
    }
}

#[test]
fn is_space_char_agrees_with_unicode_white_space() {
    let mut n = 0u32;
    while n <= 0x10ffff {
        if let Some(c) = char::from_u32(n) {
            assert_eq!(is_space_char(c), c.is_whitespace(), "{:#x}", n);
        }
        n += 1;
    }
}

#[test]
fn chars_of_gives_the_characters_in_order() {
    assert_eq!(chars_of(""), Vec::<char>::new());
    assert_eq!(chars_of("a+1\n"), vec!['a', '+', '1', '\n']);
    assert_eq!(chars_of("é５"), vec!['é', '５']);
}
