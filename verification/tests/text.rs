use minimal_api::decimal::{
    decimal_string, parse_digits, parse_i32, parse_usize, push_decimal, push_padded, push_signed,
};
use minimal_api::text::{
    char_is_space, chars_of, find_char, lower_char, same_text, same_text_ignoring_case,
    split_ranges, trim_range,
};

fn pieces(text: &str, sep: char) -> Vec<String> {
    let chars = chars_of(text);
    split_ranges(&chars, 0, chars.len(), sep)
        .into_iter()
        .map(|(from, end)| chars[from..end].iter().collect())
        .collect()
}

fn trimmed(text: &str) -> String {
    let chars = chars_of(text);
    let (from, end) = trim_range(&chars, 0, chars.len());
    chars[from..end].iter().collect()
}

#[test]
fn chars_of_gives_every_character() {
    assert_eq!(vec!['a', 'ß', '日', '/'], chars_of("aß日/"));
    assert_eq!(Vec::<char>::new(), chars_of(""));
}

#[test]
fn find_char_gives_the_first_position() {
    let chars = chars_of("a/b/c");

    assert_eq!(1, find_char(&chars, 0, 5, '/'));
    assert_eq!(1, find_char(&chars, 1, 5, '/'));
    assert_eq!(3, find_char(&chars, 2, 5, '/'));
    assert_eq!(5, find_char(&chars, 4, 5, '/'));
    assert_eq!(3, find_char(&chars, 2, 3, '/'));
    assert_eq!(0, find_char(&chars, 0, 0, '/'));
}

#[test]
fn split_cuts_at_every_separator() {
    assert_eq!(vec!["a", "42", "b"], pieces("a/42/b", '/'));
    assert_eq!(vec!["", "a", ""], pieces("/a/", '/'));
    assert_eq!(vec!["", "", ""], pieces("//", '/'));
    assert_eq!(vec![""], pieces("", '/'));
    assert_eq!(vec!["abc"], pieces("abc", '/'));
    for text in ["", "/", "a/b", "/a//b/", "x=1&y=2", "日/本"] {
        let expected: Vec<String> = text.split('/').map(|piece| piece.to_string()).collect();
        assert_eq!(expected, pieces(text, '/'));
    }
}

#[test]
fn split_works_inside_a_range() {
    let chars = chars_of("p?x=1&y=2");

    assert_eq!(vec![(2, 5), (6, 9)], split_ranges(&chars, 2, 9, '&'));
    assert_eq!(vec![(3, 3)], split_ranges(&chars, 3, 3, '&'));
}

#[test]
fn trim_removes_white_space_at_both_ends() {
    assert_eq!("a b", trimmed("  a b\r\n"));
    assert_eq!("", trimmed(" \t\r\n"));
    assert_eq!("", trimmed(""));
    assert_eq!("x", trimmed("\u{a0}\u{2003}x\u{3000}\u{85}"));
    assert_eq!("\u{200b}x", trimmed(" \u{200b}x "));
    for text in ["", " ", "a", " a ", "\ta\u{2028}b\u{feff} ", "\u{1680}\u{180e}"] {
        assert_eq!(text.trim(), trimmed(text));
    }
}

#[test]
fn white_space_is_what_the_standard_says() {
    for code in 0..0x3100u32 {
        if let Some(c) = char::from_u32(code) {
            assert_eq!(c.is_whitespace(), char_is_space(c));
        }
    }
}

#[test]
fn lower_char_folds_ascii_letters_only() {
    assert_eq!('a' as u32, lower_char('A'));
    assert_eq!('z' as u32, lower_char('Z'));
    assert_eq!('a' as u32, lower_char('a'));
    assert_eq!('-' as u32, lower_char('-'));
    assert_eq!('Ä' as u32, lower_char('Ä'));
    assert_eq!('[' as u32, lower_char('['));
    assert_eq!('@' as u32, lower_char('@'));
}

#[test]
fn same_text_compares_ranges() {
    let a = chars_of("xxabcxx");
    let b = chars_of("abc");

    assert!(same_text(&a, 2, 5, &b, 0, 3));
    assert!(!same_text(&a, 2, 5, &b, 0, 2));
    assert!(!same_text(&a, 1, 4, &b, 0, 3));
    assert!(same_text(&a, 3, 3, &b, 1, 1));
}

#[test]
fn same_text_ignoring_case_folds_ascii() {
    let name = chars_of("content-length");

    assert!(same_text_ignoring_case(&chars_of("Content-Length"), 0, 14, &name));
    assert!(same_text_ignoring_case(&chars_of("CONTENT-LENGTH"), 0, 14, &name));
    assert!(!same_text_ignoring_case(&chars_of("Content-Length"), 0, 13, &name));
    assert!(!same_text_ignoring_case(&chars_of("Content_Length"), 0, 14, &name));
    assert!(!same_text_ignoring_case(&chars_of("\u{212a}"), 0, 1, &chars_of("k")));
}

#[test]
fn numbers_are_written_in_base_ten() {
    assert_eq!("0", decimal_string(0));
    assert_eq!("7", decimal_string(7));
    assert_eq!("10", decimal_string(10));
    assert_eq!("1234567890", decimal_string(1_234_567_890));
    assert_eq!("18446744073709551615", decimal_string(u64::MAX));

    let mut text = "n=".to_string();
    push_decimal(&mut text, 405);
    assert_eq!("n=405", text);
}

#[test]
fn numbers_are_padded_with_zeros() {
    let mut text = String::new();
    push_padded(&mut text, 7, 2);
    push_padded(&mut text, 12, 2);
    push_padded(&mut text, 123, 2);
    push_padded(&mut text, 0, 4);
    push_padded(&mut text, 5, 0);
    assert_eq!("071212300005", text);
}

#[test]
fn signed_numbers_carry_their_sign() {
    let mut text = String::new();
    push_signed(&mut text, -12);
    push_signed(&mut text, 0);
    push_signed(&mut text, 34);
    push_signed(&mut text, i64::MIN);
    assert_eq!("-12034-9223372036854775808", text);
}

fn usize_of(text: &str) -> Option<usize> {
    let chars = chars_of(text);
    parse_usize(&chars, 0, chars.len())
}

fn i32_of(text: &str) -> Option<i32> {
    let chars = chars_of(text);
    parse_i32(&chars, 0, chars.len())
}

#[test]
fn unsigned_numbers_are_read_as_the_standard_reads_them() {
    for text in [
        "0", "12", "007", "+5", "+", "", "-", "-0", "-5", "1 2", " 1", "1 ", "12a", "++1", "٣",
        "18446744073709551615", "18446744073709551616", "99999999999999999999999",
    ] {
        assert_eq!(text.parse::<usize>().ok(), usize_of(text));
    }
    assert_eq!(Some(12), usize_of("12"));
    assert_eq!(None, usize_of("-5"));
}

#[test]
fn signed_numbers_are_read_as_the_standard_reads_them() {
    for text in [
        "0", "12", "-12", "+12", "-0", "+", "-", "", "--1", "+-1", "1-", "2147483647",
        "2147483648", "-2147483648", "-2147483649", "00000000002147483647", "4e2", "1.0",
    ] {
        assert_eq!(text.parse::<i32>().ok(), i32_of(text));
    }
    assert_eq!(Some(-2147483648), i32_of("-2147483648"));
}

#[test]
fn digits_are_read_up_to_a_maximum() {
    let chars = chars_of("x255y");

    assert_eq!(Some(255), parse_digits(&chars, 1, 4, 255));
    assert_eq!(None, parse_digits(&chars, 1, 4, 254));
    assert_eq!(None, parse_digits(&chars, 0, 4, 1000));
    assert_eq!(None, parse_digits(&chars, 2, 2, 1000));
    assert_eq!(Some(5), parse_digits(&chars, 3, 4, 5));
    assert_eq!(None, parse_digits(&chars, 3, 4, 4));
}
