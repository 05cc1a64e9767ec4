use pbs::grammar::{
    at_end, command_word, find_quote, id_param, quantity_param, read_keyword, read_name,
    read_number, read_word, skip_blanks, skip_spaces, skip_word,
};
use pbs::search::{like_match, text_no_later};
use pbs::text::{
    chars_of, count_text, counter_of, int_text, same_text, split_lines, zero_padded_text,
};

fn chars(text: &str) -> Vec<char> {
    text.chars().collect()
}

#[test]
fn characters_and_equality() {
    assert_eq!(vec!['a', '\u{e9}', '\u{25ba}'], chars_of("a\u{e9}\u{25ba}"));
    assert!(chars_of("").is_empty());
    assert!(same_text("abc", "abc"));
    assert!(!same_text("abc", "abd"));
    assert!(!same_text("abc", "ab"));
}

#[test]
fn counters() {
    assert_eq!(0, counter_of(""));
    assert_eq!(0, counter_of("+"));
    assert_eq!(7, counter_of("7"));
    assert_eq!(7, counter_of("+7"));
    assert_eq!(7, counter_of("00000007"));
    assert_eq!(0, counter_of("-7"));
    assert_eq!(0, counter_of("7 "));
    assert_eq!(0, counter_of("7a"));
    assert_eq!(0, counter_of("++7"));
    assert_eq!(usize::MAX, counter_of(&usize::MAX.to_string()));
    assert_eq!(0, counter_of("18446744073709551616"));
    assert_eq!(0, counter_of("99999999999999999999999999"));
}

#[test]
fn numbers_in_decimal() {
    assert_eq!("00000001", zero_padded_text(1, 8));
    assert_eq!("00000000", zero_padded_text(0, 8));
    assert_eq!("12345678", zero_padded_text(12345678, 8));
    assert_eq!("123456789", zero_padded_text(123456789, 8));
    assert_eq!("0", zero_padded_text(0, 0));
    assert_eq!("007", zero_padded_text(7, 3));
    assert_eq!("18446744073709551615", zero_padded_text(u64::MAX, 3));
    assert_eq!("0", count_text(0));
    assert_eq!("4096", count_text(4096));
    assert_eq!("-1", int_text(-1));
    assert_eq!("0", int_text(0));
    assert_eq!("9223372036854775807", int_text(i64::MAX));
    assert_eq!("-9223372036854775808", int_text(i64::MIN));
}

#[test]
fn lines() {
    assert!(split_lines("").is_empty());
    assert_eq!(vec!["a"], split_lines("a"));
    assert_eq!(vec!["a"], split_lines("a\n"));
    assert_eq!(vec!["a", "b"], split_lines("a\nb"));
    assert_eq!(vec!["a", "b"], split_lines("a\r\nb\r\n"));
    assert_eq!(vec!["", "", "b"], split_lines("\n\nb"));
    // a carriage return alone ends no line
    assert_eq!(vec!["a\rb"], split_lines("a\rb"));
    assert_eq!(vec!["a\r"], split_lines("a\r"));
    assert_eq!(vec!["a\r", "b"], split_lines("a\r\r\nb"));
    assert_eq!(vec![""], split_lines("\r\n"));
}

#[test]
fn patterns() {
    let like = |pattern: &str, text: &str| like_match(&chars(pattern), &chars(text));
    assert!(like("", ""));
    assert!(!like("", "a"));
    assert!(like("%", ""));
    assert!(like("%", "anything"));
    assert!(like("%%", "x"));
    assert!(like("abc", "abc"));
    assert!(like("abc", "ABC"));
    assert!(like("ABC", "abc"));
    assert!(!like("abc", "abcd"));
    assert!(!like("abcd", "abc"));
    assert!(like("a_c", "abc"));
    assert!(!like("a_c", "ac"));
    assert!(like("_", "\u{e9}"));
    assert!(!like("_", ""));
    assert!(like("%003%", "THING 1003"));
    assert!(like("%003%", "003"));
    assert!(!like("%003%", "00 3"));
    assert!(like("a%b%c", "a--b--b--c"));
    assert!(!like("a%b%c", "a--b--b--"));
    assert!(like("%a", "bca"));
    assert!(!like("%a", "bcab"));
    // only the letters of the basic Latin alphabet match in either case
    assert!(!like("\u{e9}", "\u{c9}"));
    assert!(!like("@", "`"));
    assert!(!like("[", "{"));
}

#[test]
fn order_of_texts() {
    let le = |a: &str, b: &str| text_no_later(&chars(a), &chars(b));
    assert!(le("", ""));
    assert!(le("", "a"));
    assert!(!le("a", ""));
    assert!(le("a", "a"));
    assert!(le("a", "ab"));
    assert!(!le("ab", "a"));
    assert!(le("00000003", "123.003"));
    assert!(le("123.003", "123.678"));
    assert!(!le("b", "a"));
    assert!(le("B", "a"));
    assert!(le("z", "\u{e9}"));
}

#[test]
fn pieces_of_the_grammar() {
    let line = chars("\t add\t12 x\"a b\" \r\n");
    assert_eq!(2, skip_blanks(&line, 0));
    assert_eq!(2, skip_blanks(&line, 2));
    assert_eq!(line.len(), skip_blanks(&line, line.len()));
    assert_eq!(Some(5), read_keyword(&line, 2, "add"));
    assert_eq!(None, read_keyword(&line, 2, "adds"));
    assert_eq!(None, read_keyword(&line, 3, "add"));
    assert_eq!(Some(5), read_keyword(&line, 5, ""));
    assert_eq!(None, read_keyword(&line, line.len() - 1, "add"));
    assert_eq!(Some(5), command_word(&line, 0, "add"));
    assert_eq!(Some((12, 8)), read_number(&line, 6, 100));
    assert_eq!(None, read_number(&line, 6, 11));
    assert_eq!(None, read_number(&line, 5, 100));
    assert_eq!(Some((12, 8)), id_param(&line, 5));
    assert_eq!(None, id_param(&line, 6));
    assert_eq!(Some((12, 8)), quantity_param(&line, 5));
    assert_eq!(Some(8), read_word(&line, 6));
    assert_eq!(8, skip_word(&line, 6));
    assert_eq!(None, read_word(&line, 8));
    assert_eq!(14, find_quote(&line, 11));
    assert_eq!(line.len(), find_quote(&line, 15));
    assert_eq!(Some((11, 14, 15)), read_name(&line, 10));
    assert_eq!(Some((9, 10, 10)), read_name(&line, 9));
    assert_eq!(None, read_name(&line, 8));
    assert_eq!(line.len(), skip_spaces(&line, 15));
    assert!(at_end(&line, 15));
    assert!(!at_end(&line, 14));
    // a quote that is not closed starts no name
    assert_eq!(None, read_name(&chars("\"open"), 0));
    let big = chars("9223372036854775807 9223372036854775808");
    assert_eq!(Some((i64::MAX, 19)), id_param(&chars(" 9223372036854775807"), 0).map(|(n, e)| (n, e - 1)));
    assert_eq!(Some((9223372036854775807, 19)), read_number(&big, 0, i64::MAX as u64));
    assert_eq!(None, read_number(&big, 20, i64::MAX as u64));
    assert_eq!(Some((9223372036854775808, 39)), read_number(&big, 20, u64::MAX));
    assert_eq!(None, read_number(&chars("18446744073709551616"), 0, u64::MAX));
    assert_eq!(Some((0, 3)), read_number(&chars("000"), 0, 0));
}
