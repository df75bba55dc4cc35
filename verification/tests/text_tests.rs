use soulless::text::{
    chars_less, chars_of, concat_str, find_str, i32_to_string, parse_i32_chars,
    parse_unsigned_chars, split_char, split_lines, split_whitespace, string_of,
    trim_str,
};

fn s(v: &[char]) -> String {
    v.iter().collect()
}

#[test]
fn trims_and_splits_like_std() {
    assert_eq!(s(&trim_str("\t a b \n")), "a b");
    let w: Vec<String> = split_whitespace(&chars_of("  ab  c\u{3000}d ")).iter().map(|v| s(v)).collect();
    assert_eq!(w, vec!["ab", "c", "d"]);
    let l: Vec<String> = split_lines(&chars_of("a\r\nb\n\nc\r")).iter().map(|v| s(v)).collect();
    assert_eq!(l, "a\r\nb\n\nc\r".lines().collect::<Vec<_>>());
    let p: Vec<String> = split_char(&chars_of(":a::b"), ':').iter().map(|v| s(v)).collect();
    assert_eq!(p, vec!["", "a", "", "b"]);
}

#[test]
fn numbers_parse_like_std() {
    assert_eq!(parse_unsigned_chars(&chars_of("+42"), u64::MAX), Some(42));
    assert_eq!(parse_unsigned_chars(&chars_of("256"), 255), None);
    assert_eq!(parse_unsigned_chars(&chars_of(""), 255), None);
    assert_eq!(parse_i32_chars(&chars_of("-2147483648")), Some(i32::MIN));
    assert_eq!(parse_i32_chars(&chars_of("2147483648")), None);
    assert_eq!(parse_i32_chars(&chars_of("-+1")), None);
    assert_eq!(parse_i32_chars(&chars_of("+7")), Some(7));
    assert_eq!(i32_to_string(-2147483648), "-2147483648");
    assert_eq!(i32_to_string(0), "0");
    assert_eq!(i32_to_string(1234), "1234");
}

#[test]
fn find_and_order() {
    assert_eq!(find_str(&chars_of("a], [b], [c"), "], ["), Some(1));
    assert_eq!(find_str(&chars_of("abc"), "x"), None);
    assert_eq!(find_str(&chars_of("abc"), ""), Some(0));
    assert!(chars_less(&chars_of("Alpha"), &chars_of("alpha")));
    assert!(chars_less(&chars_of("ab"), &chars_of("abc")));
    assert!(!chars_less(&chars_of("abc"), &chars_of("abc")));
    assert_eq!(concat_str("ab", "cd"), "abcd");
    assert_eq!(string_of(&['x', 'y']), "xy");
}

#[test]
fn std_wrappers_change_their_input() {
    // Lowercasing, through the extension match of the drawer tiles.
    assert_eq!(soulless::drawer_view::file_emoji("Holiday.JPG"), soulless::drawer_view::file_emoji("x.jpg"));
    assert_ne!(soulless::drawer_view::file_emoji("Holiday.JPG"), soulless::drawer_view::file_emoji("x"));
    // Lossy decoding, through the dragged app id.
    assert_eq!(soulless::drawer_view::app_id_from_payload(&[0x66, 0xff, 0x6f]), "f\u{fffd}o");
    // Appending characters, through string building.
    assert_eq!(concat_str("ab", "c"), "abc");
}
