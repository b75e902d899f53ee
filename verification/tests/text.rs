use sauce_api::text::{
    append_decimal, chars_contain, chars_match_at, find_char, signed_to_string, str_contains,
    str_eq, str_starts_with, to_chars, unsigned_to_string,
};

#[test]
fn to_chars_keeps_every_character() {
    assert_eq!(to_chars(""), Vec::<char>::new());
    assert_eq!(to_chars("a\u{e9}\u{1f600}b"), vec!['a', '\u{e9}', '\u{1f600}', 'b']);
}

#[test]
fn contains_finds_a_needle_anywhere() {
    assert!(str_contains("image/png", "image"));
    assert!(str_contains("text/x-image", "image"));
    assert!(str_contains("an image here", "image"));
    assert!(str_contains("abc", ""));
    assert!(str_contains("", ""));
    assert!(!str_contains("", "a"));
    assert!(!str_contains("imag", "image"));
    assert!(!str_contains("Image/png", "image"));
    assert!(!str_contains("text/html", "image"));
    assert!(str_contains("aab", "ab"));
    assert!(chars_contain(&to_chars("xx\u{e9}y"), &to_chars("\u{e9}y")));
}

#[test]
fn match_at_compares_in_place() {
    let hay = to_chars("hello");
    assert!(chars_match_at(&hay, &to_chars("ell"), 1));
    assert!(!chars_match_at(&hay, &to_chars("ell"), 0));
    assert!(chars_match_at(&hay, &to_chars(""), 5));
}

#[test]
fn starts_with_and_eq() {
    assert!(str_starts_with("//a", "//"));
    assert!(str_starts_with("//", "//"));
    assert!(!str_starts_with("/", "//"));
    assert!(!str_starts_with("a//", "//"));
    assert!(str_starts_with("abc", ""));
    assert!(str_eq("abc", "abc"));
    assert!(str_eq("", ""));
    assert!(!str_eq("abc", "abd"));
    assert!(!str_eq("abc", "ab"));
    assert!(!str_eq("ab", "abc"));
}

#[test]
fn find_char_gives_the_first_offset_or_the_length() {
    assert_eq!(find_char(&to_chars("96% similarity"), '%'), 2);
    assert_eq!(find_char(&to_chars("%%"), '%'), 0);
    assert_eq!(find_char(&to_chars("none"), '%'), 4);
    assert_eq!(find_char(&to_chars(""), '%'), 0);
}

#[test]
fn numbers_are_written_in_base_ten() {
    assert_eq!(unsigned_to_string(0), "0");
    assert_eq!(unsigned_to_string(7), "7");
    assert_eq!(unsigned_to_string(10), "10");
    assert_eq!(unsigned_to_string(999), "999");
    assert_eq!(unsigned_to_string(u64::MAX), "18446744073709551615");
    assert_eq!(signed_to_string(0), "0");
    assert_eq!(signed_to_string(-1), "-1");
    assert_eq!(signed_to_string(1234567890), "1234567890");
    assert_eq!(signed_to_string(i64::MAX), "9223372036854775807");
    assert_eq!(signed_to_string(i64::MIN), "-9223372036854775808");
    let mut text = String::from("n=");
    append_decimal(&mut text, u128::MAX);
    assert_eq!(text, "n=340282366920938463463374607431768211455");
}
