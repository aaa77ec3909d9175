use hyprviz::num::{parse_hex_u8, parse_i8_exec, parse_u16, parse_u32, parse_u8, push_decimal, push_decimal_i8, push_hex2};
use hyprviz::text::{
    chars_of, eq_str, fold_chars, push_chars, split_chars, string_of, strip_prefix_str, strip_suffix_str, trim_chars,
    trimmed, trimmed_folded, words_of,
};

fn cs(s: &str) -> Vec<char> {
    s.chars().collect()
}

fn strings(v: Vec<Vec<char>>) -> Vec<String> {
    v.iter().map(|w| w.iter().collect()).collect()
}

#[test]
fn trimming_follows_unicode_whitespace() {
    assert_eq!(trimmed(" \t a b \n"), cs("a b"));
    assert_eq!(trimmed("\u{3000}x\u{a0}"), cs("x"));
    assert_eq!(trim_chars(&cs("   ")), Vec::<char>::new());
    assert_eq!(chars_of("héllo"), cs("héllo"));
}

#[test]
fn folding_lowers_ascii_and_the_kelvin_sign() {
    assert_eq!(fold_chars(&cs("MiXeD-1")), cs("mixed-1"));
    assert_eq!(fold_chars(&cs("\u{212a}")), cs("k"));
    assert_eq!(fold_chars(&cs("É")), cs("É"));
    assert_eq!(trimmed_folded("  TOGGLE "), cs("toggle"));
}

#[test]
fn splitting_keeps_empty_pieces_and_words_drop_them() {
    assert_eq!(strings(split_chars(&cs("a,,b,"), ',')), vec!["a", "", "b", ""]);
    assert_eq!(strings(split_chars(&cs(""), ',')), vec![""]);
    assert_eq!(strings(words_of(&cs("  a \t bc  d "))), vec!["a", "bc", "d"]);
    assert_eq!(words_of(&cs(" \n ")).len(), 0);
}

#[test]
fn prefixes_suffixes_and_equality() {
    assert_eq!(strip_prefix_str(&cs("bindl"), "bind"), Some(cs("l")));
    assert_eq!(strip_prefix_str(&cs("bin"), "bind"), None);
    assert_eq!(strip_suffix_str(&cs("45deg"), "deg"), Some(cs("45")));
    assert_eq!(strip_suffix_str(&cs("45"), "deg"), None);
    assert!(eq_str(&cs("next"), "next"));
    assert!(!eq_str(&cs("nex"), "next"));
}

#[test]
fn building_strings() {
    let mut s = string_of(&cs("ab"));
    push_chars(&mut s, &cs("c"));
    push_decimal(&mut s, 1234567890);
    push_decimal_i8(&mut s, -128);
    push_hex2(&mut s, 10);
    assert_eq!(s, "abc1234567890-1280A");
}

#[test]
fn reading_numbers_as_str_parse_does() {
    assert_eq!(parse_u8(&cs("255")), Some(255));
    assert_eq!(parse_u8(&cs("256")), None);
    assert_eq!(parse_u8(&cs("+7")), Some(7));
    assert_eq!(parse_u8(&cs("+")), None);
    assert_eq!(parse_u8(&cs("007")), Some(7));
    assert_eq!(parse_u8(&cs(" 7")), None);
    assert_eq!(parse_u16(&cs("65535")), Some(65535));
    assert_eq!(parse_u32(&cs("4294967295")), Some(u32::MAX));
    assert_eq!(parse_u32(&cs("4294967296")), None);
    assert_eq!(parse_hex_u8(&cs("fF")), Some(255));
    assert_eq!(parse_hex_u8(&cs("g0")), None);
    assert_eq!(parse_i8_exec(&cs("-128")), Some(-128));
    assert_eq!(parse_i8_exec(&cs("-129")), None);
    assert_eq!(parse_i8_exec(&cs("127")), Some(127));
    assert_eq!(parse_i8_exec(&cs("-")), None);
}
