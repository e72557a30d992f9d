use ion_shell::text::{
    char_is_whitespace, chars_of, compare, decimal_string, i32_to_string, join_strings, parse_i32,
    parse_usize, split_whitespace, str_eq, string_of, Rank,
};

fn strs(items: &[&str]) -> Vec<String> {
    items.iter().map(|x| x.to_string()).collect()
}

#[test]
fn chars_round_trip() {
    let text = "héllo wörld ✓";
    let v = chars_of(text);
    assert_eq!(v, text.chars().collect::<Vec<char>>());
    assert_eq!(string_of(&v), text);
    assert_eq!(string_of(&chars_of("")), "");
}

#[test]
fn str_eq_compares_contents() {
    assert!(str_eq("abc", "abc"));
    assert!(!str_eq("abc", "abd"));
    assert!(!str_eq("abc", "ab"));
    assert!(str_eq("", ""));
}

#[test]
fn decimal_strings_match_std() {
    for n in [0i32, 1, 9, 10, 11, 99, 100, 12345, i32::MAX, -1, -10, -12345, i32::MIN] {
        assert_eq!(i32_to_string(n), n.to_string());
    }
    assert_eq!(decimal_string(false, u128::MAX), u128::MAX.to_string());
    assert_eq!(decimal_string(true, 18446744073709551616), "-18446744073709551616");
    assert_eq!(decimal_string(false, 0), "0");
}

#[test]
fn parse_usize_matches_std() {
    for text in [
        "0", "1", "42", "+7", "007", "", "+", "-", "-1", "++1", "1a", " 1", "1 ", "１",
        "18446744073709551615", "18446744073709551616", "99999999999999999999999999999", "+0",
        "000000000000000000000000000000000000001", "1_000",
    ] {
        assert_eq!(parse_usize(text), text.parse::<usize>().ok(), "{:?}", text);
    }
}

#[test]
fn parse_i32_matches_std() {
    for text in [
        "0", "1", "-1", "+1", "2147483647", "2147483648", "-2147483648", "-2147483649", "", "-",
        "+", "--1", "+-1", "-+1", "12x", "-0", "00012", "-00012", "4294967296", "٣",
    ] {
        assert_eq!(parse_i32(text), text.parse::<i32>().ok(), "{:?}", text);
    }
}

#[test]
fn whitespace_agrees_with_std_on_every_char() {
    let mut c = 0u32;
    while c <= 0x10ffff {
        if let Some(ch) = char::from_u32(c) {
            assert_eq!(char_is_whitespace(ch), ch.is_whitespace(), "U+{:04X}", c);
        }
        c += 1;
    }
}

#[test]
fn split_whitespace_matches_std() {
    for text in ["", " ", "a", " a ", "a b", "a  b\tc\n", "\u{3000}x\u{a0}y z\u{2003}", "  lead", "trail  "] {
        let expected: Vec<String> = text.split_whitespace().map(|x| x.to_string()).collect();
        assert_eq!(split_whitespace(text), expected, "{:?}", text);
    }
}

#[test]
fn join_strings_puts_separator_between() {
    assert_eq!(join_strings(&strs(&[]), ", "), "");
    assert_eq!(join_strings(&strs(&["a"]), ", "), "a");
    assert_eq!(join_strings(&strs(&["a", "b", "c"]), ", "), "a, b, c");
    assert_eq!(join_strings(&strs(&["", ""]), "-"), "-");
}

#[test]
fn compare_is_dictionary_order() {
    let cases = [("", ""), ("", "a"), ("a", ""), ("abc", "abd"), ("abc", "abc"), ("ab", "abc"), ("b", "abc"), ("é", "z"), ("ends-with", "eq"), ("exists", "exit")];
    for (a, b) in cases {
        let expected = match a.cmp(b) {
            std::cmp::Ordering::Less => Rank::Before,
            std::cmp::Ordering::Equal => Rank::Same,
            std::cmp::Ordering::Greater => Rank::After,
        };
        assert_eq!(compare(&chars_of(a), &chars_of(b)), expected, "{:?} {:?}", a, b);
    }
}
