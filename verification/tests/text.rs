use worktrunk::text::number::{parse_i64, parse_upto, parse_usize, push_decimal};
use worktrunk::text::replace::{contains_chars, replace_chars};
use worktrunk::text::split::{
    find_char, has_char, lines_of, matches_at, split_chars, split_once_chars, strip_prefix_chars,
    strip_suffix_chars,
};
use worktrunk::text::{
    append_chars, append_str, char_is_whitespace, chars_of, is_text, same_chars, slice_of,
    string_of, string_of_range, trim_chars,
};

fn c(s: &str) -> Vec<char> {
    s.chars().collect()
}

fn s(v: &[char]) -> String {
    v.iter().collect()
}

fn all(parts: Vec<Vec<char>>) -> Vec<String> {
    parts.iter().map(|p| s(p)).collect()
}

#[test]
fn chars_and_strings_round_trip() {
    assert_eq!(chars_of("héllo→"), c("héllo→"));
    assert_eq!(string_of(&c("héllo→")), "héllo→");
    assert_eq!(string_of_range(&c("héllo→"), 1, 4), "éll");
    assert_eq!(slice_of(&c("héllo→"), 4, 6), c("o→"));
    assert_eq!(slice_of(&c("abc"), 2, 2), Vec::<char>::new());
    let mut out = c("ab");
    append_chars(&mut out, &c("cd"));
    append_str(&mut out, "éf");
    assert_eq!(out, c("abcdéf"));
    assert!(same_chars(&c("abc"), &c("abc")));
    assert!(!same_chars(&c("abc"), &c("abd")));
    assert!(!same_chars(&c("abc"), &c("ab")));
    assert!(is_text(&c("HEAD"), "HEAD"));
    assert!(!is_text(&c("HEAD"), "head"));
}

#[test]
fn whitespace_agrees_with_the_standard_library() {
    for code in 0..0x3100u32 {
        if let Some(ch) = char::from_u32(code) {
            assert_eq!(char_is_whitespace(ch), ch.is_whitespace(), "U+{code:04X}");
        }
    }
    assert!(!char_is_whitespace('\u{200b}'));
    assert!(!char_is_whitespace('\u{feff}'));
}

#[test]
fn trim_agrees_with_the_standard_library() {
    for text in ["", " ", "a", "  a b  ", "\t\na\u{a0}", "\u{3000}x\u{2003}", "x  ", "  x", " \r\n "] {
        assert_eq!(s(&trim_chars(&c(text))), text.trim(), "{text:?}");
    }
}

#[test]
fn split_agrees_with_the_standard_library() {
    for text in ["", "/", "a", "a/b", "/a/b/", "//", "a//b", "é/→/"] {
        let expected: Vec<String> = text.split('/').map(|p| p.to_string()).collect();
        assert_eq!(all(split_chars(&c(text), '/')), expected, "{text:?}");
        let once = split_once_chars(&c(text), '/').map(|(a, b)| (s(&a), s(&b)));
        let std_once = text.split_once('/').map(|(a, b)| (a.to_string(), b.to_string()));
        assert_eq!(once, std_once, "{text:?}");
    }
}

#[test]
fn lines_agree_with_the_standard_library() {
    for text in ["", "\n", "a", "a\n", "a\nb", "a\r\nb\r\n", "a\rb\n", "a\n\nb", "\r\n", "a\r", "\r", "a\n\r"] {
        let expected: Vec<String> = text.lines().map(|l| l.to_string()).collect();
        assert_eq!(all(lines_of(&c(text))), expected, "{text:?}");
    }
}

#[test]
fn searching_characters_and_patterns() {
    let v = c("a:b:c");
    assert_eq!(find_char(&v, 0, 5, ':'), Some(1));
    assert_eq!(find_char(&v, 2, 5, ':'), Some(3));
    assert_eq!(find_char(&v, 4, 5, ':'), None);
    assert_eq!(find_char(&v, 2, 3, ':'), None);
    assert!(has_char(&v, 'c'));
    assert!(!has_char(&v, 'd'));
    assert!(matches_at(&v, 2, &c("b:")));
    assert!(!matches_at(&v, 3, &c("b:")));
    assert!(!matches_at(&v, 4, &c("c:")));
    assert!(matches_at(&v, 5, &c("")));
    assert!(contains_chars(&v, &c("b:c")));
    assert!(contains_chars(&v, &c("")));
    assert!(contains_chars(&c(""), &c("")));
    assert!(!contains_chars(&v, &c("c:")));
}

#[test]
fn prefixes_and_suffixes() {
    let strip = |t: &str, p: &str| strip_prefix_chars(&c(t), &c(p)).map(|r| s(&r));
    assert_eq!(strip("refs/heads/main", "refs/heads/"), Some("main".to_string()));
    assert_eq!(strip("refs/heads/", "refs/heads/"), Some(String::new()));
    assert_eq!(strip("refs/head", "refs/heads/"), None);
    assert_eq!(strip("x", ""), Some("x".to_string()));
    let strip_end = |t: &str, p: &str| strip_suffix_chars(&c(t), &c(p)).map(|r| s(&r));
    assert_eq!(strip_end("repo.git", ".git"), Some("repo".to_string()));
    assert_eq!(strip_end(".git", ".git"), Some(String::new()));
    assert_eq!(strip_end("git", ".git"), None);
    assert_eq!(strip_end("repo.gitx", ".git"), None);
}

#[test]
fn replace_agrees_with_the_standard_library() {
    for (text, from, to) in [
        ("a{b}c{b}", "{b}", "X"),
        ("aaa", "aa", "b"),
        ("abc", "", "-"),
        ("", "", "-"),
        ("", "x", "-"),
        ("abc", "abc", ""),
        ("abc", "abcd", "x"),
        ("ababab", "ab", "ba"),
        ("é→é", "→", "->"),
    ] {
        assert_eq!(
            s(&replace_chars(&c(text), &c(from), &c(to))),
            text.replace(from, to),
            "{text:?} {from:?} {to:?}"
        );
    }
}

#[test]
fn decimal_numbers() {
    let decimal = |n: u128| {
        let mut out = c("n=");
        push_decimal(&mut out, n);
        s(&out)
    };
    assert_eq!(decimal(0), "n=0");
    assert_eq!(decimal(9), "n=9");
    assert_eq!(decimal(10), "n=10");
    assert_eq!(decimal(1_234_567_890), "n=1234567890");
    assert_eq!(decimal(u128::MAX), format!("n={}", u128::MAX));
}

#[test]
fn parsing_numbers_agrees_with_the_standard_library() {
    let max = usize::MAX.to_string();
    let over = format!("{}0", usize::MAX);
    let next = (usize::MAX as u128 + 1).to_string();
    for text in [
        "0", "7", "42", "007", "+5", "+", "", "-1", "1 ", " 1", "1_000", "12a", "٣", "++1", max.as_str(),
        over.as_str(), next.as_str(), "00000000000000000000000000000000001",
    ] {
        assert_eq!(parse_usize(&c(text)), text.parse::<usize>().ok(), "{text:?}");
    }
}

#[test]
fn parsing_with_a_limit() {
    assert_eq!(parse_upto(&c("255"), 255), Some(255));
    assert_eq!(parse_upto(&c("256"), 255), None);
    assert_eq!(parse_upto(&c("0"), 0), Some(0));
    assert_eq!(parse_upto(&c("1"), 0), None);
    assert_eq!(parse_upto(&c("9"), 5), None);
    assert_eq!(parse_upto(&c(&u128::MAX.to_string()), u128::MAX), Some(u128::MAX));
    assert_eq!(parse_upto(&c(&format!("{}0", u128::MAX)), u128::MAX), None);
    for text in ["0", "-0", "+0", "-1", "17", "-17", "", "-", "+", "--1", "-+1", "+-1", "1-"] {
        assert_eq!(parse_i64(&c(text)), text.parse::<i64>().ok(), "{text:?}");
    }
}
