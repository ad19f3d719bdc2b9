use wasm_compiler::text::{
    chars_of, char_is_whitespace, contains, decimal, find, find_from, replace, split_lines,
    starts_with, string_of, trim, utf8_len,
};

fn chars(s: &str) -> Vec<char> {
    s.chars().collect()
}

fn text(v: &[char]) -> String {
    v.iter().collect()
}

#[test]
fn conversions_round_trip() {
    for s in ["", "abc", "gr\u{00fc}n \u{1F600}\n"] {
        assert_eq!(chars_of(s), chars(s));
        assert_eq!(string_of(&chars(s)), s);
    }
}

#[test]
fn whitespace_is_the_unicode_property() {
    for c in 0u32..0x11000 {
        if let Some(c) = char::from_u32(c) {
            assert_eq!(char_is_whitespace(c), c.is_whitespace());
        }
    }
}

#[test]
fn trim_matches_std() {
    for s in ["", "   ", " a b ", "\t\n x\u{00a0}\u{3000}", "x", "\u{2003}y z\r\n"] {
        assert_eq!(text(trim(&chars(s))), s.trim());
    }
}

#[test]
fn lines_match_std() {
    for s in ["", "a", "a\n", "a\nb", "a\r\nb\r\n", "\n\n", "a\rb\n", "last\r", "x\n\r\ny"] {
        let expected: Vec<String> = s.lines().map(|l| l.to_string()).collect();
        let got: Vec<String> = split_lines(&chars(s)).iter().map(|l| text(l)).collect();
        assert_eq!(got, expected);
    }
}

#[test]
fn find_gives_first_match() {
    assert_eq!(find(&chars("abcabc"), &chars("bc")), Some(1));
    assert_eq!(find_from(&chars("abcabc"), &chars("bc"), 2), Some(4));
    assert_eq!(find_from(&chars("abcabc"), &chars("bc"), 5), None);
    assert_eq!(find(&chars("abc"), &chars("abcd")), None);
    assert_eq!(find(&chars("abc"), &chars("")), Some(0));
    assert_eq!(find(&chars(""), &chars("a")), None);
    assert!(contains(&chars("(type $string"), &chars("$string")));
    assert!(!contains(&chars("(type $strin"), &chars("$string")));
    assert!(starts_with(&chars("(module)"), &chars("(module")));
    assert!(!starts_with(&chars(" (module)"), &chars("(module")));
}

#[test]
fn replace_matches_std() {
    for (s, from, to) in [
        ("aaa", "aa", "b"),
        ("(mut string) (mut string)", "(mut string)", "(mut (ref null $string))"),
        ("abc", "x", "y"),
        ("", "a", "b"),
        ("abab", "ab", ""),
    ] {
        assert_eq!(text(&replace(&chars(s), &chars(from), &chars(to))), s.replace(from, to));
    }
    assert_eq!(text(&replace(&chars("abc"), &chars(""), &chars("-"))), "abc");
}

#[test]
fn decimal_writes_digits() {
    assert_eq!(text(&decimal(0)), "0");
    assert_eq!(text(&decimal(9)), "9");
    assert_eq!(text(&decimal(10)), "10");
    assert_eq!(text(&decimal(1234567890)), "1234567890");
    assert_eq!(text(&decimal(u128::MAX)), u128::MAX.to_string());
}

#[test]
fn utf8_len_counts_bytes() {
    for s in ["", "hello", "gr\u{00fc}n", "\u{20ac}", "\u{1F600}x"] {
        assert_eq!(utf8_len(&chars(s)), s.len() as u128);
    }
}
