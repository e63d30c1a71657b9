use fleetops::numbers::{decimal_text, parse_i64, parse_u64, push_signed};
use fleetops::text::{
    char_ascii_lower, char_ascii_upper, char_is_space, contains, contains_str, find, from_chars,
    pad_right, replace, same_ignore_case, text_le, to_chars, to_lower, to_upper, trim,
};
use fleetops::tokens::{join, lines, split, words};

fn c(s: &str) -> Vec<char> {
    s.chars().collect()
}

fn s(v: &[char]) -> String {
    v.iter().collect()
}

fn strs(v: &[Vec<char>]) -> Vec<String> {
    v.iter().map(|x| x.iter().collect()).collect()
}

#[test]
fn blanks_are_the_white_space_of_unicode() {
    let mut u: u32 = 0;
    while u <= 0x10FFFF {
        if let Some(ch) = char::from_u32(u) {
            assert_eq!(char_is_space(ch), ch.is_whitespace(), "U+{:04X}", u);
        }
        u += 1;
    }
}

#[test]
fn ascii_case_mapping_agrees_with_std() {
    let mut u: u32 = 0;
    while u <= 0x2FFF {
        if let Some(ch) = char::from_u32(u) {
            assert_eq!(char_ascii_lower(ch), ch.to_ascii_lowercase());
            assert_eq!(char_ascii_upper(ch), ch.to_ascii_uppercase());
        }
        u += 1;
    }
    assert_eq!(s(&to_lower(&c("AbC é Ü"))), "abc é Ü");
    assert_eq!(s(&to_upper(&c("aBc é ü"))), "ABC é ü");
}

#[test]
fn chars_round_trip() {
    for t in ["", "abc", "naïve ✓ 📦", "\n\t"] {
        assert_eq!(from_chars(&to_chars(t)), t);
        assert_eq!(to_chars(t), c(t));
    }
}

#[test]
fn trim_agrees_with_std() {
    for t in ["", " ", "  a b  ", "\t\n x\u{a0}\u{3000}", "x", "\u{2003}y\u{2003}z\u{2003}", "a\u{200b} "] {
        assert_eq!(s(&trim(&c(t))), t.trim(), "{:?}", t);
    }
}

#[test]
fn split_agrees_with_std() {
    for t in ["", ",", "a", "a,b", "a,,b,", ",a", "x:y:z", "a,b,c,"] {
        let ours = strs(&split(&c(t), ','));
        let std: Vec<String> = t.split(',').map(|p| p.to_string()).collect();
        assert_eq!(ours, std, "{:?}", t);
    }
}

#[test]
fn lines_agree_with_std() {
    for t in ["", "\n", "a", "a\n", "a\nb", "a\r\nb\r\n", "a\r", "\r\n\r\n", "a\n\nb\n\n", "x\r\r\ny", "\rz\n"] {
        let ours = strs(&lines(&c(t)));
        let std: Vec<String> = t.lines().map(|p| p.to_string()).collect();
        assert_eq!(ours, std, "{:?}", t);
    }
}

#[test]
fn words_agree_with_std() {
    for t in ["", "  ", "a", " a  b\tc\n", "x\u{a0}y", "one", "\u{3000}w\u{3000}"] {
        let ours = strs(&words(&c(t)));
        let std: Vec<String> = t.split_whitespace().map(|p| p.to_string()).collect();
        assert_eq!(ours, std, "{:?}", t);
    }
}

#[test]
fn join_puts_the_separator_between_pieces() {
    assert_eq!(s(&join(&vec![], ", ")), "");
    assert_eq!(s(&join(&vec![c("a")], ", ")), "a");
    assert_eq!(s(&join(&vec![c("a"), c(""), c("b")], ", ")), "a, , b");
    assert_eq!(s(&join(&split(&c("a,b,,c"), ','), ",")), "a,b,,c");
}

#[test]
fn find_gives_the_first_place() {
    assert_eq!(find(&c("abcabc"), &c("bc")), Some(1));
    assert_eq!(find(&c("abcabc"), &c("")), Some(0));
    assert_eq!(find(&c(""), &c("")), Some(0));
    assert_eq!(find(&c("abc"), &c("abcd")), None);
    assert_eq!(find(&c("abc"), &c("c")), Some(2));
    assert_eq!(find(&c("aab"), &c("ab")), Some(1));
    assert!(contains(&c("xyz"), &c("yz")));
    assert!(!contains_str(&c("xyz"), "zy"));
    assert!(contains_str(&c("OS: 📦 3"), "📦"));
}

#[test]
fn replace_agrees_with_std_for_patterns_that_are_not_empty() {
    for (t, from, to) in [("🐳 5/12", "🐳 ", "🐳"), ("aaa", "aa", "b"), ("", "a", "b"), ("xayaz", "a", ""), ("ababab", "ab", "ba")] {
        assert_eq!(s(&replace(&c(t), from, to)), t.replace(from, to), "{:?}", (t, from, to));
    }
    assert_eq!(s(&replace(&c("abc"), "", "x")), "abc");
}

#[test]
fn pad_right_agrees_with_format() {
    for t in ["", "a", "exactly12chr", "longer than twelve", "ü📦"] {
        assert_eq!(s(&pad_right(&c(t), 12)), format!("{:12}", t), "{:?}", t);
    }
}

#[test]
fn case_insensitive_equality() {
    assert!(same_ignore_case(&c("LocalHost"), &c("localhost")));
    assert!(!same_ignore_case(&c("local"), &c("locale")));
    assert!(!same_ignore_case(&c("É"), &c("é")));
    assert!(same_ignore_case(&c(""), &c("")));
}

#[test]
fn dictionary_order_agrees_with_std() {
    let samples = ["", "a", "ab", "b", "a:b", "a:", "Z", "é", "nginx:latest", "nginx:1.25", "📦"];
    for a in samples {
        for b in samples {
            assert_eq!(text_le(&c(a), &c(b)), a <= b, "{:?} {:?}", a, b);
        }
    }
}

#[test]
fn decimal_numerals() {
    for n in [0u64, 7, 10, 99, 100, 12345, u64::MAX] {
        assert_eq!(s(&decimal_text(n)), n.to_string());
    }
    for i in [0i64, -1, 1, i64::MIN, i64::MAX, -1000] {
        let mut out = vec!['x'];
        push_signed(&mut out, i);
        assert_eq!(s(&out), format!("x{}", i));
    }
}

#[test]
fn parsing_numerals_agrees_with_std() {
    for t in ["", "+", "-", "0", "+5", "-5", "007", "18446744073709551615", "18446744073709551616", "1a", " 1", "1 ", "٣", "+-1", "99999999999999999999999"] {
        assert_eq!(parse_u64(&c(t)), t.parse::<u64>().ok(), "{:?}", t);
    }
    for t in ["", "+", "-", "-0", "+5", "-5", "9223372036854775807", "9223372036854775808", "-9223372036854775808", "-9223372036854775809", "--1", "1-"] {
        assert_eq!(parse_i64(&c(t)), t.parse::<i64>().ok(), "{:?}", t);
    }
}
