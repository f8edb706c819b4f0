use gastown_tui::text::{
    chars_of, contains_chars, is_visible, is_whitespace, parse_u32, push_decimal, replace_text,
    split_lines, split_words, text_eq, trim_text,
};

fn cv(s: &str) -> Vec<char> {
    s.chars().collect()
}

#[test]
fn whitespace_follows_unicode() {
    assert!(is_whitespace(' '));
    assert!(is_whitespace('\t'));
    assert!(is_whitespace('\n'));
    assert!(is_whitespace('\u{3000}'));
    assert!(is_whitespace('\u{85}'));
    assert!(!is_whitespace('a'));
    assert!(!is_whitespace('\u{200B}'));
}

#[test]
fn chars_of_keeps_order() {
    assert_eq!(chars_of("héllo"), vec!['h', 'é', 'l', 'l', 'o']);
    assert_eq!(chars_of(""), Vec::<char>::new());
}

#[test]
fn substring_search() {
    assert!(contains_chars(&cv("polecat-alpha"), &cv("cat")));
    assert!(contains_chars(&cv("abc"), &cv("")));
    assert!(!contains_chars(&cv("abc"), &cv("abcd")));
    assert!(!contains_chars(&cv("abc"), &cv("ac")));
    assert!(contains_chars(&cv("aaab"), &cv("aab")));
}

#[test]
fn decimal_rendering() {
    let mut s = String::from("n=");
    push_decimal(&mut s, 0);
    assert_eq!(s, "n=0");
    let mut t = String::new();
    push_decimal(&mut t, 18446744073709551615);
    assert_eq!(t, "18446744073709551615");
}

#[test]
fn parse_like_std() {
    assert_eq!(parse_u32(&cv("42")), Some(42));
    assert_eq!(parse_u32(&cv("+7")), Some(7));
    assert_eq!(parse_u32(&cv("007")), Some(7));
    assert_eq!(parse_u32(&cv("4294967295")), Some(4294967295));
    assert_eq!(parse_u32(&cv("4294967296")), None);
    assert_eq!(parse_u32(&cv("")), None);
    assert_eq!(parse_u32(&cv("+")), None);
    assert_eq!(parse_u32(&cv("-1")), None);
    assert_eq!(parse_u32(&cv("1a")), None);
    for s in ["42", "+7", "", "+", "-1", "99999999999", "12 3"] {
        assert_eq!(parse_u32(&cv(s)), s.parse::<u32>().ok());
    }
}

#[test]
fn parse_reads_back_decimal() {
    for n in [0u32, 9, 10, 12345, 4294967295] {
        let mut s = String::new();
        push_decimal(&mut s, n as u64);
        assert_eq!(parse_u32(&chars_of(&s)), Some(n));
    }
}

#[test]
fn words_like_split_whitespace() {
    for s in ["3\t5", "  a  b c ", "", "   ", "one", "x\u{3000}y"] {
        let got: Vec<String> = split_words(&cv(s)).into_iter().map(|w| w.into_iter().collect()).collect();
        let want: Vec<String> = s.split_whitespace().map(|w| w.to_string()).collect();
        assert_eq!(got, want);
    }
}

#[test]
fn visible_means_not_blank() {
    assert!(is_visible(" M src/main.rs"));
    assert!(!is_visible(" \t\n"));
    assert!(!is_visible(""));
}

#[test]
fn trim_like_std() {
    for s in ["  main \n", "", "   ", "a b", "\u{3000}x\u{a0}"] {
        assert_eq!(trim_text(s), s.trim());
    }
}

#[test]
fn text_equality() {
    assert!(text_eq("stuck", "stuck"));
    assert!(!text_eq("stuck", "Stuck"));
    assert!(!text_eq("stuck", "stuc"));
}

#[test]
fn replace_like_std() {
    for (s, from, to) in [
        ("/home/u/code/x", "/home/u", "~"),
        ("aaa", "aa", "b"),
        ("abc", "", "~"),
        ("", "", "~"),
        ("abc", "z", "~"),
    ] {
        assert_eq!(replace_text(s, from, to), s.replace(from, to));
    }
}

#[test]
fn lines_like_std() {
    for s in ["a\nb", "a\n", "", "\n", "a\r\nb\r\n", "b\r", "x\n\ny"] {
        let want: Vec<String> = s.lines().map(|l| l.to_string()).collect();
        assert_eq!(split_lines(s), want);
    }
}
