use forge_paint::text::{
    chars_of, decimal_text, ends_with, find_from, has_text, matches_at, parse_isize, replace_text,
    rfind_char, same_ignoring_case, same_text, split_chars, starts_with, text_between, text_of,
    to_lower, trim_text, words_of,
};

fn strings(list: &[&str]) -> Vec<String> {
    list.iter().map(|s| s.to_string()).collect()
}

#[test]
fn texts_come_apart_and_together() {
    let text = "Grüße, 世界";
    let chars = chars_of(text);
    assert_eq!(chars, text.chars().collect::<Vec<char>>());
    assert_eq!(text_of(&chars), text);
    assert_eq!(text_between(&chars, 2, 5), "üße");
}

#[test]
fn parts_are_found() {
    let s = chars_of("abcabc");
    assert_eq!(find_from(&s, &chars_of("ca"), 0), Some(2));
    assert_eq!(find_from(&s, &chars_of("bc"), 2), Some(4));
    assert_eq!(find_from(&s, &chars_of("bc"), 5), None);
    assert!(matches_at(&s, &chars_of("abc"), 3));
    assert!(!matches_at(&s, &chars_of("abc"), 4));
    assert_eq!(rfind_char(&s, 'b', 6), Some(4));
    assert_eq!(rfind_char(&s, 'b', 4), Some(1));
    assert_eq!(rfind_char(&s, 'x', 6), None);
    for (text, part) in [("abc", ""), ("abc", "bc"), ("", "a"), ("", ""), ("ab", "abc")] {
        assert_eq!(has_text(text, part), text.contains(part), "{text} {part}");
        assert_eq!(starts_with(text, part), text.starts_with(part), "{text} {part}");
        assert_eq!(ends_with(text, part), text.ends_with(part), "{text} {part}");
        assert_eq!(same_text(text, part), text == part);
    }
}

#[test]
fn parts_are_replaced() {
    for (text, pat, with) in [
        ("a\\b\\c", "\\", "/"),
        ("aaa", "aa", "b"),
        ("none", "x", "yy"),
        ("{dir} and {dir}", "{dir}", "/tmp"),
    ] {
        assert_eq!(replace_text(text, pat, with), text.replace(pat, with));
    }
}

#[test]
fn letters_become_small() {
    for text in ["Base_Color.PNG", "ÄÖ", "", "abc"] {
        assert_eq!(to_lower(text), text.to_ascii_lowercase());
    }
    assert!(same_ignoring_case("HDR", "hdr"));
    assert!(!same_ignoring_case("HDRI", "hdr"));
}

#[test]
fn texts_are_cut() {
    for text in ["", "/", "a/b", "a//b/", "/a"] {
        let parts: Vec<String> = split_chars(&chars_of(text), '/').iter().map(text_of).collect();
        assert_eq!(parts, text.split('/').map(|s| s.to_string()).collect::<Vec<String>>());
    }
    for text in ["", "  f 1/1/1\t2 3 ", "one", "\u{2003}a\u{a0}b\n"] {
        assert_eq!(
            words_of(&chars_of(text)),
            text.split_whitespace().map(|s| s.to_string()).collect::<Vec<String>>()
        );
        assert_eq!(trim_text(text), text.trim());
    }
    assert_eq!(words_of(&chars_of("a b")), strings(&["a", "b"]));
}

#[test]
fn numbers_are_written_and_read() {
    for n in [0u64, 7, 10, 1001, 4294967296, u64::MAX] {
        assert_eq!(decimal_text(n), format!("{n}"));
    }
    for text in ["0", "-4", "+7", "", "-", "+", "1x", "007", "9223372036854775807",
        "9223372036854775808", "-9223372036854775808", "-9223372036854775809", " 1", "١"]
    {
        assert_eq!(parse_isize(text), text.parse::<isize>().ok(), "{text}");
    }
    for n in [0isize, 12, 90210] {
        assert_eq!(parse_isize(decimal_text(n as u64).as_str()), Some(n));
    }
}
