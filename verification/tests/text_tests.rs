use contree::text::{
    chars_of, contains, contains_chars, contains_string, insert_unique, is_space_char, lines,
    matches_at, same_text, take_before, trim,
};

#[test]
fn white_space_is_what_std_calls_white_space() {
    let mut n: u32 = 0;
    while n <= 0x10FFFF {
        if let Some(c) = char::from_u32(n) {
            assert_eq!(is_space_char(c), c.is_whitespace(), "code point {:#x}", n);
        }
        n += 1;
    }
}

#[test]
fn trim_removes_white_space_at_both_ends() {
    assert_eq!(trim("  hello \t\n"), "hello");
    assert_eq!(trim("a b"), "a b");
    assert_eq!(trim("  a  b  "), "a  b");
    assert_eq!(trim("\u{3000}a\u{a0}"), "a");
}

#[test]
fn trim_of_blank_text_is_empty() {
    assert_eq!(trim(""), "");
    assert_eq!(trim("   "), "");
    assert_eq!(trim("\n\t\r"), "");
}

#[test]
fn trim_agrees_with_std() {
    let samples = [
        "",
        " ",
        "x",
        " x",
        "x ",
        "\u{2003}x y\u{2003}",
        "\u{feff}x",
        "\u{200b}x\u{200b}",
        "  /re gex/  ",
        "\u{85}tab\u{1680}",
    ];
    for s in samples {
        assert_eq!(trim(s), s.trim());
    }
}

#[test]
fn chars_of_gives_each_character() {
    assert_eq!(chars_of("a\u{e9}\u{1f600}"), vec!['a', '\u{e9}', '\u{1f600}']);
    assert_eq!(chars_of(""), Vec::<char>::new());
}

#[test]
fn contains_finds_a_text_anywhere() {
    assert!(contains("hello world", "lo w"));
    assert!(contains("hello world", "hello"));
    assert!(contains("hello world", "world"));
    assert!(contains("aab", "ab"));
    assert!(!contains("hello world", "low"));
    assert!(!contains("abc", "abcd"));
}

#[test]
fn contains_with_empty_texts() {
    assert!(contains("abc", ""));
    assert!(contains("", ""));
    assert!(!contains("", "a"));
}

#[test]
fn contains_agrees_with_std() {
    let hays = ["", "a", "abcabd", "\u{e9}t\u{e9}", "xx.cargo/registryxx", "aaa"];
    let needles = ["", "a", "abd", "t\u{e9}", ".cargo/registry", "aaaa", "ca"];
    for h in hays {
        for n in needles {
            assert_eq!(contains(h, n), h.contains(n), "{:?} in {:?}", n, h);
        }
    }
}

#[test]
fn contains_chars_and_matches_at() {
    let hay = chars_of("abcabd");
    let needle = chars_of("abd");
    assert!(contains_chars(&hay, &needle));
    assert!(matches_at(&hay, &needle, 3));
    assert!(!matches_at(&hay, &needle, 0));
    assert!(matches_at(&hay, &Vec::new(), 6));
    assert!(!matches_at(&hay, &Vec::new(), 7));
    assert!(!matches_at(&hay, &needle, 4));
    assert!(!matches_at(&needle, &hay, 0));
}

#[test]
fn same_text_compares_characters() {
    assert!(same_text("abc", "abc"));
    assert!(same_text("", ""));
    assert!(!same_text("abc", "abd"));
    assert!(!same_text("abc", "ab"));
}

#[test]
fn take_before_cuts_at_the_first_mark() {
    assert_eq!(take_before("Vec<u8>", '<'), "Vec");
    assert_eq!(take_before("HashMap<String, Vec<u8>>", '<'), "HashMap");
    assert_eq!(take_before("String", '<'), "String");
    assert_eq!(take_before("<T>", '<'), "");
    assert_eq!(take_before("", '<'), "");
}

#[test]
fn lines_splits_at_line_feeds() {
    assert_eq!(lines("a\nb\r\nc"), vec!["a", "b", "c"]);
    assert_eq!(lines("a\n"), vec!["a"]);
    assert_eq!(lines("a\n\nb"), vec!["a", "", "b"]);
    assert_eq!(lines("\n"), vec![""]);
    assert_eq!(lines(""), Vec::<String>::new());
}

#[test]
fn lines_keeps_a_carriage_return_without_line_feed() {
    assert_eq!(lines("a\r"), vec!["a\r"]);
    assert_eq!(lines("a\rb\n"), vec!["a\rb"]);
    assert_eq!(lines("a\r\r\n"), vec!["a\r"]);
}

#[test]
fn lines_agrees_with_std() {
    let samples = ["", "\n", "\r\n", "a", "a\nb", "a\r\nb\r\n", "\n\n", "x\r", "\ra\n\rb", "a\n\r"];
    for s in samples {
        let expected: Vec<String> = s.lines().map(|l| l.to_string()).collect();
        assert_eq!(lines(s), expected, "{:?}", s);
    }
}

#[test]
fn insert_unique_adds_each_text_once() {
    let mut items: Vec<String> = Vec::new();
    insert_unique(&mut items, "b");
    insert_unique(&mut items, "a");
    insert_unique(&mut items, "b");
    assert_eq!(items, vec!["b", "a"]);
    assert!(contains_string(&items, "a"));
    assert!(!contains_string(&items, "c"));
}
