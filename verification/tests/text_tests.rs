use mission_fetch::text::{
    begins_with_dot, char_is_whitespace, chars_of, ends_in_slash, same_text, split, split_words,
    Separator,
};

fn owned(parts: &[&str]) -> Vec<String> {
    parts.iter().map(|part| part.to_string()).collect()
}

#[test]
fn whitespace_is_what_std_calls_whitespace() {
    let mut code: u32 = 0;
    while code <= 0x10FFFF {
        if let Some(c) = char::from_u32(code) {
            assert_eq!(char_is_whitespace(c), c.is_whitespace(), "U+{:04X}", code);
        }
        code += 1;
    }
}

#[test]
fn separator_cuts_at_its_own_characters_only() {
    assert!(Separator::Slash.cuts_at('/'));
    assert!(!Separator::Slash.cuts_at('\\'));
    assert!(!Separator::Slash.cuts_at('\n'));
    assert!(Separator::LineFeed.cuts_at('\n'));
    assert!(!Separator::LineFeed.cuts_at('\r'));
    assert!(Separator::Whitespace.cuts_at(' '));
    assert!(Separator::Whitespace.cuts_at('\t'));
    assert!(Separator::Whitespace.cuts_at('\u{3000}'));
    assert!(!Separator::Whitespace.cuts_at('a'));
}

#[test]
fn split_keeps_empty_pieces() {
    assert_eq!(split("", Separator::Slash), owned(&[""]));
    assert_eq!(split("a", Separator::Slash), owned(&["a"]));
    assert_eq!(split("a/b", Separator::Slash), owned(&["a", "b"]));
    assert_eq!(split("/a//b/", Separator::Slash), owned(&["", "a", "", "b", ""]));
    assert_eq!(split("one\ntwo\n", Separator::LineFeed), owned(&["one", "two", ""]));
    assert_eq!(split("one\r\ntwo", Separator::LineFeed), owned(&["one\r", "two"]));
}

#[test]
fn split_agrees_with_std_split() {
    for text in ["", "/", "a/b/c", "//", "a//b", "repo-1a2b/src/main.py", "é/ü/", "/x"] {
        let expected: Vec<String> = text.split('/').map(|part| part.to_string()).collect();
        assert_eq!(split(text, Separator::Slash), expected, "{:?}", text);
    }
}

#[test]
fn split_words_agrees_with_split_whitespace() {
    for text in [
        "",
        "   ",
        "a",
        " a  b\tc ",
        "artemis-sbs sbs_utils v3.9.30b",
        "artemis-sbs LegendaryMissions v3.9.30b zadmiral\r",
        "a\u{a0}b\u{2003}c",
        "\u{feff}a b",
        "one   two\u{85}three\u{3000}four",
    ] {
        let expected: Vec<String> =
            text.split_whitespace().map(|word| word.to_string()).collect();
        assert_eq!(split_words(text), expected, "{:?}", text);
    }
}

#[test]
fn same_text_compares_characters() {
    assert!(same_text("", ""));
    assert!(same_text("mkdocs", "mkdocs"));
    assert!(!same_text("mkdocs", "mkdocs2"));
    assert!(!same_text(".", ".."));
}

#[test]
fn begins_with_dot_looks_at_the_first_character() {
    assert!(begins_with_dot("."));
    assert!(begins_with_dot(".."));
    assert!(begins_with_dot(".git"));
    assert!(!begins_with_dot(""));
    assert!(!begins_with_dot("a.b"));
}

#[test]
fn ends_in_slash_looks_at_the_last_character() {
    assert!(ends_in_slash("/"));
    assert!(ends_in_slash("repo/src/"));
    assert!(!ends_in_slash(""));
    assert!(!ends_in_slash("repo/src"));
    assert!(!ends_in_slash("repo/é"));
}

#[test]
fn chars_of_hands_out_every_character_in_order() {
    assert_eq!(chars_of(""), Vec::<char>::new());
    assert_eq!(chars_of("a/b"), vec!['a', '/', 'b']);
    assert_eq!(chars_of("h\u{e9}\u{3000}!"), vec!['h', '\u{e9}', '\u{3000}', '!']);
}
