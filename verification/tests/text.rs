use fluxchat::text::{is_white_space, same_text, split_words, starts_with, ParseArguments};

#[test]
fn white_space_is_that_of_unicode() {
    for code in 0..=0x10ffffu32 {
        if let Some(c) = char::from_u32(code) {
            assert_eq!(is_white_space(c), c.is_whitespace(), "{code:x}");
        }
    }
}

#[test]
fn words_are_those_of_std() {
    let cases = [
        "",
        " ",
        "one",
        " one",
        "one ",
        "one two",
        "  one \t two\n\nthree ",
        "a\u{a0}b\u{3000}c",
        "\u{2003}\u{e9}t\u{e9} \u{1f600}",
        "!chat create -A",
    ];
    for case in cases {
        let expected: Vec<String> = case.split_whitespace().map(str::to_string).collect();
        assert_eq!(split_words(case), expected, "{case:?}");
    }
}

#[test]
fn words_keep_the_characters() {
    let text = " ab\tc  d\n";
    assert_eq!(split_words(text).concat(), "abcd");
    assert!(split_words(text).iter().all(|w| !w.is_empty()));
}

#[test]
fn white_space_separates() {
    let mut expected = split_words("one two");
    expected.extend(split_words("three"));
    assert_eq!(split_words("one two\u{2028}three"), expected);
    assert_eq!(split_words("one two three").len(), 3);
}

#[test]
fn args_need_a_space() {
    assert_eq!("!chat".to_string().args(), None);
    assert_eq!("".to_string().args(), None);
    assert_eq!("!chat\tcreate".to_string().args(), None);
    assert_eq!("!chat\u{a0}create".to_string().args(), None);
    assert_eq!(
        "!chat create".to_string().args(),
        Some(vec!["!chat".to_string(), "create".to_string()])
    );
    assert_eq!(
        "!chat\tcreate -A".to_string().args(),
        Some(vec!["!chat".to_string(), "create".to_string(), "-A".to_string()])
    );
    assert_eq!(" ".to_string().args(), Some(vec![]));
}

#[test]
fn prefixes() {
    assert!(starts_with("!helpful", "!help"));
    assert!(starts_with("!help", "!help"));
    assert!(starts_with("anything", ""));
    assert!(!starts_with("!hel", "!help"));
    assert!(!starts_with(" !help", "!help"));
    assert!(starts_with("\u{e9}t\u{e9}", "\u{e9}t"));
}

#[test]
fn texts_are_compared_by_character() {
    assert!(same_text("", ""));
    assert!(same_text("abc", "abc"));
    assert!(!same_text("abc", "ABC"));
    assert!(!same_text("abc", "abcd"));
}
