//! Text and path helpers.

use block_storage::paths::{same, starts_with};
use block_storage::text::{
    chars_of, contains, decimal_text, find_text, join, lines, push_base, push_decimal3, split,
    string_of, trim, words,
};

fn texts(pieces: Vec<Vec<char>>) -> Vec<String> {
    pieces.iter().map(|piece| string_of(piece)).collect()
}

#[test]
fn numbers_are_written_as_the_standard_library_writes_them() {
    for number in [0, 9, 10, 4096, 1_000_000_007, u64::MAX] {
        assert_eq!(decimal_text(number), number.to_string());
        let mut text = String::new();
        push_base(&mut text, number, 16, 16);
        assert_eq!(text, format!("{number:016x}"));
        let mut text = String::new();
        push_decimal3(&mut text, number);
        assert_eq!(text, format!("{number:03}"));
    }
    let mut text = String::new();
    push_base(&mut text, 0o640, 8, 4);
    assert_eq!(text, "0640");
}

#[test]
fn lines_and_words_are_split_as_the_standard_library_splits_them() {
    for text in ["", "a", "a\n", "a\r\nb", "\n\n", "a\n\r", " x  y\u{3000}z ", "\tq\n"] {
        let chars = chars_of(text);
        assert_eq!(texts(lines(&chars)), text.lines().collect::<Vec<_>>());
        assert_eq!(
            texts(words(&chars)),
            text.split_whitespace().collect::<Vec<_>>()
        );
        assert_eq!(texts(split(&chars, 'a')), text.split('a').collect::<Vec<_>>());
        assert_eq!(string_of(trim(&chars)), text.trim());
    }
}

#[test]
fn searching_finds_the_first_place() {
    let text = chars_of("abcabc");
    assert_eq!(find_text(&text, &chars_of("ca")), Some(2));
    assert_eq!(find_text(&text, &chars_of("abc")), Some(0));
    assert_eq!(find_text(&text, &chars_of("abd")), None);
    assert!(contains(&text, ""));
    assert!(!contains(&text, "abcabca"));
    assert_eq!(
        join(&vec!["a".to_string(), "b".to_string()], "; "),
        "a; b"
    );
}

#[test]
fn paths_are_compared_by_component() {
    assert!(starts_with("/tmp/a/b", "/tmp/a"));
    assert!(starts_with("/tmp//a/./b", "/tmp/a/"));
    assert!(!starts_with("/tmp/ab", "/tmp/a"));
    assert!(!starts_with("tmp/a", "/tmp"));
    assert!(same("/tmp/a/", "/tmp/./a"));
    assert!(!same("/tmp/a", "/tmp/a/.."));
}
