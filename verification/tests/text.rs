use desk::decimal::{digits_only, parse_digits};
use desk::text::{
    chars_of, contains, index_of, join, same_text, stands_at, starts_with, string_of, trim,
    white_space,
};

#[test]
fn white_space_is_that_of_unicode() {
    for c in '\0'..=char::MAX {
        assert_eq!(white_space(c), c.is_whitespace(), "{c:?}");
    }
}

#[test]
fn trimming_is_that_of_the_standard_library() {
    for text in ["", " ", " a b\t", "\u{a0}x\u{3000}", "plain", "\n\n", "é "] {
        assert_eq!(trim(text), text.trim());
    }
}

#[test]
fn searching_is_that_of_the_standard_library() {
    for text in ["", "a", "abc", "ababab", "日本語"] {
        for pat in ["", "a", "b", "bab", "abc", "語", "abcd"] {
            assert_eq!(contains(text, pat), text.contains(pat), "{text} {pat}");
            assert_eq!(starts_with(text, pat), text.starts_with(pat), "{text} {pat}");
            assert_eq!(same_text(text, pat), text == pat, "{text} {pat}");
        }
    }
}

#[test]
fn characters_make_a_text_again() {
    let chars = chars_of("a日b");
    assert_eq!(chars, ['a', '日', 'b']);
    assert_eq!(string_of(&chars, 1, 3), "日b");
    assert_eq!(string_of(&chars, 2, 2), "");
    assert_eq!(index_of(&chars, 0, 3, 'b'), 2);
    assert_eq!(index_of(&chars, 0, 2, 'b'), 2);
    assert!(stands_at(&chars, &chars_of("日"), 1));
    assert!(!stands_at(&chars, &chars_of("日"), 9));
    assert_eq!(join(&vec!["x".to_string(), String::new(), "yz".to_string()]), "xyz");
}

#[test]
fn digits_name_a_number() {
    let chars = chars_of("x0042y");
    assert!(digits_only(&chars, 1, 5));
    assert!(!digits_only(&chars, 0, 5));
    assert_eq!(parse_digits(&chars, 1, 5), Some(42));
    let long = chars_of("170141183460469231731687303715884105728");
    assert_eq!(parse_digits(&long, 0, long.len()), None);
    assert_eq!(parse_digits(&long, 0, long.len() - 1), Some(17014118346046923173168730371588410572));
}
