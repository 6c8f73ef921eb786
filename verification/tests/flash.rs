use desk::flash::{flash, pct_decode, pct_encode, take_flash, FLASH_COOKIE, FLASH_PATH};

#[test]
fn letters_and_digits_stand_for_themselves() {
    assert_eq!(pct_encode("aZ09"), "aZ09");
    assert_eq!(pct_encode("a b"), "a%20b");
    assert_eq!(pct_encode("100%"), "100%25");
    assert_eq!(pct_encode("é—"), "%C3%A9%E2%80%94");
    assert_eq!(pct_encode(""), "");
}

#[test]
fn decoding_undoes_encoding() {
    for text in ["", "plain", "a=b; c\r\n", "Your session has expired — please", "%41", "日本"] {
        let value = pct_encode(text);
        assert!(value.bytes().all(|b| b.is_ascii_alphanumeric() || b == b'%'));
        assert_eq!(pct_decode(&value), text);
    }
}

#[test]
fn two_messages_have_two_encoded_forms() {
    assert_ne!(pct_encode("a b"), pct_encode("a%20b"));
}

#[test]
fn a_percent_that_names_no_byte_is_kept() {
    assert_eq!(pct_decode("%"), "%");
    assert_eq!(pct_decode("%4"), "%4");
    assert_eq!(pct_decode("%4g"), "%4g");
    assert_eq!(pct_decode("%zz%41"), "%zzA");
    assert_eq!(pct_decode("%c3%A9"), "é");
    assert_eq!(pct_decode("%-1"), "%-1");
}

#[test]
fn a_plus_and_a_digit_name_a_byte_too() {
    assert_eq!(pct_decode("%+A"), "\n");
}

#[test]
fn invalid_bytes_become_replacement_characters() {
    assert_eq!(pct_decode("%FFok"), "\u{fffd}ok");
    assert_eq!(pct_decode("%C3"), "\u{fffd}");
}

#[test]
fn a_flash_is_shown_once_and_cleared() {
    assert_eq!(FLASH_COOKIE, "frust_flash");
    assert_eq!(FLASH_PATH, "/");
    let taken = take_flash(Some(&flash("Saved, twice.")));
    assert_eq!(taken.message.as_deref(), Some("Saved, twice."));
    assert!(taken.clear);
}

#[test]
fn an_empty_flash_is_cleared_and_not_shown() {
    let taken = take_flash(Some(""));
    assert_eq!(taken.message, None);
    assert!(taken.clear);
}

#[test]
fn without_a_cookie_there_is_nothing_to_clear() {
    let taken = take_flash(None);
    assert_eq!(taken.message, None);
    assert!(!taken.clear);
}
