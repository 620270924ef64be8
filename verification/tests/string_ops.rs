use arrayvec::ArrayString;

#[test]
fn new_string_is_empty() {
    let s = ArrayString::new(8);
    assert!(s.is_empty());
    assert_eq!(s.len(), 0);
    assert_eq!(s.capacity(), 8);
    assert_eq!(s.as_str(), "");
}

#[test]
fn push_str_appends_exactly() {
    let mut s = ArrayString::new(16);
    assert!(s.push_str("ab").is_ok());
    assert!(s.push_str("cd").is_ok());
    assert_eq!(s.as_str(), "abcd");
    assert_eq!(s.len(), 4);
}

#[test]
fn push_str_over_capacity_is_all_or_nothing() {
    let mut s = ArrayString::new(4);
    assert!(s.push_str("ab").is_ok());
    assert!(s.push_str("cde").is_err());
    assert_eq!(s.as_str(), "ab");
    assert_eq!(s.len(), 2);
    assert!(s.push_str("cd").is_ok());
    assert_eq!(s.as_str(), "abcd");
    assert!(s.push_str("e").is_err());
    assert_eq!(s.as_str(), "abcd");
}

#[test]
fn push_char_encodes_whole_characters() {
    let mut s = ArrayString::new(10);
    assert!(s.push_char('h').is_ok());
    assert_eq!(s.len(), 1);
    assert!(s.push_char('\u{e9}').is_ok());
    assert_eq!(s.len(), 3);
    assert!(s.push_char('\u{20ac}').is_ok());
    assert_eq!(s.len(), 6);
    assert!(s.push_char('\u{1f980}').is_ok());
    assert_eq!(s.len(), 10);
    assert_eq!(s.as_str(), "h\u{e9}\u{20ac}\u{1f980}");
}

#[test]
fn push_char_over_capacity_hands_character_back() {
    let mut s = ArrayString::new(3);
    let err = s.push_char('\u{1f980}').unwrap_err();
    assert_eq!(err.element(), '\u{1f980}');
    assert!(s.is_empty());
    assert_eq!(s.as_str(), "");
}

#[test]
fn as_bytes_is_the_utf8_encoding() {
    let mut s = ArrayString::new(8);
    assert!(s.push_str("h\u{e9}").is_ok());
    assert_eq!(s.as_bytes(), &[0x68, 0xC3, 0xA9]);
}

#[test]
fn char_boundaries_of_multibyte_text() {
    let mut s = ArrayString::new(8);
    assert!(s.push_str("h\u{e9}llo").is_ok());
    assert_eq!(s.len(), 6);
    assert!(s.is_char_boundary(0));
    assert!(s.is_char_boundary(1));
    assert!(!s.is_char_boundary(2));
    assert!(s.is_char_boundary(3));
    assert!(s.is_char_boundary(6));
    assert!(!s.is_char_boundary(7));
}

#[test]
fn truncate_on_boundary_keeps_prefix() {
    let mut s = ArrayString::new(8);
    assert!(s.push_str("h\u{e9}llo").is_ok());
    s.truncate(3);
    assert_eq!(s.as_str(), "h\u{e9}");
    assert_eq!(s.len(), 3);
    s.truncate(3);
    assert_eq!(s.as_str(), "h\u{e9}");
    s.truncate(1);
    assert_eq!(s.as_str(), "h");
}

#[test]
fn truncate_beyond_len_is_a_noop() {
    let mut s = ArrayString::new(8);
    assert!(s.push_str("abc").is_ok());
    s.truncate(7);
    assert_eq!(s.as_str(), "abc");
}

#[test]
fn scenario_string_capacity_eight() {
    let mut s = ArrayString::new(8);
    assert!(s.push_str("h\u{e9}llo").is_ok());
    assert_eq!(s.len(), 6);
    // byte 2 splits the two-byte encoding of '\u{e9}', so a truncation
    // there is refused by the boundary check; bytes 1 and 3 are sound.
    assert!(!s.is_char_boundary(2));
    assert!(s.is_char_boundary(1));
    assert!(s.is_char_boundary(3));
    s.truncate(3);
    assert_eq!(s.as_str(), "h\u{e9}");
    s.truncate(1);
    assert_eq!(s.as_str(), "h");
    assert_eq!(s.capacity(), 8);
}

#[test]
fn from_str_within_capacity() {
    let s = ArrayString::from_str(8, "h\u{e9}llo").unwrap();
    assert_eq!(s.as_str(), "h\u{e9}llo");
    assert_eq!(s.capacity(), 8);
    assert_eq!(s.len(), 6);
}

#[test]
fn from_str_over_capacity_fails() {
    assert!(ArrayString::from_str(5, "h\u{e9}llo").is_err());
    assert!(ArrayString::from_str(0, "").is_ok());
}

#[test]
fn from_bytes_accepts_valid_utf8() {
    let s = ArrayString::from_bytes(8, vec![0x68, 0xC3, 0xA9]).unwrap();
    assert_eq!(s.as_str(), "h\u{e9}");
    assert_eq!(s.capacity(), 8);
}

#[test]
fn from_bytes_rejects_invalid_utf8() {
    // a stray continuation byte
    assert_eq!(ArrayString::from_bytes(8, vec![0x80]).unwrap_err(), vec![0x80]);
    // a leading byte with its continuation cut off
    assert_eq!(ArrayString::from_bytes(8, vec![0xC3]).unwrap_err(), vec![0xC3]);
    // an overlong two-byte encoding of an ASCII value
    assert_eq!(ArrayString::from_bytes(8, vec![0xC0, 0x80]).unwrap_err(), vec![0xC0, 0x80]);
    // a surrogate codepoint
    assert_eq!(
        ArrayString::from_bytes(8, vec![0xED, 0xA0, 0x80]).unwrap_err(),
        vec![0xED, 0xA0, 0x80]
    );
    // a codepoint beyond the Unicode range
    assert_eq!(
        ArrayString::from_bytes(8, vec![0xF5, 0x80, 0x80, 0x80]).unwrap_err(),
        vec![0xF5, 0x80, 0x80, 0x80]
    );
}

#[test]
fn from_bytes_rejects_over_capacity() {
    let bytes = vec![0x61, 0x62, 0x63];
    assert_eq!(ArrayString::from_bytes(2, bytes.clone()).unwrap_err(), bytes);
}

#[test]
fn bytes_round_trip_through_from_bytes() {
    let mut s = ArrayString::new(8);
    assert!(s.push_str("h\u{e9}l").is_ok());
    let copy = ArrayString::from_bytes(8, s.as_bytes().to_vec()).unwrap();
    assert_eq!(copy.as_str(), "h\u{e9}l");
}
