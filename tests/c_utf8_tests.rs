use std::collections::hash_map::DefaultHasher;
use std::hash::{Hash, Hasher};

use c_utf8::internal::{check_no_nul, has_no_nul};
use c_utf8::{CUtf8, CUtf8Buf, Error, IsNulTerminated, Utf8Error};

fn hash_of<T: Hash>(value: &T) -> u64 {
    let mut hasher = DefaultHasher::new();
    value.hash(&mut hasher);
    hasher.finish()
}

#[test]
fn from_bytes_accepts_terminated_utf8() {
    let bytes = "abcdéfghîjklmnöpqrstúvwxÿz\0".as_bytes();
    let c = CUtf8::from_bytes(bytes).unwrap();
    assert_eq!(c.as_bytes_with_nul(), bytes);
    assert_eq!(c.as_str(), "abcdéfghîjklmnöpqrstúvwxÿz");
    assert_eq!(c.as_str_with_nul(), "abcdéfghîjklmnöpqrstúvwxÿz\0");
}

#[test]
fn from_bytes_terminator_alone_is_empty_text() {
    let c = CUtf8::from_bytes(&[0]).unwrap();
    assert!(c.is_empty());
    assert_eq!(c.len(), 0);
    assert_eq!(c.len_with_nul(), 1);
    assert_eq!(c.as_str(), "");
}

#[test]
fn from_bytes_rejects_empty_input() {
    assert_eq!(CUtf8::from_bytes(&[]), Err(Error::Nul));
}

#[test]
fn from_bytes_rejects_missing_terminator() {
    assert_eq!(CUtf8::from_bytes(b"abc"), Err(Error::Nul));
}

#[test]
fn from_bytes_rejects_interior_nul() {
    assert_eq!(CUtf8::from_bytes(&[b'a', b'b', 0, b'c', 0]), Err(Error::Nul));
}

#[test]
fn from_bytes_rejects_invalid_continuation() {
    let bytes = [b'a', 0x80, b'b', 0];
    match CUtf8::from_bytes(&bytes) {
        Err(Error::Utf8(e)) => assert_eq!(e.valid_up_to(), 1),
        other => panic!("unexpected result {:?}", other),
    }
    assert_eq!(std::str::from_utf8(&bytes).unwrap_err().valid_up_to(), 1);
}

#[test]
fn from_bytes_reports_first_invalid_byte() {
    let bytes = [b'o', b'k', 0xC3, 0x28, 0];
    assert_eq!(
        CUtf8::from_bytes(&bytes),
        Err(Error::Utf8(Utf8Error { valid_up_to: 2, error_len: Some(1) }))
    );
    assert_eq!(CUtf8::from_bytes(&[0xFF, 0]), Err(Error::Utf8(Utf8Error { valid_up_to: 0, error_len: Some(1) })));
}

#[test]
fn from_bytes_misplaced_nul_wins_over_encoding() {
    assert_eq!(CUtf8::from_bytes(&[0xFF, 0, b'a']), Err(Error::Nul));
}

#[test]
fn from_str_requires_single_trailing_nul() {
    assert_eq!(CUtf8::from_str("abc\0").unwrap().as_str(), "abc");
    assert_eq!(CUtf8::from_str("abc"), Err(Error::Nul));
    assert_eq!(CUtf8::from_str(""), Err(Error::Nul));
    assert_eq!(CUtf8::from_str("a\0b\0"), Err(Error::Nul));
}

#[test]
fn byte_views_differ_by_terminator() {
    let c = CUtf8::from_str("naïve ☃\0").unwrap();
    let with_nul = c.as_bytes_with_nul();
    let without = c.as_bytes();
    assert_eq!(with_nul.len(), without.len() + 1);
    assert_eq!(*with_nul.last().unwrap(), 0);
    assert_eq!(&with_nul[..without.len()], without);
    assert_eq!(without, "naïve ☃".as_bytes());
    assert_eq!(c.len(), without.len());
    assert_eq!(c.len_with_nul(), with_nul.len());
    assert!(!c.as_str().contains('\0'));
    assert!(!c.is_empty());
}

#[test]
fn from_str_unchecked_views_text() {
    let c = CUtf8::from_str_unchecked("hey\0");
    assert_eq!(c.as_bytes_with_nul(), b"hey\0");
}

#[test]
fn round_trip_through_owned_buffer() {
    for s in ["", "abc", "héllo wörld", "☃☃"] {
        let buf = CUtf8Buf::from_string(String::from(s));
        assert_eq!(buf.into_string(), s);
    }
}

#[test]
fn from_string_appends_terminator() {
    let buf = CUtf8Buf::from_string(String::from("abc"));
    assert_eq!(buf.as_c_utf8().as_bytes_with_nul(), b"abc\0");
    assert_eq!(buf.into_string_with_nul(), "abc\0");
}

#[test]
fn from_string_keeps_existing_terminator() {
    let buf = CUtf8Buf::from_string(String::from("abc\0"));
    assert_eq!(buf.as_c_utf8().len_with_nul(), 4);
    assert_eq!(buf.as_c_utf8().len(), 3);
    assert_eq!(buf.into_string_with_nul(), "abc\0");
}

#[test]
fn from_string_unchecked_takes_storage() {
    let buf = CUtf8Buf::from_string_unchecked(String::from("xy\0"));
    assert_eq!(buf.into_string(), "xy");
}

#[test]
fn owned_equals_borrowed() {
    let owned = CUtf8Buf::from_string(String::from("abc"));
    let borrowed = CUtf8::from_str("abc\0").unwrap();
    assert!(owned == borrowed);
    assert!(borrowed == owned);
    assert!(owned == CUtf8Buf::from_string(String::from("abc\0")));
    assert!(borrowed == CUtf8::from_bytes(b"abc\0").unwrap());
    assert_eq!(hash_of(&owned), hash_of(&borrowed));
    assert_eq!(hash_of(&owned), hash_of(&CUtf8Buf::from_string(String::from("abc\0"))));
}

#[test]
fn different_texts_are_unequal() {
    let owned = CUtf8Buf::from_string(String::from("abc"));
    let other = CUtf8::from_str("abd\0").unwrap();
    assert!(owned != other);
    assert!(other != owned);
    assert!(owned != CUtf8Buf::from_string(String::from("ab")));
    assert!(CUtf8::from_str("ab\0").unwrap() != other);
}

#[test]
fn ordering_follows_text() {
    let a = CUtf8Buf::from_string(String::from("abc"));
    let b = CUtf8Buf::from_string(String::from("abcd"));
    let c = CUtf8Buf::from_string(String::from("abd"));
    assert!(a < b);
    assert!(b < c);
    assert!(CUtf8::from_str("abc\0").unwrap() < CUtf8::from_str("abcd\0").unwrap());
}

#[test]
fn append_builds_hello_world() {
    let mut buf = CUtf8Buf::new();
    buf.push_str("Hello ");
    buf.push_str("World");
    assert_eq!(buf.as_c_utf8().as_str(), "Hello World");
    assert_eq!(buf.as_c_utf8().as_bytes_with_nul(), b"Hello World\0");
}

#[test]
fn push_appends_characters() {
    let mut buf = CUtf8Buf::from_string(String::from("ab"));
    buf.push('c');
    buf.push('é');
    buf.push('☃');
    assert_eq!(buf.as_c_utf8().as_str_with_nul(), "abcé☃\0");
    assert_eq!(buf.into_bytes_with_nul(), "abcé☃\0".as_bytes().to_vec());
}

#[test]
fn empty_buffer_boundary() {
    let buf = CUtf8Buf::new();
    let view = buf.as_c_utf8();
    assert_eq!(view.len(), 0);
    assert_eq!(view.len_with_nul(), 1);
    assert!(view.is_empty());
    assert_eq!(view.as_bytes_with_nul(), &[0]);
    assert!(CUtf8Buf::default() == buf);
}

#[test]
fn collect_fragments() {
    let strings = vec!["Hello ", "there, ", "fellow ", "human!"];
    let joined = CUtf8Buf::from_strs(&strings);
    assert_eq!(joined.as_c_utf8().as_bytes_with_nul(), b"Hello there, fellow human!\0");
}

#[test]
fn collect_no_fragments() {
    let joined = CUtf8Buf::from_strs(&[]);
    assert_eq!(joined.as_c_utf8().as_bytes_with_nul(), b"\0");
}

#[test]
fn into_bytes_drops_terminator() {
    let buf = CUtf8Buf::from_string(String::from("hé"));
    assert_eq!(buf.clone().into_bytes(), vec![b'h', 0xC3, 0xA9]);
    assert_eq!(buf.into_bytes_with_nul(), vec![b'h', 0xC3, 0xA9, 0]);
}

#[test]
fn to_owned_copies_view() {
    let view = CUtf8::from_str("copy me\0").unwrap();
    let owned = view.to_owned();
    assert!(owned == view);
    assert_eq!(owned.into_string(), "copy me");
}

#[test]
fn clone_keeps_text() {
    let buf = CUtf8Buf::from_string(String::from("twin"));
    let copy = buf.clone();
    assert!(copy == buf);
    assert_eq!(copy.into_string(), "twin");
}

#[test]
fn nul_terminated_checks() {
    assert!("abc\0".is_nul_terminated());
    assert!(!"abc".is_nul_terminated());
    assert!(!"".is_nul_terminated());
    assert!(b"abc\0"[..].is_nul_terminated());
    assert!(!b"abc"[..].is_nul_terminated());
    assert!([1u8, 0].is_nul_terminated());
    assert!(![0u8, 1].is_nul_terminated());
    let empty: [u8; 0] = [];
    assert!(!empty.is_nul_terminated());
}

#[test]
fn literal_check_rejects_nul() {
    check_no_nul("Heyo!");
    check_no_nul("");
    check_no_nul("naïve ☃");
}

#[test]
fn literal_scan_finds_nul() {
    assert!(has_no_nul("Heyo!"));
    assert!(has_no_nul(""));
    assert!(has_no_nul("naïve ☃"));
    assert!(!has_no_nul("Null\0in the middle"));
    assert!(!has_no_nul("end\0"));
}

#[test]
fn error_conversions() {
    let e = Utf8Error { valid_up_to: 3, error_len: None };
    assert_eq!(Error::from(e), Error::Utf8(e));
    assert_eq!(Error::from(e).utf8_error(), Some(e));
    assert_eq!(Error::Nul.utf8_error(), None);
}

#[test]
fn error_messages() {
    assert_eq!(Error::Nul.message(), "Missing nul byte at the end of the string");
    assert_eq!(
        Error::Utf8(Utf8Error { valid_up_to: 0, error_len: Some(1) }).message(),
        "invalid utf-8 sequence of 1 bytes from index 0"
    );
    assert_eq!(
        Error::Utf8(Utf8Error { valid_up_to: 1207, error_len: Some(3) }).message(),
        "invalid utf-8 sequence of 3 bytes from index 1207"
    );
    assert_eq!(
        Error::Utf8(Utf8Error { valid_up_to: 40, error_len: None }).message(),
        "incomplete utf-8 byte sequence from index 40"
    );
}

#[test]
fn error_message_matches_decoding_error() {
    for bytes in [
        &[b'a', b'b', 0x80, 0][..],
        &[b'x', b'y', b'z', 0xE2, 0x28, 0xA1, 0][..],
        &[0xE2, 0x82, 0][..],
        &[0xF0, 0x9F, 0x98, 0x28, 0][..],
        &[0xED, 0xA0, 0x80, 0][..],
    ] {
        let err = CUtf8::from_bytes(bytes).unwrap_err();
        let std_err = std::str::from_utf8(bytes).unwrap_err();
        assert_eq!(err.message(), format!("{}", std_err));
        let e = err.utf8_error().unwrap();
        assert_eq!(e.valid_up_to(), std_err.valid_up_to());
        assert_eq!(e.error_len().map(usize::from), std_err.error_len());
    }
    let err = CUtf8::from_bytes(&[b'a', b'b', 0x80, 0]).unwrap_err();
    assert_eq!(err.message(), "invalid utf-8 sequence of 1 bytes from index 2");
}

#[test]
fn incomplete_sequence_before_terminator() {
    let err = CUtf8::from_bytes(&[b'a', 0xE2, 0x82, 0]).unwrap_err();
    assert_eq!(err, Error::Utf8(Utf8Error { valid_up_to: 1, error_len: Some(2) }));
    assert_eq!(err.message(), "invalid utf-8 sequence of 2 bytes from index 1");
}

#[test]
fn from_bytes_unchecked_views_bytes() {
    let c = CUtf8::from_bytes_unchecked("héllo\0".as_bytes());
    assert_eq!(c.as_str(), "héllo");
    assert_eq!(c.len_with_nul(), 7);
}

#[test]
fn conversions_into_plain_values() {
    let buf = CUtf8Buf::from_string(String::from("hé"));
    let text: String = String::from(buf.clone());
    assert_eq!(text, "hé");
    let bytes: Vec<u8> = buf.into();
    assert_eq!(bytes, vec![b'h', 0xC3, 0xA9]);
    let view = CUtf8::from_str("view\0").unwrap();
    let owned = CUtf8Buf::from(view);
    assert!(owned == view);
    assert_eq!(owned.into_string_with_nul(), "view\0");
}

#[test]
fn collect_keeps_trailing_terminator() {
    let joined = CUtf8Buf::from_strs(&["ab", "c\0"]);
    assert_eq!(joined.as_c_utf8().len_with_nul(), 4);
    assert_eq!(joined.into_string_with_nul(), "abc\0");
}
