use litebox::path::to_c_str;
use litebox::path::CStrBuf;
use litebox::path::ConversionError;

#[test]
fn round_trip_preserves_valid_text() {
    let c = to_c_str("hello/world").unwrap();
    assert_eq!(c.as_rust_str().unwrap(), "hello/world");
}

#[test]
fn round_trip_preserves_unicode_text() {
    let c = to_c_str("p\u{00e4}th/\u{00fc}n\u{012b}code/\u{1f600}").unwrap();
    assert_eq!(c.as_rust_str().unwrap(), "p\u{00e4}th/\u{00fc}n\u{012b}code/\u{1f600}");
}

#[test]
fn round_trip_of_empty_text() {
    let c = to_c_str("").unwrap();
    assert_eq!(c.as_rust_str().unwrap(), "");
    assert_eq!(c.into_bytes_with_nul(), vec![0u8]);
}

#[test]
fn embedded_terminator_fails_c_string_conversion() {
    match to_c_str("a\0b") {
        Err(ConversionError::FailedToConvertTo(what)) => assert_eq!(what, "c string"),
        Ok(_) => panic!("an embedded terminator must be rejected"),
    }
}

#[test]
fn terminator_at_either_end_fails_too() {
    assert!(to_c_str("\0leading").is_err());
    assert!(to_c_str("trailing\0").is_err());
}

#[test]
fn bytes_with_nul_end_with_the_terminator() {
    let c = to_c_str("ab").unwrap();
    assert_eq!(c.into_bytes_with_nul(), vec![b'a', b'b', 0u8]);
}

#[test]
fn from_bytes_accepts_non_text_content() {
    let raw = vec![0xffu8, 0xfe, b'x'];
    let c = CStrBuf::from_bytes(&raw).unwrap();
    assert_eq!(c.into_bytes_with_nul(), vec![0xffu8, 0xfe, b'x', 0u8]);
    match c.as_rust_str() {
        Err(ConversionError::FailedToConvertTo(what)) => assert_eq!(what, "rust string"),
        Ok(_) => panic!("invalid text must be rejected"),
    }
}

#[test]
fn from_bytes_rejects_any_terminator() {
    assert!(CStrBuf::from_bytes(&vec![b'a', 0u8, b'b']).is_err());
    assert!(CStrBuf::from_bytes(&vec![0u8]).is_err());
}

#[test]
fn c_string_to_c_string_borrows() {
    let c = to_c_str("same").unwrap();
    let again = c.to_c_str().unwrap();
    assert_eq!(again.as_rust_str().unwrap(), "same");
}

#[test]
fn lossy_conversion_keeps_valid_text_unchanged() {
    let c = to_c_str("plain").unwrap();
    assert_eq!(c.to_rust_str_lossy(), "plain");
}

#[test]
fn lossy_conversion_substitutes_replacement_characters() {
    let c = CStrBuf::from_bytes(&vec![b'a', 0xff, b'b']).unwrap();
    assert_eq!(c.to_rust_str_lossy(), "a\u{fffd}b");
}

#[test]
fn text_argument_identity_conversions() {
    assert_eq!(litebox::path::as_rust_str("p/q").unwrap(), "p/q");
    assert_eq!(litebox::path::to_rust_str_lossy("p/q"), "p/q");
}
