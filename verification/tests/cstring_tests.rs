use lau_ffi_bindings::SafeCString;

#[test]
fn test_cstring_empty() {
    let s = SafeCString::new("").unwrap();
    assert!(s.is_empty());
    assert_eq!(s.len(), 0);
}

#[test]
fn test_cstring_bytes() {
    let s = SafeCString::new("abc").unwrap();
    assert_eq!(s.as_bytes(), b"abc");
}

#[test]
fn test_cstring_nul_error() {
    let result = SafeCString::new("hello\0world");
    assert!(result.is_err());
}

#[test]
fn test_cstring_display() {
    let s = SafeCString::new("test").unwrap();
    assert_eq!(s.to_display_string(), "test");
}

#[test]
fn test_cstring_clone_equality() {
    let s = SafeCString::new("clone me").unwrap();
    let c = s.clone();
    assert_eq!(s, c);
}

#[test]
fn nul_error_reports_first_nul_and_bytes() {
    let err = SafeCString::new("ab\0c\0").unwrap_err();
    assert_eq!(err.nul_position(), 2);
    assert_eq!(err.into_vec(), b"ab\0c\0".to_vec());
}

#[test]
fn cstring_text_and_multibyte_length() {
    let s = SafeCString::new("héllo").unwrap();
    assert_eq!(s.len(), 6);
    assert_eq!(s.to_string_lossy(), "héllo");
    assert!(!s.is_empty());
}

#[test]
fn cstring_from_bytes_keeps_non_utf8() {
    let s = SafeCString::from_bytes(vec![0x66, 0xff, 0x67]).unwrap();
    assert_eq!(s.as_bytes(), &[0x66, 0xff, 0x67]);
    assert_eq!(s.len(), 3);
    assert_eq!(s.to_string_lossy(), "f\u{FFFD}g");
}

#[test]
fn cstring_from_bytes_rejects_nul() {
    let err = SafeCString::from_bytes(vec![1, 0, 2]).unwrap_err();
    assert_eq!(err.nul_position(), 1);
    assert_eq!(err.into_vec(), vec![1, 0, 2]);
}

#[test]
fn cstring_keeps_its_terminator() {
    let s = SafeCString::new("abc").unwrap();
    assert_eq!(s.as_bytes_with_nul(), b"abc\0");
    let e = SafeCString::new("").unwrap();
    assert_eq!(e.as_bytes_with_nul(), b"\0");
}

#[test]
fn cstring_try_from_str() {
    let s = SafeCString::try_from("hi").unwrap();
    assert_eq!(s.as_bytes(), b"hi");
    assert!(SafeCString::try_from("a\0b").is_err());
}
