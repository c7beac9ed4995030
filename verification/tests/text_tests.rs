use lau_ffi_bindings::text::{i32_to_decimal, push_decimal, usize_to_decimal};

#[test]
fn unsigned_decimal() {
    assert_eq!(usize_to_decimal(0), "0");
    assert_eq!(usize_to_decimal(7), "7");
    assert_eq!(usize_to_decimal(10), "10");
    assert_eq!(usize_to_decimal(65536), "65536");
    assert_eq!(usize_to_decimal(usize::MAX), usize::MAX.to_string());
}

#[test]
fn signed_decimal() {
    assert_eq!(i32_to_decimal(0), "0");
    assert_eq!(i32_to_decimal(-5), "-5");
    assert_eq!(i32_to_decimal(-99), "-99");
    assert_eq!(i32_to_decimal(1234), "1234");
    assert_eq!(i32_to_decimal(i32::MIN), "-2147483648");
    assert_eq!(i32_to_decimal(i32::MAX), "2147483647");
}

#[test]
fn push_decimal_appends() {
    let mut s = String::from("n=");
    push_decimal(&mut s, 408);
    assert_eq!(s, "n=408");
}
