use lau_ffi_bindings::error::IntoFfiCode;
use lau_ffi_bindings::{ErrorCode, FfiError, FfiResult};

#[test]
fn test_error_code_roundtrip() {
    assert_eq!(ErrorCode::from_code(0), ErrorCode::Success);
    assert_eq!(ErrorCode::from_code(-1), ErrorCode::NullPointer);
    assert_eq!(ErrorCode::from_code(-2), ErrorCode::InvalidHandle);
    assert_eq!(ErrorCode::from_code(-99), ErrorCode::Unknown);
    assert_eq!(ErrorCode::from_code(-100), ErrorCode::Unknown);
}

#[test]
fn test_error_code_values() {
    assert_eq!(ErrorCode::Success.code(), 0);
    assert_eq!(ErrorCode::NullPointer.code(), -1);
    assert_eq!(ErrorCode::OutOfBounds.code(), -3);
}

#[test]
fn test_ffi_error_creation() {
    let err = FfiError::new(ErrorCode::InvalidArgument, "bad input");
    assert_eq!(err.code(), -4);
    assert_eq!(err.message, "bad input");
}

#[test]
fn test_ffi_error_display() {
    let err = FfiError::new(ErrorCode::OutOfMemory, "oom");
    assert_eq!(err.to_display_string(), "FfiError(-5, oom)");
}

#[test]
fn test_ffi_result_ok() {
    let result: FfiResult<i32> = Ok(42);
    assert_eq!(result.into_code(), 0);
}

#[test]
fn test_ffi_result_err() {
    let result: FfiResult<i32> = Err(FfiError::null_pointer("ptr was null"));
    assert_eq!(result.into_code(), -1);
}

#[test]
fn test_convenience_constructors() {
    let e1 = FfiError::null_pointer("npe");
    assert_eq!(e1.code, ErrorCode::NullPointer);
    let e2 = FfiError::invalid_handle("bad handle");
    assert_eq!(e2.code, ErrorCode::InvalidHandle);
    let e3 = FfiError::out_of_bounds("idx 5");
    assert_eq!(e3.code, ErrorCode::OutOfBounds);
}

#[test]
fn test_error_code_descriptions() {
    assert_eq!(ErrorCode::Success.description(), "Success");
    assert_eq!(ErrorCode::NullPointer.description(), "Null pointer");
}

const ALL_CODES: [ErrorCode; 9] = [
    ErrorCode::Success,
    ErrorCode::NullPointer,
    ErrorCode::InvalidHandle,
    ErrorCode::OutOfBounds,
    ErrorCode::InvalidArgument,
    ErrorCode::OutOfMemory,
    ErrorCode::EncodingError,
    ErrorCode::IOError,
    ErrorCode::Unknown,
];

#[test]
fn every_code_roundtrips_through_its_number() {
    for c in ALL_CODES.iter() {
        assert_eq!(ErrorCode::from_code(c.code()), *c);
    }
}

#[test]
fn every_code_has_its_number_and_description() {
    let expected: [(i32, &str); 9] = [
        (0, "Success"),
        (-1, "Null pointer"),
        (-2, "Invalid handle"),
        (-3, "Out of bounds"),
        (-4, "Invalid argument"),
        (-5, "Out of memory"),
        (-6, "Encoding error"),
        (-7, "I/O error"),
        (-99, "Unknown error"),
    ];
    for i in 0..9 {
        assert_eq!(ALL_CODES[i].code(), expected[i].0);
        assert_eq!(ALL_CODES[i].description(), expected[i].1);
    }
}

#[test]
fn unknown_numbers_become_unknown() {
    assert_eq!(ErrorCode::from_code(1), ErrorCode::Unknown);
    assert_eq!(ErrorCode::from_code(-8), ErrorCode::Unknown);
    assert_eq!(ErrorCode::from_code(i32::MIN), ErrorCode::Unknown);
    assert_eq!(ErrorCode::from_code(i32::MAX), ErrorCode::Unknown);
    assert_eq!(ErrorCode::from_code(-7), ErrorCode::IOError);
}

#[test]
fn display_of_success_and_unknown() {
    let ok = FfiError::new(ErrorCode::Success, "");
    assert_eq!(ok.to_display_string(), "FfiError(0, )");
    let unknown = FfiError::new(ErrorCode::Unknown, "what");
    assert_eq!(unknown.to_display_string(), "FfiError(-99, what)");
}

#[test]
fn err_result_reports_its_code() {
    let result: FfiResult<()> = Err(FfiError::new(ErrorCode::EncodingError, "utf8"));
    assert_eq!(result.into_code(), -6);
}
