//! Error codes and errors that cross FFI boundaries.

use vstd::prelude::*;

use crate::text::{i32_to_decimal, signed_decimal};

verus! {

/// Standard error codes for FFI boundaries.
#[derive(Debug, Clone, Copy, PartialEq, Eq, Structural)]
pub enum ErrorCode {
    Success,
    NullPointer,
    InvalidHandle,
    OutOfBounds,
    InvalidArgument,
    OutOfMemory,
    EncodingError,
    IOError,
    Unknown,
}

/// The numeric value of each error code as C callers see it.
pub open spec fn error_code_value(c: ErrorCode) -> int {
    match c {
        ErrorCode::Success => 0,
        ErrorCode::NullPointer => -1,
        ErrorCode::InvalidHandle => -2,
        ErrorCode::OutOfBounds => -3,
        ErrorCode::InvalidArgument => -4,
        ErrorCode::OutOfMemory => -5,
        ErrorCode::EncodingError => -6,
        ErrorCode::IOError => -7,
        ErrorCode::Unknown => -99,
    }
}

/// The error code a numeric value stands for; every value that names no
/// code (including `-99`) stands for `Unknown`.
pub open spec fn error_code_of(code: i32) -> ErrorCode {
    if code == 0 {
        ErrorCode::Success
    } else if code == -1 {
        ErrorCode::NullPointer
    } else if code == -2 {
        ErrorCode::InvalidHandle
    } else if code == -3 {
        ErrorCode::OutOfBounds
    } else if code == -4 {
        ErrorCode::InvalidArgument
    } else if code == -5 {
        ErrorCode::OutOfMemory
    } else if code == -6 {
        ErrorCode::EncodingError
    } else if code == -7 {
        ErrorCode::IOError
    } else {
        ErrorCode::Unknown
    }
}

/// The values that some error code has.
pub open spec fn is_known_code(code: i32) -> bool {
    code == 0 || (-7 <= code <= -1) || code == -99
}

/// The human-readable description of each error code.
pub open spec fn error_description(c: ErrorCode) -> Seq<char> {
    match c {
        ErrorCode::Success => "Success"@,
        ErrorCode::NullPointer => "Null pointer"@,
        ErrorCode::InvalidHandle => "Invalid handle"@,
        ErrorCode::OutOfBounds => "Out of bounds"@,
        ErrorCode::InvalidArgument => "Invalid argument"@,
        ErrorCode::OutOfMemory => "Out of memory"@,
        ErrorCode::EncodingError => "Encoding error"@,
        ErrorCode::IOError => "I/O error"@,
        ErrorCode::Unknown => "Unknown error"@,
    }
}

impl ErrorCode {
    /// Get the numeric code.
    pub fn code(&self) -> (r: i32)
        ensures
            r == error_code_value(*self),
    {
        match self {
            ErrorCode::Success => 0,
            ErrorCode::NullPointer => -1,
            ErrorCode::InvalidHandle => -2,
            ErrorCode::OutOfBounds => -3,
            ErrorCode::InvalidArgument => -4,
            ErrorCode::OutOfMemory => -5,
            ErrorCode::EncodingError => -6,
            ErrorCode::IOError => -7,
            ErrorCode::Unknown => -99,
        }
    }

    /// Get a human-readable description.
    pub fn description(&self) -> (r: &'static str)
        ensures
            r@ == error_description(*self),
    {
        match self {
            ErrorCode::Success => "Success",
            ErrorCode::NullPointer => "Null pointer",
            ErrorCode::InvalidHandle => "Invalid handle",
            ErrorCode::OutOfBounds => "Out of bounds",
            ErrorCode::InvalidArgument => "Invalid argument",
            ErrorCode::OutOfMemory => "Out of memory",
            ErrorCode::EncodingError => "Encoding error",
            ErrorCode::IOError => "I/O error",
            ErrorCode::Unknown => "Unknown error",
        }
    }

    /// Convert from an i32 code.
    pub fn from_code(code: i32) -> (r: Self)
        ensures
            r == error_code_of(code),
    {
        match code {
            0 => ErrorCode::Success,
            -1 => ErrorCode::NullPointer,
            -2 => ErrorCode::InvalidHandle,
            -3 => ErrorCode::OutOfBounds,
            -4 => ErrorCode::InvalidArgument,
            -5 => ErrorCode::OutOfMemory,
            -6 => ErrorCode::EncodingError,
            -7 => ErrorCode::IOError,
            _ => ErrorCode::Unknown,
        }
    }
}

/// Converting a code to its number and back gives the same code, so no two
/// codes share a number.
pub proof fn law_error_code_roundtrip(c: ErrorCode)
    ensures
        error_code_of(error_code_value(c) as i32) == c,
        is_known_code(error_code_value(c) as i32),
{
}

/// A number converts to a code and back to itself exactly when some code
/// has that number; every other number becomes `Unknown`.
pub proof fn law_from_code_known(code: i32)
    ensures
        error_code_value(error_code_of(code)) == code <==> is_known_code(code),
        !is_known_code(code) ==> error_code_of(code) == ErrorCode::Unknown,
{
}

/// Error type that can cross FFI boundaries.
#[derive(Debug, Clone)]
pub struct FfiError {
    pub code: ErrorCode,
    pub message: String,
}

/// Result type for FFI operations.
pub type FfiResult<T> = Result<T, FfiError>;

impl FfiError {
    pub fn new(code: ErrorCode, message: &str) -> (r: Self)
        ensures
            r.code == code,
            r.message@ == message@,
    {
        FfiError { code, message: String::from_str(message) }
    }

    /// Get the error code.
    pub fn code(&self) -> (r: i32)
        ensures
            r == error_code_value(self.code),
    {
        self.code.code()
    }

    /// Create a null pointer error.
    pub fn null_pointer(msg: &str) -> (r: Self)
        ensures
            r.code == ErrorCode::NullPointer,
            r.message@ == msg@,
    {
        Self::new(ErrorCode::NullPointer, msg)
    }

    /// Create an invalid handle error.
    pub fn invalid_handle(msg: &str) -> (r: Self)
        ensures
            r.code == ErrorCode::InvalidHandle,
            r.message@ == msg@,
    {
        Self::new(ErrorCode::InvalidHandle, msg)
    }

    /// Create an out of bounds error.
    pub fn out_of_bounds(msg: &str) -> (r: Self)
        ensures
            r.code == ErrorCode::OutOfBounds,
            r.message@ == msg@,
    {
        Self::new(ErrorCode::OutOfBounds, msg)
    }

    /// The display form `FfiError(<code>, <message>)`.
    pub fn to_display_string(&self) -> (r: String)
        ensures
            r@ == "FfiError("@ + signed_decimal(error_code_value(self.code)) + ", "@
                + self.message@ + ")"@,
    {
        let mut out = String::from_str("FfiError(");
        let num = i32_to_decimal(self.code.code());
        out.append(num.as_str());
        out.append(", ");
        out.append(self.message.as_str());
        out.append(")");
        out
    }
}

/// Trait for converting results to FFI-compatible error codes.
pub trait IntoFfiCode {
    fn into_code(self) -> i32;
}

impl<T> IntoFfiCode for FfiResult<T> {
    fn into_code(self) -> (r: i32)
        ensures
            r == (match self {
                Ok(_) => error_code_value(ErrorCode::Success),
                Err(e) => error_code_value(e.code),
            }),
    {
        match self {
            Ok(_) => ErrorCode::Success.code(),
            Err(e) => e.code(),
        }
    }
}

} // verus!
