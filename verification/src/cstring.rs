//! C strings: byte strings that are checked for interior NUL bytes when they
//! are made.

use vstd::prelude::*;
use vstd::slice::{slice_subrange, slice_to_vec};
use vstd::utf8::{decode_utf8, encode_utf8, encode_utf8_decode_utf8, encode_utf8_valid_utf8, valid_utf8};

verus! {

/// The error of making a C string from bytes that hold a NUL byte: where the
/// first NUL byte is, and all the bytes.
#[derive(Debug, Clone, PartialEq, Eq)]
pub struct NulError {
    position: usize,
    bytes: Vec<u8>,
}

impl NulError {
    /// The index of the first NUL byte.
    pub closed spec fn position_view(&self) -> usize {
        self.position
    }

    /// The bytes that were rejected.
    pub closed spec fn bytes_view(&self) -> Seq<u8> {
        self.bytes@
    }

    /// The index of the first NUL byte.
    pub fn nul_position(&self) -> (r: usize)
        ensures
            r == self.position_view(),
    {
        self.position
    }

    /// The bytes that were rejected.
    pub fn into_vec(self) -> (r: Vec<u8>)
        ensures
            r@ == self.bytes_view(),
    {
        self.bytes
    }
}

/// `e` reports `bytes`: its position is that of the first NUL byte in them.
pub open spec fn reports_first_nul(e: NulError, bytes: Seq<u8>) -> bool {
    &&& e.position_view() < bytes.len()
    &&& bytes[e.position_view() as int] == 0
    &&& forall|j: int| 0 <= j < e.position_view() ==> bytes[j] != 0
    &&& e.bytes_view() == bytes
}

/// The text that lossy UTF-8 decoding gives for `bytes`: each invalid
/// sequence becomes U+FFFD.
pub uninterp spec fn lossy_utf8(bytes: Seq<u8>) -> Seq<char>;

/// Calls `String::from_utf8_lossy` (and takes the owned string). Trusted, not
/// proved: the result is `lossy_utf8` of the bytes, and for valid UTF-8 it is
/// the decoded text itself. Which replacement characters stand for invalid
/// sequences is left to the name.
#[verifier::external_body]
fn utf8_lossy(bytes: &[u8]) -> (r: String)
    ensures
        r@ == lossy_utf8(bytes@),
        valid_utf8(bytes@) ==> r@ == decode_utf8(bytes@),
{
    String::from_utf8_lossy(bytes).into_owned()
}

/// The index of the first NUL byte, if any.
fn first_nul(bytes: &[u8]) -> (r: Option<usize>)
    ensures
        match r {
            Some(p) => p < bytes@.len() && bytes@[p as int] == 0 && forall|j: int|
                0 <= j < p ==> bytes@[j] != 0,
            None => !bytes@.contains(0u8),
        },
{
    let n = bytes.len();
    let mut i: usize = 0;
    while i < n
        invariant
            n == bytes@.len(),
            0 <= i <= n,
            forall|j: int| 0 <= j < i ==> bytes@[j] != 0,
        decreases n - i,
    {
        if bytes[i] == 0 {
            return Some(i);
        }
        i = i + 1;
    }
    proof {
        if bytes@.contains(0u8) {
            let k = choose|k: int| 0 <= k < bytes@.len() && bytes@[k] == 0u8;
            assert(bytes@[k] != 0);
        }
    }
    None
}

/// A byte string that holds no NUL byte, kept with a NUL terminator after
/// it, so that it can be handed to C as a NUL-terminated string in place.
#[derive(Debug, PartialEq, Eq)]
pub struct SafeCString {
    inner: Vec<u8>,
}

impl View for SafeCString {
    type V = Seq<u8>;

    /// The bytes, without the terminator.
    closed spec fn view(&self) -> Seq<u8> {
        self.inner@.drop_last()
    }
}

/// `bytes` followed by a NUL terminator.
pub open spec fn with_nul(bytes: Seq<u8>) -> Seq<u8> {
    bytes.push(0u8)
}

/// Append a NUL terminator to `bytes`.
fn push_nul(bytes: &mut Vec<u8>)
    ensures
        final(bytes)@ == with_nul(old(bytes)@),
{
    bytes.push(0u8);
}

impl Clone for SafeCString {
    fn clone(&self) -> (r: Self)
        ensures
            r@ == self@,
    {
        proof {
            use_type_invariant(self);
        }
        SafeCString { inner: slice_to_vec(self.inner.as_slice()) }
    }
}

/// The UTF-8 bytes of `text` hold no NUL byte.
pub open spec fn nul_free(text: Seq<char>) -> bool {
    !encode_utf8(text).contains(0u8)
}

/// The bytes of a text are valid UTF-8 and decode back to the text, so a C
/// string made from a Rust string reads back as that string.
pub proof fn law_text_roundtrip(text: Seq<char>)
    ensures
        valid_utf8(encode_utf8(text)),
        decode_utf8(encode_utf8(text)) == text,
{
    encode_utf8_valid_utf8(text);
    encode_utf8_decode_utf8(text);
}

impl SafeCString {
    /// The stored bytes end in the one NUL terminator and hold no other NUL.
    #[verifier::type_invariant]
    spec fn nul_terminated(self) -> bool {
        &&& self.inner@.len() >= 1
        &&& self.inner@.last() == 0u8
        &&& !self.inner@.drop_last().contains(0u8)
    }

    fn from_nul_free(mut bytes: Vec<u8>) -> (r: Self)
        requires
            !bytes@.contains(0u8),
        ensures
            r@ == bytes@,
    {
        let ghost b = bytes@;
        push_nul(&mut bytes);
        proof {
            assert(bytes@.drop_last() =~= b);
        }
        SafeCString { inner: bytes }
    }

    /// Create from a Rust string: its UTF-8 bytes; fails exactly when they
    /// hold a NUL byte, reporting the first one.
    pub fn new(s: &str) -> (r: Result<Self, NulError>)
        ensures
            match r {
                Ok(c) => nul_free(s@) && c@ == encode_utf8(s@),
                Err(e) => reports_first_nul(e, encode_utf8(s@)),
            },
    {
        let bytes = s.as_bytes();
        match first_nul(bytes) {
            Some(p) => Err(NulError { position: p, bytes: slice_to_vec(bytes) }),
            None => Ok(Self::from_nul_free(slice_to_vec(bytes))),
        }
    }

    /// Create from bytes; fails exactly when they hold a NUL byte, reporting
    /// the first one.
    pub fn from_bytes(bytes: Vec<u8>) -> (r: Result<Self, NulError>)
        ensures
            match r {
                Ok(c) => !bytes@.contains(0u8) && c@ == bytes@,
                Err(e) => reports_first_nul(e, bytes@),
            },
    {
        match first_nul(bytes.as_slice()) {
            Some(p) => Err(NulError { position: p, bytes }),
            None => Ok(Self::from_nul_free(bytes)),
        }
    }

    /// The bytes (excluding the null terminator); none of them is NUL.
    pub fn as_bytes(&self) -> (r: &[u8])
        ensures
            r@ == self@,
            !r@.contains(0u8),
    {
        proof {
            use_type_invariant(self);
        }
        let all = self.inner.as_slice();
        slice_subrange(all, 0, all.len() - 1)
    }

    /// The bytes followed by the NUL terminator: the stored C string itself,
    /// which stays in place while `self` lives.
    pub fn as_bytes_with_nul(&self) -> (r: &[u8])
        ensures
            r@ == with_nul(self@),
            !self@.contains(0u8),
    {
        proof {
            use_type_invariant(self);
            assert(self.inner@ =~= self.inner@.drop_last().push(0u8));
        }
        self.inner.as_slice()
    }

    /// The bytes as text, with each invalid UTF-8 sequence replaced by U+FFFD.
    pub fn to_string_lossy(&self) -> (r: String)
        ensures
            r@ == lossy_utf8(self@),
            valid_utf8(self@) ==> r@ == decode_utf8(self@),
    {
        utf8_lossy(self.as_bytes())
    }

    /// The display form: the bytes as text, as `to_string_lossy` gives it.
    pub fn to_display_string(&self) -> (r: String)
        ensures
            r@ == lossy_utf8(self@),
            valid_utf8(self@) ==> r@ == decode_utf8(self@),
    {
        self.to_string_lossy()
    }

    /// Get the byte length (excluding null terminator).
    pub fn len(&self) -> (r: usize)
        ensures
            r == self@.len(),
    {
        proof {
            use_type_invariant(self);
        }
        self.inner.len() - 1
    }

    /// Check if empty.
    pub fn is_empty(&self) -> (r: bool)
        ensures
            r == (self@.len() == 0),
    {
        proof {
            use_type_invariant(self);
        }
        self.inner.len() == 1
    }
}

impl<'a> TryFrom<&'a str> for SafeCString {
    type Error = NulError;

    /// As `SafeCString::new`.
    fn try_from(s: &'a str) -> (r: Result<Self, NulError>)
        ensures
            match r {
                Ok(c) => nul_free(s@) && c@ == encode_utf8(s@),
                Err(e) => reports_first_nul(e, encode_utf8(s@)),
            },
    {
        Self::new(s)
    }
}

impl<'a> vstd::std_specs::convert::TryFromSpecImpl<&'a str> for SafeCString {
    /// The result is given by the `ensures` of `try_from` itself.
    open spec fn obeys_try_from_spec() -> bool {
        false
    }

    closed spec fn try_from_spec(s: &'a str) -> Result<Self, NulError> {
        arbitrary()
    }
}

} // verus!
