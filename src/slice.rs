//! Byte slices exchanged with the engine: a borrowed view that may be null
//! (absent, which differs from empty), and an owned result buffer that is
//! released exactly once, by being consumed.
use vstd::prelude::*;
use vstd::utf8::{encode_utf8, valid_utf8};
use vstd::string::StringSliceAdditionalSpecFns;

verus! {

/// Relies on `std::str::from_utf8`: it accepts exactly the byte strings that
/// are valid UTF-8, and gives the text that those bytes encode.
#[verifier::external_body]
fn utf8_text(b: &[u8]) -> (r: Option<&str>)
    ensures
        r is Some <==> valid_utf8(b@),
        r matches Some(s) ==> s.spec_bytes() == b@,
{
    std::str::from_utf8(b).ok()
}

/// A non-owning view of bytes, valid for as long as what it borrows from;
/// `None` is the null slice.
#[derive(Clone, Copy, Debug)]
pub struct FLSlice<'a> {
    pub buf: Option<&'a [u8]>,
}

/// The null slice.
pub fn null_slice<'a>() -> (r: FLSlice<'a>)
    ensures
        r.buf is None,
{
    FLSlice { buf: None }
}

/// A slice over the bytes of a string.
pub fn as_slice<'a>(s: &'a str) -> (r: FLSlice<'a>)
    ensures
        r.buf matches Some(b) && b@ == s.spec_bytes(),
{
    FLSlice { buf: Some(s.as_bytes()) }
}

/// A slice over a byte string.
pub fn bytes_as_slice<'a>(s: &'a [u8]) -> (r: FLSlice<'a>)
    ensures
        r.buf matches Some(b) && b@ == s@,
{
    FLSlice { buf: Some(s) }
}

impl<'a> FLSlice<'a> {
    /// True for the null slice.
    pub fn is_null(&self) -> (r: bool)
        ensures
            r == (self.buf is None),
    {
        self.buf.is_none()
    }

    /// The bytes; `None` for the null slice.
    pub fn as_byte_array(&self) -> (r: Option<&'a [u8]>)
        ensures
            r == self.buf,
    {
        self.buf
    }

    /// The bytes as text; `None` for the null slice and for bytes that are
    /// not valid UTF-8.
    pub fn as_str(&self) -> (r: Option<&'a str>)
        ensures
            r is Some <==> (self.buf matches Some(b) && valid_utf8(b@)),
            r matches Some(s) ==> (self.buf matches Some(b) && s.spec_bytes() == b@),
    {
        match self.buf {
            None => None,
            Some(b) => utf8_text(b),
        }
    }

    /// An owned copy of the text; `None` as for `as_str`.
    pub fn to_string(&self) -> (r: Option<String>)
        ensures
            r is Some <==> (self.buf matches Some(b) && valid_utf8(b@)),
            r matches Some(s) ==> (self.buf matches Some(b) && encode_utf8(s@) == b@),
    {
        match self.as_str() {
            None => None,
            Some(s) => Some(s.to_owned()),
        }
    }

    /// `f` applied to the slice, unless it is null.
    pub fn map<F, T>(&self, f: F) -> (r: Option<T>)
        where
            F: Fn(&FLSlice<'a>) -> T,
        requires
            self.buf is Some ==> f.requires((self,)),
        ensures
            r is Some <==> self.buf is Some,
            r matches Some(t) ==> f.ensures((self,), t),
    {
        if self.is_null() {
            None
        } else {
            Some(f(self))
        }
    }
}

/// An owned result buffer, which may be null. It is released by consuming it,
/// so it is released once and never read after.
#[derive(Debug)]
pub struct FLSliceResult {
    pub buf: Option<Vec<u8>>,
}

impl FLSliceResult {
    /// A view of the buffer, borrowed from it.
    pub fn as_slice(&self) -> (r: FLSlice<'_>)
        ensures
            r.buf is Some <==> self.buf is Some,
            r.buf matches Some(b) ==> (self.buf matches Some(v) && b@ == v@),
    {
        match &self.buf {
            Some(v) => FLSlice { buf: Some(v.as_slice()) },
            None => FLSlice { buf: None },
        }
    }

    /// Releases the buffer.
    pub fn release(self) {
    }

    /// The text of the buffer, which is released in every case; `None` for a
    /// null buffer and for bytes that are not valid UTF-8.
    pub fn to_string(self) -> (r: Option<String>)
        ensures
            r is Some <==> (self.buf matches Some(v) && valid_utf8(v@)),
            r matches Some(s) ==> (self.buf matches Some(v) && encode_utf8(s@) == v@),
    {
        let s = self.as_slice().to_string();
        self.release();
        s
    }
}

} // verus!
