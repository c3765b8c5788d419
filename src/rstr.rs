use vstd::prelude::*;
use vstd::string::StringSliceAdditionalSpecFns;

verus! {

/// A byte string borrowed from a received frame.
///
/// Values in a hot-plug frame are separated by NUL bytes, so the same bytes
/// can be read as an OS string or, with the separator after them, as a C
/// string.
#[derive(Clone, Copy, Debug)]
pub struct RStr<'a> {
    inner: &'a [u8],
}

impl<'a> View for RStr<'a> {
    type V = Seq<u8>;

    closed spec fn view(&self) -> Seq<u8> {
        self.inner@
    }
}

/// Relies on std::str::from_utf8: it accepts exactly the valid UTF-8 byte
/// strings and returns a `str` over the same bytes.
#[verifier::external_body]
fn utf8_str(b: &[u8]) -> (r: Option<&str>)
    ensures
        r is Some <==> vstd::utf8::valid_utf8(b@),
        r matches Some(s) ==> s.spec_bytes() == b@,
{
    std::str::from_utf8(b).ok()
}

impl<'a> RStr<'a> {
    pub fn new(inner: &'a [u8]) -> (r: RStr<'a>)
        ensures
            r@ == inner@,
    {
        RStr { inner }
    }

    /// The bytes of the value.
    pub fn as_bytes(&self) -> (r: &'a [u8])
        ensures
            r@ == self@,
    {
        self.inner
    }

    /// The value as text, when its bytes are valid UTF-8.
    pub fn as_str(&self) -> (r: Option<&'a str>)
        ensures
            r is Some <==> vstd::utf8::valid_utf8(self@),
            r matches Some(s) ==> s.spec_bytes() == self@,
    {
        utf8_str(self.inner)
    }
}

} // verus!
