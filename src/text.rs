use vstd::prelude::*;
use vstd::utf8::valid_utf8;

verus! {

/// What lossy UTF-8 decoding makes of a byte string: each maximal invalid
/// sequence is replaced by U+FFFD.
pub uninterp spec fn utf8_lossy(b: Seq<u8>) -> Seq<u8>;

/// Relies on `std::str::from_utf8`: it succeeds exactly on valid UTF-8.
#[verifier::external_body]
pub(crate) fn is_utf8(b: &[u8]) -> (r: bool)
    ensures
        r == valid_utf8(b@),
{
    std::str::from_utf8(b).is_ok()
}

/// Relies on `String::from_utf8_lossy`: its result is a `str`, hence valid
/// UTF-8, and it borrows its input unchanged when that is valid already.
#[verifier::external_body]
pub(crate) fn lossy_text(b: &[u8]) -> (r: Vec<u8>)
    ensures
        r@ == utf8_lossy(b@),
        valid_utf8(r@),
        valid_utf8(b@) ==> r@ == b@,
{
    String::from_utf8_lossy(b).into_owned().into_bytes()
}

} // verus!
