use vstd::prelude::*;
use vstd::string::StringExecFns;
use vstd::utf8::decode_utf8;
use vstd::utf8::valid_utf8;

verus! {

/// The key that `generate_private_key` hands out: a fixed placeholder.
pub fn generate_private_key() -> (r: String)
    ensures
        r@ == "mocked_private_key_1234"@,
{
    String::from_str("mocked_private_key_1234")
}

/// The placeholder signature of `message`: `signed(<message>)`.
pub fn sign_message(message: String) -> (r: String)
    ensures
        r@ == "signed("@ + message@ + ")"@,
{
    String::from_str("signed(").concat(message.as_str()).concat(")")
}

/// Relies on `String::from_utf8`: it succeeds exactly on valid UTF-8, and the
/// string then holds the characters those bytes encode.
#[verifier::external_body]
fn utf8_string(b: Vec<u8>) -> (r: Option<String>)
    ensures
        r is Some <==> valid_utf8(b@),
        r matches Some(s) ==> s@ == decode_utf8(b@),
{
    String::from_utf8(b).ok()
}

/// The stored key as text: `None` when the stored bytes are not UTF-8.
pub fn key_text(bytes: Vec<u8>) -> (r: Option<String>)
    ensures
        r is Some <==> valid_utf8(bytes@),
        r matches Some(s) ==> s@ == decode_utf8(bytes@),
{
    utf8_string(bytes)
}

} // verus!
