use vstd::prelude::*;
use base64::Engine;

verus! {

/// The padded standard Base64 text of a byte string.
pub uninterp spec fn base64_of(b: Seq<u8>) -> Seq<char>;

/// The bytes that a standard Base64 text stands for, or `None` where the
/// text is not valid standard Base64.
pub uninterp spec fn base64_bytes(s: Seq<char>) -> Option<Seq<u8>>;

#[verifier::external_type_specification]
#[verifier::external_body]
pub struct ExDecodeError(base64::DecodeError);

/// The length of padded Base64 text for `n` bytes.
pub open spec fn base64_len(n: nat) -> nat {
    4 * ((n + 2) / 3)
}

/// Relies on `base64::engine::general_purpose::STANDARD.encode`: padded
/// standard alphabet (RFC 4648), four characters for each started group of
/// three bytes; its canonical output decodes back to the input.
/// It would panic only where that length overflows `usize`, which a slice
/// (at most `isize::MAX` bytes) never reaches.
#[verifier::external_body]
pub(crate) fn encode_base64(b: &[u8]) -> (r: String)
    ensures
        r@ == base64_of(b@),
        r@.len() == base64_len(b@.len()),
        base64_bytes(r@) == Some(b@),
{
    base64::engine::general_purpose::STANDARD.encode(b)
}

/// Relies on `base64::engine::general_purpose::STANDARD.decode`: the bytes
/// of a valid text, or an error.
#[verifier::external_body]
pub(crate) fn decode_base64(s: &str) -> (r: Result<Vec<u8>, base64::DecodeError>)
    ensures
        match r {
            Ok(v) => base64_bytes(s@) == Some(v@),
            Err(_) => base64_bytes(s@) is None,
        },
{
    base64::engine::general_purpose::STANDARD.decode(s)
}

/// Decodes one binary field of a request: `Some` exactly where the text is
/// valid standard Base64.
pub fn decode_field(s: &String) -> (r: Option<Vec<u8>>)
    ensures
        match r {
            Some(v) => base64_bytes(s@) == Some(v@),
            None => base64_bytes(s@) is None,
        },
{
    match decode_base64(s.as_str()) {
        Ok(v) => Some(v),
        Err(_) => None,
    }
}

} // verus!
