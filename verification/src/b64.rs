//! Unpadded, URL-safe base64, delegated to the `ct_codecs` crate.
//!
//! The encoded and decoded forms are named by two uninterpreted spec
//! functions; the wrappers below are the only places that apply them.

use ct_codecs::Base64UrlSafeNoPadding;
use ct_codecs::Decoder;
use ct_codecs::Encoder;
use vstd::prelude::*;

use crate::error::Error;

verus! {

/// The unpadded base64url encoding of `b`, as `ct_codecs` computes it.
pub uninterp spec fn b64url_of(b: Seq<u8>) -> Seq<char>;

/// The bytes that `ct_codecs` strict (canonical, no-padding) base64url
/// decoding recovers from `s`, or `None` when `s` is not a valid encoding.
pub uninterp spec fn b64url_decoded(s: Seq<char>) -> Option<Seq<u8>>;

/// Whether `c` belongs to the unpadded URL-safe base64 alphabet
/// (`A`-`Z`, `a`-`z`, `0`-`9`, `-`, `_`). Note `.` is not in it.
pub open spec fn is_b64url_char(c: char) -> bool {
    ('A' <= c && c <= 'Z') || ('a' <= c && c <= 'z') || ('0' <= c && c <= '9') || c == '-' || c
        == '_'
}

/// Relies on `ct_codecs::Base64UrlSafeNoPadding::encode_to_string`: it
/// deterministically encodes `b` over the URL-safe alphabet without padding
/// (so the result has no `.` and `(len * 4 + 2) / 3` characters), fails only
/// when the encoded length does not fit in `usize`, and its strict decoder
/// (`decode_to_vec` with no ignored characters) recovers exactly `b` from it.
#[verifier::external_body]
pub(crate) fn b64_encode(b: &[u8]) -> (r: Result<String, Error>)
    ensures
        4 * b@.len() <= usize::MAX ==> r is Ok,
        r matches Ok(s) ==> s@ == b64url_of(b@),
        r matches Ok(s) ==> s@.len() == (b@.len() * 4 + 2) / 3,
        r matches Ok(s) ==> (forall|i: int| 0 <= i < s@.len() ==> is_b64url_char(#[trigger] s@[i])),
        r matches Ok(s) ==> b64url_decoded(s@) == Some(b@),
        r matches Err(e) ==> e == Error::Overflow,
{
    Base64UrlSafeNoPadding::encode_to_string(b).map_err(|_| Error::Overflow)
}

/// Relies on `ct_codecs::Base64UrlSafeNoPadding::decode_to_vec` with no
/// ignored characters: it deterministically either rejects `s` or decodes it,
/// accepting exactly the canonical unpadded base64url encodings.
#[verifier::external_body]
pub(crate) fn b64_decode(s: &str) -> (r: Result<Vec<u8>, Error>)
    ensures
        (r is Ok) == (b64url_decoded(s@) is Some),
        r matches Ok(v) ==> Some(v@) == b64url_decoded(s@),
        r matches Err(e) ==> e == Error::Base64DecodeError,
{
    Base64UrlSafeNoPadding::decode_to_vec(s, None).map_err(|_| Error::Base64DecodeError)
}

} // verus!
