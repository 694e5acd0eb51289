//! The error kinds that token building and verification can surface.

use vstd::prelude::*;

verus! {

/// Every failure of the token core, and the kinds a caller-supplied callback
/// may return. Structural kinds (wrong segment count, bad base64, bad JSON)
/// and policy kinds (size ceiling, algorithm binding, key identifier) are
/// distinct so that callers can tell them apart; errors returned by the
/// signing, verification and claims-validation callbacks propagate unchanged.
#[derive(Clone, Copy, Debug, PartialEq, Eq, Structural)]
pub enum Error {
    /// The token does not consist of exactly three dot-separated segments.
    CompactEncodingError,
    /// The first (header) segment exceeds the fixed size ceiling.
    HeaderTooLarge,
    /// The header's declared algorithm differs from the expected one.
    AlgorithmMismatch,
    /// A required key identifier was demanded but the header carries none.
    MissingJWTKeyIdentifier,
    /// The header's key identifier differs from the required one.
    KeyIdentifierMismatch,
    /// A segment is not valid unpadded base64url.
    Base64DecodeError,
    /// A value could not be serialized to JSON.
    SerializationError,
    /// A segment's content could not be parsed as the expected JSON value.
    DeserializationError,
    /// The authentication tag or signature was rejected.
    InvalidAuthenticationTag,
    /// The claims failed semantic validation.
    ClaimsValidationError,
    /// An internal size computation overflowed.
    Overflow,
}

impl Error {
    /// A short, stable description of the error kind.
    pub fn description(&self) -> (r: &'static str)
        ensures
            r@.len() > 0,
    {
        let r: &'static str = match self {
            Error::CompactEncodingError => "compact encoding error",
            Error::HeaderTooLarge => "header too large",
            Error::AlgorithmMismatch => "algorithm mismatch",
            Error::MissingJWTKeyIdentifier => "missing key identifier",
            Error::KeyIdentifierMismatch => "key identifier mismatch",
            Error::Base64DecodeError => "base64 decoding error",
            Error::SerializationError => "serialization error",
            Error::DeserializationError => "deserialization error",
            Error::InvalidAuthenticationTag => "invalid authentication tag",
            Error::ClaimsValidationError => "claims validation error",
            Error::Overflow => "overflow",
        };
        proof {
            reveal_strlit("compact encoding error");
            reveal_strlit("header too large");
            reveal_strlit("algorithm mismatch");
            reveal_strlit("missing key identifier");
            reveal_strlit("key identifier mismatch");
            reveal_strlit("base64 decoding error");
            reveal_strlit("serialization error");
            reveal_strlit("deserialization error");
            reveal_strlit("invalid authentication tag");
            reveal_strlit("claims validation error");
            reveal_strlit("overflow");
        }
        r
    }
}

} // verus!
