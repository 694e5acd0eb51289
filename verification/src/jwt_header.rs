//! The token header: its fields, its mathematical view, and the
//! verification options recognized at this layer.

use vstd::prelude::*;

verus! {

/// The algorithm-and-key descriptor carried in a token's first segment.
/// `algorithm` is always present; every other field is optional and
/// round-trips through the header JSON without loss.
#[derive(Debug)]
pub struct JWTHeader {
    /// `alg` — the authentication or signature scheme, matched exactly.
    pub algorithm: String,
    /// `cty` — content type.
    pub content_type: Option<String>,
    /// `jku` — key set URL.
    pub key_set_url: Option<String>,
    /// `jwk` — public key.
    pub public_key: Option<String>,
    /// `kid` — key identifier.
    pub key_id: Option<String>,
    /// `x5u` — certificate URL.
    pub certificate_url: Option<String>,
    /// `x5c` — certificate chain.
    pub certificate_chain: Option<String>,
    /// `x5t` — SHA-1 certificate thumbprint.
    pub certificate_sha1_thumbprint: Option<String>,
    /// `x5t#S256` — SHA-256 certificate thumbprint.
    pub certificate_sha256_thumbprint: Option<String>,
    /// `typ` — signature type.
    pub signature_type: Option<String>,
    /// `crit` — critical properties.
    pub critical: Option<String>,
}

/// The view of an optional string: the character sequence, if present.
pub open spec fn opt_view(o: Option<String>) -> Option<Seq<char>> {
    match o {
        Some(s) => Some(s@),
        None => None,
    }
}

/// A header as specifications see it: every field a character sequence.
pub struct HeaderView {
    pub algorithm: Seq<char>,
    pub content_type: Option<Seq<char>>,
    pub key_set_url: Option<Seq<char>>,
    pub public_key: Option<Seq<char>>,
    pub key_id: Option<Seq<char>>,
    pub certificate_url: Option<Seq<char>>,
    pub certificate_chain: Option<Seq<char>>,
    pub certificate_sha1_thumbprint: Option<Seq<char>>,
    pub certificate_sha256_thumbprint: Option<Seq<char>>,
    pub signature_type: Option<Seq<char>>,
    pub critical: Option<Seq<char>>,
}

impl View for JWTHeader {
    type V = HeaderView;

    open spec fn view(&self) -> HeaderView {
        HeaderView {
            algorithm: self.algorithm@,
            content_type: opt_view(self.content_type),
            key_set_url: opt_view(self.key_set_url),
            public_key: opt_view(self.public_key),
            key_id: opt_view(self.key_id),
            certificate_url: opt_view(self.certificate_url),
            certificate_chain: opt_view(self.certificate_chain),
            certificate_sha1_thumbprint: opt_view(self.certificate_sha1_thumbprint),
            certificate_sha256_thumbprint: opt_view(self.certificate_sha256_thumbprint),
            signature_type: opt_view(self.signature_type),
            critical: opt_view(self.critical),
        }
    }
}

impl JWTHeader {
    /// A header that only declares its algorithm.
    pub fn with_algorithm(algorithm: String) -> (r: JWTHeader)
        ensures
            r@.algorithm == algorithm@,
            r@.content_type is None,
            r@.key_set_url is None,
            r@.public_key is None,
            r@.key_id is None,
            r@.certificate_url is None,
            r@.certificate_chain is None,
            r@.certificate_sha1_thumbprint is None,
            r@.certificate_sha256_thumbprint is None,
            r@.signature_type is None,
            r@.critical is None,
    {
        JWTHeader {
            algorithm,
            content_type: None,
            key_set_url: None,
            public_key: None,
            key_id: None,
            certificate_url: None,
            certificate_chain: None,
            certificate_sha1_thumbprint: None,
            certificate_sha256_thumbprint: None,
            signature_type: None,
            critical: None,
        }
    }
}

/// Options a caller hands to verification. Only `required_key_id` is
/// interpreted at this layer; the whole record is passed on to the
/// claims-validation callback.
pub struct VerificationOptions {
    /// When set, the header must carry exactly this key identifier.
    pub required_key_id: Option<String>,
}

impl Default for VerificationOptions {
    /// Absent options impose no extra constraint.
    fn default() -> (r: VerificationOptions)
        ensures
            r.required_key_id is None,
    {
        VerificationOptions { required_key_id: None }
    }
}

} // verus!
