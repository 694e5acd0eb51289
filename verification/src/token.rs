//! Building, verifying and inspecting compact tokens.

use vstd::prelude::*;
use vstd::string::StrSliceExecFns;
use vstd::string::StringExecFns;

use crate::b64::b64_decode;
use crate::b64::b64_encode;
use crate::b64::b64url_decoded;
use crate::b64::b64url_of;
use crate::b64::is_b64url_char;
use crate::error::Error;
use crate::json::claims_from_json;
use crate::json::claims_to_json;
use crate::json::header_from_pairs;
use crate::json::header_of_object;
use crate::json::header_to_json;
use crate::json::json_object_of;
use crate::json::json_of_header;
use crate::json::parse_json_object;
use crate::json::pairs_view;
use crate::jwt_header::opt_view;
use crate::jwt_header::HeaderView;
use crate::jwt_header::JWTHeader;
use crate::jwt_header::VerificationOptions;
use crate::text::str_eq;

verus! {

/// The ceiling, in characters, on a token's encoded header segment.
pub const MAX_HEADER_LENGTH: usize = 4096;

/// The index of the first `.` in `s`, or `s.len()` when there is none.
pub open spec fn first_dot(s: Seq<char>) -> int
    decreases s.len(),
{
    if s.len() == 0 {
        0
    } else if s[0] == '.' {
        0
    } else {
        1 + first_dot(s.drop_first())
    }
}

/// The index of the second `.` in `s`, or `s.len()` when there is no second one.
pub open spec fn second_dot(s: Seq<char>) -> int {
    let d1 = first_dot(s);
    if d1 == s.len() {
        d1
    } else {
        d1 + 1 + first_dot(s.subrange(d1 + 1, s.len() as int))
    }
}

/// The index of the third `.` in `s`, or `s.len()` when there is no third one.
pub open spec fn third_dot(s: Seq<char>) -> int {
    let d2 = second_dot(s);
    if d2 == s.len() {
        d2
    } else {
        d2 + 1 + first_dot(s.subrange(d2 + 1, s.len() as int))
    }
}

/// Whether `s` consists of exactly three dot-separated segments, that is,
/// holds exactly two dots (`lemma_three_segments_iff_two_dots`).
pub open spec fn is_three_segments(s: Seq<char>) -> bool {
    first_dot(s) < s.len() && second_dot(s) < s.len() && third_dot(s) == s.len()
}

/// How many dots `s` holds.
pub open spec fn dot_count(s: Seq<char>) -> nat
    decreases s.len(),
{
    if s.len() == 0 {
        0
    } else {
        dot_count(s.drop_last()) + (if s.last() == '.' {
            1nat
        } else {
            0nat
        })
    }
}

/// The first (header) segment: everything before the first dot.
pub open spec fn header_segment(s: Seq<char>) -> Seq<char> {
    s.subrange(0, first_dot(s))
}

/// The second (claims) segment: everything strictly between the two dots.
pub open spec fn claims_segment(s: Seq<char>) -> Seq<char> {
    s.subrange(first_dot(s) + 1, second_dot(s))
}

/// The third (tag) segment: everything after the second dot.
pub open spec fn tag_segment(s: Seq<char>) -> Seq<char> {
    s.subrange(second_dot(s) + 1, s.len() as int)
}

/// The authenticated region: the literal substring of the token up to, but
/// not including, the second dot — header segment, dot, claims segment.
pub open spec fn authenticated_region(s: Seq<char>) -> Seq<char> {
    s.subrange(0, second_dot(s))
}

/// `first_dot` is a position in range, everything before it differs from
/// `.`, and it points at a `.` unless there is none.
pub proof fn lemma_first_dot_props(s: Seq<char>)
    ensures
        0 <= first_dot(s) <= s.len(),
        forall|j: int| 0 <= j < first_dot(s) ==> s[j] != '.',
        first_dot(s) < s.len() ==> s[first_dot(s)] == '.',
    decreases s.len(),
{
    if s.len() == 0 {
    } else if s[0] == '.' {
    } else {
        lemma_first_dot_props(s.drop_first());
        assert forall|j: int| 0 <= j < first_dot(s) implies s[j] != '.' by {
            if j > 0 {
                assert(s.drop_first()[j - 1] == s[j]);
            }
        }
        if first_dot(s) < s.len() {
            assert(s.drop_first()[first_dot(s.drop_first())] == s[first_dot(s)]);
        }
    }
}

/// A position before which there is no dot, and which holds a dot or is the
/// end, is exactly `first_dot`.
pub proof fn lemma_first_dot_at(s: Seq<char>, i: int)
    requires
        0 <= i <= s.len(),
        forall|j: int| 0 <= j < i ==> s[j] != '.',
        i < s.len() ==> s[i] == '.',
    ensures
        first_dot(s) == i,
    decreases i,
{
    if i == 0 {
    } else {
        assert(s[0] != '.');
        assert forall|j: int| 0 <= j < i - 1 implies s.drop_first()[j] != '.' by {
            assert(s.drop_first()[j] == s[j + 1]);
        }
        assert(i - 1 < s.drop_first().len() ==> s.drop_first()[i - 1] == s[i]);
        lemma_first_dot_at(s.drop_first(), i - 1);
    }
}

/// Utilities to build, verify and inspect tokens.
pub struct Token;

/// Token information available before — and independent of — signature or
/// tag verification.
#[derive(Debug)]
pub struct TokenMetadata {
    jwt_header: JWTHeader,
}

impl View for TokenMetadata {
    type V = HeaderView;

    closed spec fn view(&self) -> HeaderView {
        self.jwt_header@
    }
}

impl TokenMetadata {
    /// The algorithm this token declares.
    pub fn algorithm(&self) -> (r: &str)
        ensures
            r@ == self@.algorithm,
    {
        self.jwt_header.algorithm.as_str()
    }

    /// The content type for this token.
    pub fn content_type(&self) -> (r: Option<&str>)
        ensures
            opt_deref_view(r) == self@.content_type,
    {
        match &self.jwt_header.content_type {
            Some(s) => Some(s.as_str()),
            None => None,
        }
    }

    /// The key set URL for this token.
    pub fn key_set_url(&self) -> (r: Option<&str>)
        ensures
            opt_deref_view(r) == self@.key_set_url,
    {
        match &self.jwt_header.key_set_url {
            Some(s) => Some(s.as_str()),
            None => None,
        }
    }

    /// The public key for this token.
    pub fn public_key(&self) -> (r: Option<&str>)
        ensures
            opt_deref_view(r) == self@.public_key,
    {
        match &self.jwt_header.public_key {
            Some(s) => Some(s.as_str()),
            None => None,
        }
    }

    /// The key, or public key, identifier for this token.
    pub fn key_id(&self) -> (r: Option<&str>)
        ensures
            opt_deref_view(r) == self@.key_id,
    {
        match &self.jwt_header.key_id {
            Some(s) => Some(s.as_str()),
            None => None,
        }
    }

    /// The certificate URL for this token.
    pub fn certificate_url(&self) -> (r: Option<&str>)
        ensures
            opt_deref_view(r) == self@.certificate_url,
    {
        match &self.jwt_header.certificate_url {
            Some(s) => Some(s.as_str()),
            None => None,
        }
    }

    /// The certificate chain for this token.
    pub fn certificate_chain(&self) -> (r: Option<&str>)
        ensures
            opt_deref_view(r) == self@.certificate_chain,
    {
        match &self.jwt_header.certificate_chain {
            Some(s) => Some(s.as_str()),
            None => None,
        }
    }

    /// The SHA-1 certificate fingerprint.
    pub fn certificate_sha1_thumbprint(&self) -> (r: Option<&str>)
        ensures
            opt_deref_view(r) == self@.certificate_sha1_thumbprint,
    {
        match &self.jwt_header.certificate_sha1_thumbprint {
            Some(s) => Some(s.as_str()),
            None => None,
        }
    }

    /// The SHA-256 certificate fingerprint.
    pub fn certificate_sha256_thumbprint(&self) -> (r: Option<&str>)
        ensures
            opt_deref_view(r) == self@.certificate_sha256_thumbprint,
    {
        match &self.jwt_header.certificate_sha256_thumbprint {
            Some(s) => Some(s.as_str()),
            None => None,
        }
    }

    /// The signature type for this token.
    pub fn signature_type(&self) -> (r: Option<&str>)
        ensures
            opt_deref_view(r) == self@.signature_type,
    {
        match &self.jwt_header.signature_type {
            Some(s) => Some(s.as_str()),
            None => None,
        }
    }

    /// The set of critical properties for this token.
    pub fn critical(&self) -> (r: Option<&str>)
        ensures
            opt_deref_view(r) == self@.critical,
    {
        match &self.jwt_header.critical {
            Some(s) => Some(s.as_str()),
            None => None,
        }
    }
}

/// The view of an optional borrowed string.
pub open spec fn opt_deref_view(o: Option<&str>) -> Option<Seq<char>> {
    match o {
        Some(s) => Some(s@),
        None => None,
    }
}

/// What decoding and parsing an encoded header segment yields: the header,
/// or the first error on the way to it.
pub open spec fn header_chain(seg: Seq<char>) -> Result<HeaderView, Error> {
    match b64url_decoded(seg) {
        None => Err(Error::Base64DecodeError),
        Some(j) => match json_object_of(j) {
            None => Err(Error::DeserializationError),
            Some(m) => match header_of_object(m) {
                None => Err(Error::DeserializationError),
                Some(h) => Ok(h),
            },
        },
    }
}

/// The header a full verification of token `t` works with, or the error it
/// stops at first: the size ceiling is checked before anything else, then
/// the three-segment shape, then the header segment is decoded and parsed.
pub open spec fn header_outcome(t: Seq<char>) -> Result<HeaderView, Error> {
    if first_dot(t) > MAX_HEADER_LENGTH {
        Err(Error::HeaderTooLarge)
    } else if !is_three_segments(t) {
        Err(Error::CompactEncodingError)
    } else {
        header_chain(header_segment(t))
    }
}

/// What metadata extraction yields: like `header_outcome`, but without any
/// demand on the number of segments — only the first segment is read.
pub open spec fn metadata_outcome(t: Seq<char>) -> Result<HeaderView, Error> {
    if first_dot(t) > MAX_HEADER_LENGTH {
        Err(Error::HeaderTooLarge)
    } else {
        header_chain(header_segment(t))
    }
}

/// The key identifier the caller requires, if any.
pub open spec fn required_kid_view(options: Option<VerificationOptions>) -> Option<Seq<char>> {
    match options {
        None => None,
        Some(o) => opt_view(o.required_key_id),
    }
}

/// The header that verification of `t` against the expected algorithm
/// `expected` and required key identifier `rkid` accepts, or the policy
/// error it rejects the token with, before any cryptographic work: the
/// algorithm must match exactly, and when a key identifier is required the
/// header must carry exactly that one.
pub open spec fn policy_outcome(
    expected: Seq<char>,
    t: Seq<char>,
    rkid: Option<Seq<char>>,
) -> Result<HeaderView, Error> {
    match header_outcome(t) {
        Err(e) => Err(e),
        Ok(h) => if h.algorithm != expected {
            Err(Error::AlgorithmMismatch)
        } else {
            match rkid {
                None => Ok(h),
                Some(r) => match h.key_id {
                    None => Err(Error::MissingJWTKeyIdentifier),
                    Some(k) => if k == r {
                        Ok(h)
                    } else {
                        Err(Error::KeyIdentifierMismatch)
                    },
                },
            }
        },
    }
}

/// Finds the first dot at or after `from`, or the end of the string.
fn find_first_dot(token: &str, from: usize) -> (r: usize)
    requires
        from <= token@.len(),
    ensures
        from <= r <= token@.len(),
        r == from + first_dot(token@.subrange(from as int, token@.len() as int)),
{
    let ghost t = token@;
    let ghost sub = t.subrange(from as int, t.len() as int);
    let n = token.unicode_len();
    let mut i: usize = from;
    while i < n
        invariant
            from <= i <= n,
            n == t.len(),
            t == token@,
            sub == t.subrange(from as int, t.len() as int),
            forall|j: int| from <= j < i ==> t[j] != '.',
        decreases n - i,
    {
        if token.get_char(i) == '.' {
            proof {
                assert forall|j: int| 0 <= j < i - from implies sub[j] != '.' by {
                    assert(t.subrange(from as int, t.len() as int)[j] == t[from + j]);
                }
                assert(t.subrange(from as int, t.len() as int)[i - from] == t[i as int]);
                lemma_first_dot_at(sub, i - from);
            }
            return i;
        }
        i += 1;
    }
    proof {
        assert forall|j: int| 0 <= j < n - from implies sub[j] != '.' by {
            assert(t.subrange(from as int, t.len() as int)[j] == t[from + j]);
        }
        lemma_first_dot_at(sub, n - from);
    }
    n
}

impl Token {
    /// Builds a token: the header and the claims serialized to JSON and
    /// base64url-encoded, joined with a dot into the authenticated region,
    /// which is handed to the caller's signing callback; the encoded tag is
    /// appended as the third segment. A failure of the callback propagates
    /// unchanged; nothing is retried.
    #[verifier::rlimit(100)]
    pub fn build<CustomClaims, AuthenticationOrSignatureFn>(
        jwt_header: &JWTHeader,
        claims: &CustomClaims,
        authentication_or_signature_fn: AuthenticationOrSignatureFn,
    ) -> (r: Result<String, Error>) where
        CustomClaims: serde::Serialize,
        AuthenticationOrSignatureFn: FnOnce(&str) -> Result<Vec<u8>, Error>,

        requires
            forall|a: &str| call_requires(authentication_or_signature_fn, (a,)),
        ensures
            r matches Ok(t) ==> build_post(jwt_header@, authentication_or_signature_fn, t@),
            r matches Err(e) ==> e == Error::SerializationError || e == Error::Overflow || (exists|
                cj: Seq<u8>,
                a: &str,
            |
                #![trigger b64url_of(cj), call_ensures(authentication_or_signature_fn, (a,), Err::<Vec<u8>, Error>(e))]
                a@ == b64url_of(json_of_header(jwt_header@)) + seq!['.'] + b64url_of(cj)
                    && call_ensures(authentication_or_signature_fn, (a,), Err::<Vec<u8>, Error>(e))),
    {
        let header_json = header_to_json(jwt_header);
        let s1 = match b64_encode(header_json.as_slice()) {
            Ok(s) => s,
            Err(e) => {
                return Err(e);
            },
        };
        let claims_json = match claims_to_json(claims) {
            Ok(v) => v,
            Err(e) => {
                return Err(e);
            },
        };
        let s2 = match b64_encode(claims_json.as_slice()) {
            Ok(s) => s,
            Err(e) => {
                return Err(e);
            },
        };
        let mut authenticated = s1;
        authenticated.append(".");
        authenticated.append(s2.as_str());
        let authenticated_str = authenticated.as_str();
        let tag_res = authentication_or_signature_fn(authenticated_str);
        let tag = match tag_res {
            Ok(v) => v,
            Err(e) => {
                proof {
                    reveal_strlit(".");
                    assert("."@ =~= seq!['.']);
                    assert(authenticated_str@ =~= b64url_of(json_of_header(jwt_header@))
                        + seq!['.'] + b64url_of(claims_json@));
                    assert(call_ensures(
                        authentication_or_signature_fn,
                        (authenticated_str,),
                        Err::<Vec<u8>, Error>(e),
                    ));
                }
                return Err(e);
            },
        };
        let s3 = match b64_encode(tag.as_slice()) {
            Ok(s) => s,
            Err(e) => {
                return Err(e);
            },
        };
        let mut token = authenticated;
        token.append(".");
        token.append(s3.as_str());
        proof {
            reveal_strlit(".");
            assert("."@ =~= seq!['.']);
            assert(token@ =~= b64url_of(json_of_header(jwt_header@)) + seq!['.'] + b64url_of(
                claims_json@,
            ) + seq!['.'] + b64url_of(tag@));
            assert(built_token_shape(jwt_header@, claims_json@, tag@, token@));
            assert(authenticated_str@ == b64url_of(json_of_header(jwt_header@)) + seq!['.']
                + b64url_of(claims_json@));
            assert(call_ensures(
                authentication_or_signature_fn,
                (authenticated_str,),
                Ok::<Vec<u8>, Error>(tag),
            ));
            assert(build_post(jwt_header@, authentication_or_signature_fn, token@));
        }
        Ok(token)
    }

    /// Verifies a token and returns its claims. The checks run in a fixed
    /// order, each failure terminal: segment shape and header-size ceiling,
    /// header decoding and parsing, exact algorithm binding, the required
    /// key identifier if the caller set one, tag decoding, the caller's
    /// cryptographic callback over the literal authenticated region of the
    /// input, and only then claims decoding, parsing and the caller's
    /// claims-validation callback.
    pub fn verify<CustomClaims, AuthenticationOrSignatureFn, ClaimsValidationFn>(
        jwt_alg_name: &str,
        token: &str,
        options: Option<VerificationOptions>,
        authentication_or_signature_fn: AuthenticationOrSignatureFn,
        claims_validation_fn: ClaimsValidationFn,
    ) -> (r: Result<CustomClaims, Error>) where
        CustomClaims: serde::de::DeserializeOwned,
        AuthenticationOrSignatureFn: FnOnce(&str, &[u8]) -> Result<(), Error>,
        ClaimsValidationFn: FnOnce(&CustomClaims, &VerificationOptions) -> Result<(), Error>,

        requires
            forall|a: &str, g: &[u8]| call_requires(authentication_or_signature_fn, (a, g)),
            forall|c: &CustomClaims, o: &VerificationOptions|
                call_requires(claims_validation_fn, (c, o)),
        ensures
            policy_outcome(jwt_alg_name@, token@, required_kid_view(options)) matches Err(e) ==> r
                == Err::<CustomClaims, Error>(e),
            r is Ok ==> policy_outcome(jwt_alg_name@, token@, required_kid_view(options)) is Ok,
            (policy_outcome(jwt_alg_name@, token@, required_kid_view(options)) is Ok
                && b64url_decoded(tag_segment(token@)) is None) ==> r == Err::<CustomClaims, Error>(
                Error::Base64DecodeError,
            ),
            r is Ok ==> b64url_decoded(tag_segment(token@)) is Some && b64url_decoded(
                claims_segment(token@),
            ) is Some,
            r is Ok ==> (exists|a: &str, g: &[u8]|
                a@ == authenticated_region(token@) && Some(g@) == b64url_decoded(
                    tag_segment(token@),
                ) && call_ensures(authentication_or_signature_fn, (a, g), Ok::<(), Error>(()))),
            r matches Ok(c) ==> (exists|cr: &CustomClaims, o: &VerificationOptions|
                *cr == c && opt_view(o.required_key_id) == required_kid_view(options)
                    && call_ensures(claims_validation_fn, (cr, o), Ok::<(), Error>(()))),
            r matches Err(e) ==> ((policy_outcome(jwt_alg_name@, token@, required_kid_view(options))
                is Ok && b64url_decoded(tag_segment(token@)) is Some) ==> ((exists|
                a: &str,
                g: &[u8],
            |
                a@ == authenticated_region(token@) && Some(g@) == b64url_decoded(
                    tag_segment(token@),
                ) && call_ensures(authentication_or_signature_fn, (a, g), Err::<(), Error>(e))) || (
            (exists|a: &str, g: &[u8]|
                a@ == authenticated_region(token@) && Some(g@) == b64url_decoded(
                    tag_segment(token@),
                ) && call_ensures(authentication_or_signature_fn, (a, g), Ok::<(), Error>(()))) && ((
            e == Error::Base64DecodeError && b64url_decoded(claims_segment(token@)) is None) || e
                == Error::DeserializationError || (exists|cr: &CustomClaims, o: &VerificationOptions|
                opt_view(o.required_key_id) == required_kid_view(options) && call_ensures(
                    claims_validation_fn,
                    (cr, o),
                    Err::<(), Error>(e),
                )))))),
    {
        let ghost t = token@;
        let n = token.unicode_len();
        let d1 = find_first_dot(token, 0);
        proof {
            assert(t.subrange(0, t.len() as int) =~= t);
            assert(d1 == first_dot(t));
        }
        if d1 > MAX_HEADER_LENGTH {
            return Err(Error::HeaderTooLarge);
        }
        if d1 == n {
            return Err(Error::CompactEncodingError);
        }
        let d2 = find_first_dot(token, d1 + 1);
        proof {
            assert(d2 == second_dot(t));
        }
        if d2 == n {
            return Err(Error::CompactEncodingError);
        }
        let d3 = find_first_dot(token, d2 + 1);
        proof {
            assert(d3 == third_dot(t));
        }
        if d3 != n {
            return Err(Error::CompactEncodingError);
        }
        let header_b64 = token.substring_char(0, d1);
        let header_json = match b64_decode(header_b64) {
            Ok(v) => v,
            Err(e) => {
                return Err(e);
            },
        };
        let pairs = match parse_json_object(header_json.as_slice()) {
            Ok(p) => p,
            Err(e) => {
                return Err(e);
            },
        };
        let jwt_header = match header_from_pairs(&pairs) {
            Ok(h) => h,
            Err(e) => {
                return Err(e);
            },
        };
        if !str_eq(jwt_header.algorithm.as_str(), jwt_alg_name) {
            return Err(Error::AlgorithmMismatch);
        }
        let opts = match options {
            Some(o) => o,
            None => VerificationOptions::default(),
        };
        proof {
            assert(opt_view(opts.required_key_id) == required_kid_view(options));
        }
        if let Some(required) = &opts.required_key_id {
            match &jwt_header.key_id {
                None => {
                    return Err(Error::MissingJWTKeyIdentifier);
                },
                Some(k) => {
                    if !str_eq(k.as_str(), required.as_str()) {
                        return Err(Error::KeyIdentifierMismatch);
                    }
                },
            }
        }
        let tag_b64 = token.substring_char(d2 + 1, n);
        let authentication_tag = match b64_decode(tag_b64) {
            Ok(v) => v,
            Err(e) => {
                return Err(e);
            },
        };
        let authenticated = token.substring_char(0, d2);
        let tag_slice = authentication_tag.as_slice();
        proof {
            assert(authenticated@ == authenticated_region(t));
            assert(Some(tag_slice@) == b64url_decoded(tag_segment(t)));
        }
        let res_auth = authentication_or_signature_fn(authenticated, tag_slice);
        match res_auth {
            Err(e) => {
                proof {
                    assert(call_ensures(
                        authentication_or_signature_fn,
                        (authenticated, tag_slice),
                        Err::<(), Error>(e),
                    ));
                }
                return Err(e);
            },
            Ok(u) => {
                proof {
                    assert(res_auth == Ok::<(), Error>(u));
                    assert(call_ensures(
                        authentication_or_signature_fn,
                        (authenticated, tag_slice),
                        Ok::<(), Error>(()),
                    ));
                }
            },
        };
        let claims_b64 = token.substring_char(d1 + 1, d2);
        let claims_json = match b64_decode(claims_b64) {
            Ok(v) => v,
            Err(e) => {
                return Err(e);
            },
        };
        let claims: CustomClaims = match claims_from_json(claims_json.as_slice()) {
            Ok(c) => c,
            Err(e) => {
                return Err(e);
            },
        };
        let claims_ref = &claims;
        let opts_ref = &opts;
        let res_val = claims_validation_fn(claims_ref, opts_ref);
        match res_val {
            Err(e) => {
                proof {
                    assert(call_ensures(
                        claims_validation_fn,
                        (claims_ref, opts_ref),
                        Err::<(), Error>(e),
                    ));
                }
                return Err(e);
            },
            Ok(u) => {
                proof {
                    assert(res_val == Ok::<(), Error>(u));
                    assert(call_ensures(
                        claims_validation_fn,
                        (claims_ref, opts_ref),
                        Ok::<(), Error>(()),
                    ));
                    assert(*claims_ref == claims);
                }
            },
        };
        Ok(claims)
    }

    /// Decodes the information a caller can use before committing to any
    /// verification: only the first segment is read, held to the size
    /// ceiling, decoded and parsed; the claims and tag segments are never
    /// touched and no cryptographic or key-identifier check happens.
    pub fn decode_metadata(token: &str) -> (r: Result<TokenMetadata, Error>)
        ensures
            r matches Ok(md) ==> metadata_outcome(token@) == Ok::<HeaderView, Error>(md@),
            r matches Err(e) ==> metadata_outcome(token@) == Err::<HeaderView, Error>(e),
    {
        let ghost t = token@;
        let d1 = find_first_dot(token, 0);
        proof {
            assert(t.subrange(0, t.len() as int) =~= t);
            assert(d1 == first_dot(t));
        }
        if d1 > MAX_HEADER_LENGTH {
            return Err(Error::HeaderTooLarge);
        }
        let header_b64 = token.substring_char(0, d1);
        let header_json = match b64_decode(header_b64) {
            Ok(v) => v,
            Err(e) => {
                return Err(e);
            },
        };
        let pairs = match parse_json_object(header_json.as_slice()) {
            Ok(p) => p,
            Err(e) => {
                return Err(e);
            },
        };
        let jwt_header = match header_from_pairs(&pairs) {
            Ok(h) => h,
            Err(e) => {
                return Err(e);
            },
        };
        Ok(TokenMetadata { jwt_header })
    }
}

/// What holds of every token that `Token::build` returns: for some claims
/// JSON `cj` and some tag that the signing callback `f` could have returned
/// for exactly the authenticated region `header-segment.claims-segment`, the
/// token has the built shape.
pub open spec fn build_post<F: FnOnce(&str) -> Result<Vec<u8>, Error>>(
    h: HeaderView,
    f: F,
    t: Seq<char>,
) -> bool {
    exists|cj: Seq<u8>, a: &str, tagv: Vec<u8>|
        #![trigger built_token_shape(h, cj, tagv@, t), call_ensures(f, (a,), Ok::<Vec<u8>, Error>(tagv))]
        built_token_shape(h, cj, tagv@, t) && a@ == b64url_of(json_of_header(h)) + seq!['.']
            + b64url_of(cj) && call_ensures(f, (a,), Ok::<Vec<u8>, Error>(tagv))
}

/// The shape every successfully built token has: three unpadded base64url
/// segments joined by dots — the header JSON's encoding, the claims JSON's
/// encoding, and the tag's encoding — each of which decodes back to exactly
/// the bytes it was built from.
pub open spec fn built_token_shape(h: HeaderView, cj: Seq<u8>, tag: Seq<u8>, t: Seq<char>) -> bool {
    let s1 = b64url_of(json_of_header(h));
    let s2 = b64url_of(cj);
    let s3 = b64url_of(tag);
    &&& t == s1 + seq!['.'] + s2 + seq!['.'] + s3
    &&& b64url_decoded(s1) == Some(json_of_header(h))
    &&& b64url_decoded(s2) == Some(cj)
    &&& b64url_decoded(s3) == Some(tag)
    &&& s1.len() == (json_of_header(h).len() * 4 + 2) / 3
    &&& forall|i: int| 0 <= i < s1.len() ==> is_b64url_char(#[trigger] s1[i])
    &&& forall|i: int| 0 <= i < s2.len() ==> is_b64url_char(#[trigger] s2[i])
    &&& forall|i: int| 0 <= i < s3.len() ==> is_b64url_char(#[trigger] s3[i])
}

/// Structural round trip, and exactness of the authenticated region: any
/// three segments over the base64url alphabet — such as the three a
/// successful `Token::build` returns, by its postcondition — joined with
/// dots, split back into exactly those three segments, and the region a
/// verifier authenticates is the literal `segment-one.segment-two`
/// substring, exactly what the builder's callback signed.
pub proof fn lemma_built_token_parts(s1: Seq<char>, s2: Seq<char>, s3: Seq<char>)
    requires
        forall|i: int| 0 <= i < s1.len() ==> is_b64url_char(#[trigger] s1[i]),
        forall|i: int| 0 <= i < s2.len() ==> is_b64url_char(#[trigger] s2[i]),
        forall|i: int| 0 <= i < s3.len() ==> is_b64url_char(#[trigger] s3[i]),
    ensures
        ({
            let t = s1 + seq!['.'] + s2 + seq!['.'] + s3;
            &&& first_dot(t) == s1.len()
            &&& second_dot(t) == s1.len() + 1 + s2.len()
            &&& is_three_segments(t)
            &&& header_segment(t) == s1
            &&& claims_segment(t) == s2
            &&& tag_segment(t) == s3
            &&& authenticated_region(t) == s1 + seq!['.'] + s2
        }),
{
    let t = s1 + seq!['.'] + s2 + seq!['.'] + s3;
    assert(t.len() == s1.len() + 1 + s2.len() + 1 + s3.len());
    assert forall|j: int| 0 <= j < s1.len() implies t[j] != '.' by {
        assert(t[j] == s1[j]);
    }
    assert(t[s1.len() as int] == '.');
    lemma_first_dot_at(t, s1.len() as int);
    let d1 = s1.len() as int;
    let rest1 = t.subrange(d1 + 1, t.len() as int);
    assert(rest1 =~= s2 + seq!['.'] + s3);
    assert forall|j: int| 0 <= j < s2.len() implies rest1[j] != '.' by {
        assert(rest1[j] == s2[j]);
    }
    assert(rest1[s2.len() as int] == '.');
    lemma_first_dot_at(rest1, s2.len() as int);
    assert(second_dot(t) == d1 + 1 + s2.len());
    let d2 = d1 + 1 + s2.len() as int;
    let rest2 = t.subrange(d2 + 1, t.len() as int);
    assert(rest2 =~= s3);
    assert forall|j: int| 0 <= j < s3.len() implies rest2[j] != '.' by {
        assert(rest2[j] == s3[j]);
    }
    lemma_first_dot_at(rest2, s3.len() as int);
    assert(third_dot(t) == t.len());
    assert(header_segment(t) =~= s1);
    assert(claims_segment(t) =~= s2);
    assert(tag_segment(t) =~= s3);
    assert(authenticated_region(t) =~= s1 + seq!['.'] + s2);
}

/// Round trip, as far as the verified core reaches: on any token of the
/// shape `Token::build` guarantees — provided its header JSON stays within
/// the size ceiling once encoded — the verifier's own specification
/// recovers, from the token string alone, exactly the three byte strings
/// the builder encoded: the header JSON, the claims JSON, and the tag; and
/// the region it authenticates is exactly the region the builder signed.
/// The one step outside this core is reading the header JSON back into
/// header fields, which `header_chain` delegates to the JSON parser.
pub proof fn lemma_verify_recovers_built_parts(
    h: HeaderView,
    cj: Seq<u8>,
    tag: Seq<u8>,
    t: Seq<char>,
)
    requires
        built_token_shape(h, cj, tag, t),
        json_of_header(h).len() <= 3072,
    ensures
        is_three_segments(t),
        first_dot(t) <= MAX_HEADER_LENGTH,
        b64url_decoded(header_segment(t)) == Some(json_of_header(h)),
        b64url_decoded(claims_segment(t)) == Some(cj),
        b64url_decoded(tag_segment(t)) == Some(tag),
        authenticated_region(t) == b64url_of(json_of_header(h)) + seq!['.'] + b64url_of(cj),
{
    let s1 = b64url_of(json_of_header(h));
    let s2 = b64url_of(cj);
    let s3 = b64url_of(tag);
    lemma_built_token_parts(s1, s2, s3);
    assert(s1.len() == (json_of_header(h).len() * 4 + 2) / 3);
    assert(s1.len() <= MAX_HEADER_LENGTH);
}

/// Metadata extraction reads nothing but the first segment: two tokens with
/// the same header segment — whatever claims, tag, or further segments
/// follow, however malformed — yield the same metadata outcome. In
/// particular an invalid tag, or one that no key could ever verify, does
/// not stop metadata extraction.
pub proof fn lemma_metadata_reads_only_header_segment(t1: Seq<char>, t2: Seq<char>)
    requires
        header_segment(t1) == header_segment(t2),
    ensures
        metadata_outcome(t1) == metadata_outcome(t2),
{
    lemma_first_dot_props(t1);
    lemma_first_dot_props(t2);
    assert(header_segment(t1).len() == first_dot(t1));
    assert(header_segment(t2).len() == first_dot(t2));
}

/// Dots are counted segment by segment.
proof fn lemma_dot_count_concat(a: Seq<char>, b: Seq<char>)
    ensures
        dot_count(a + b) == dot_count(a) + dot_count(b),
    decreases b.len(),
{
    if b.len() == 0 {
        assert(a + b =~= a);
    } else {
        assert((a + b).drop_last() =~= a + b.drop_last());
        assert((a + b).last() == b.last());
        lemma_dot_count_concat(a, b.drop_last());
    }
}

/// One dot counts as one.
proof fn lemma_dot_count_single()
    ensures
        dot_count(seq!['.']) == 1,
{
    let d = seq!['.'];
    assert(d.drop_last() =~= Seq::<char>::empty());
    assert(dot_count(Seq::<char>::empty()) == 0);
    assert(dot_count(d.drop_last()) == 0);
    assert(d.last() == '.');
}

/// A sequence holds no dot exactly when its dot count is zero.
proof fn lemma_dot_count_zero(s: Seq<char>)
    ensures
        (dot_count(s) == 0) <==> (forall|j: int| 0 <= j < s.len() ==> s[j] != '.'),
    decreases s.len(),
{
    if s.len() > 0 {
        lemma_dot_count_zero(s.drop_last());
        if dot_count(s) == 0 {
            assert forall|j: int| 0 <= j < s.len() implies s[j] != '.' by {
                if j < s.len() - 1 {
                    assert(s.drop_last()[j] == s[j]);
                } else {
                    assert(s.last() == s[j]);
                }
            }
        } else {
            if forall|j: int| 0 <= j < s.len() ==> s[j] != '.' {
                assert forall|j: int| 0 <= j < s.len() - 1 implies s.drop_last()[j] != '.' by {
                    assert(s.drop_last()[j] == s[j]);
                }
                assert(s.last() != '.');
            }
        }
    }
}

/// Three dot-separated segments means exactly two dots: what the verifier
/// accepts structurally is exactly the wire format's `a.b.c` shape, whatever
/// the segments hold — a token with fewer or more segments is rejected with
/// the structural error by `Token::verify`'s contract.
pub proof fn lemma_three_segments_iff_two_dots(s: Seq<char>)
    ensures
        is_three_segments(s) <==> dot_count(s) == 2,
{
    lemma_first_dot_props(s);
    let d1 = first_dot(s);
    if d1 == s.len() {
        lemma_dot_count_zero(s);
        assert(dot_count(s) == 0);
    } else {
        let pre1 = s.subrange(0, d1);
        let rest1 = s.subrange(d1 + 1, s.len() as int);
        lemma_first_dot_props(rest1);
        let d2 = second_dot(s);
        assert(d2 == d1 + 1 + first_dot(rest1));
        assert forall|j: int| 0 <= j < pre1.len() implies pre1[j] != '.' by {
            assert(pre1[j] == s[j]);
        }
        lemma_dot_count_zero(pre1);
        if d2 == s.len() {
            // One dot: everything after it is dot-free.
            assert(s =~= pre1 + seq!['.'] + rest1);
            lemma_dot_count_concat(pre1 + seq!['.'], rest1);
            lemma_dot_count_concat(pre1, seq!['.']);
            lemma_dot_count_single();
            lemma_dot_count_zero(rest1);
            assert(dot_count(s) == 1);
        } else {
            let mid = s.subrange(d1 + 1, d2);
            let rest2 = s.subrange(d2 + 1, s.len() as int);
            lemma_first_dot_props(rest2);
            assert(s =~= pre1 + seq!['.'] + mid + seq!['.'] + rest2);
            lemma_dot_count_concat(pre1 + seq!['.'] + mid + seq!['.'], rest2);
            lemma_dot_count_concat(pre1 + seq!['.'] + mid, seq!['.']);
            lemma_dot_count_concat(pre1 + seq!['.'], mid);
            lemma_dot_count_concat(pre1, seq!['.']);
            lemma_dot_count_single();
            assert forall|j: int| 0 <= j < mid.len() implies mid[j] != '.' by {
                assert(mid[j] == rest1[j]);
            }
            lemma_dot_count_zero(mid);
            lemma_dot_count_zero(rest2);
            assert(dot_count(s) == 2 + dot_count(rest2));
            let d3 = third_dot(s);
            assert(d3 == d2 + 1 + first_dot(rest2));
            if d3 == s.len() {
                assert(dot_count(rest2) == 0);
                assert(is_three_segments(s));
            } else {
                assert(rest2[first_dot(rest2)] == '.');
                assert(dot_count(rest2) != 0);
                assert(dot_count(s) != 2);
            }
        }
    }
}

} // verus!
