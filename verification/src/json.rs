//! The header's JSON form.
//!
//! Serialization is implemented and verified here: the header becomes a JSON
//! object with one string member per present field, in a fixed order, with
//! the exact escaping given by [`escape_byte`]. Parsing an attacker-supplied
//! header is delegated to `serde_json` behind a trusted wrapper that returns
//! the object as key/value pairs; turning those pairs into a header is
//! verified logic again.

use vstd::prelude::*;
use vstd::string::StringSliceAdditionalSpecFns;
use vstd::utf8::encode_utf8;

use crate::error::Error;
use crate::jwt_header::opt_view;
use crate::jwt_header::HeaderView;
use crate::jwt_header::JWTHeader;
use crate::text::str_eq;

verus! {

/// The byte for an ASCII hexadecimal digit (lower case), for `n < 16`.
pub open spec fn hex_digit(n: u8) -> u8 {
    if n < 10 {
        (48 + n) as u8
    } else {
        (87 + n) as u8
    }
}

/// How one byte of a string is written inside a JSON string literal:
/// `"` and `\` get a backslash escape, control bytes become `\u00XX`,
/// everything else (including UTF-8 continuation bytes) is written as is.
pub open spec fn escape_byte(x: u8) -> Seq<u8> {
    if x == 34 {
        seq![92u8, 34u8]
    } else if x == 92 {
        seq![92u8, 92u8]
    } else if x < 32 {
        seq![92u8, 117u8, 48u8, 48u8, hex_digit(x / 16), hex_digit(x % 16)]
    } else {
        seq![x]
    }
}

/// A byte sequence written inside a JSON string literal, byte by byte.
pub open spec fn json_escaped(b: Seq<u8>) -> Seq<u8>
    decreases b.len(),
{
    if b.len() == 0 {
        Seq::empty()
    } else {
        json_escaped(b.drop_last()) + escape_byte(b.last())
    }
}

/// One JSON object member `"key":"value"`, for a key that needs no escaping.
pub open spec fn member(k: Seq<char>, v: Seq<char>) -> Seq<u8> {
    seq![34u8] + encode_utf8(k) + seq![34u8, 58u8, 34u8] + json_escaped(encode_utf8(v)) + seq![34u8]
}

/// An optional member: nothing when absent, `,"key":"value"` when present.
pub open spec fn opt_member(k: Seq<char>, v: Option<Seq<char>>) -> Seq<u8> {
    match v {
        None => Seq::empty(),
        Some(s) => seq![44u8] + member(k, s),
    }
}

/// The JSON serialization of a header: the `alg` member first, then every
/// present optional field under its wire name, in a fixed order.
pub open spec fn json_of_header(h: HeaderView) -> Seq<u8> {
    seq![123u8] + member("alg"@, h.algorithm) + opt_member("cty"@, h.content_type) + opt_member(
        "jku"@,
        h.key_set_url,
    ) + opt_member("jwk"@, h.public_key) + opt_member("kid"@, h.key_id) + opt_member(
        "x5u"@,
        h.certificate_url,
    ) + opt_member("x5c"@, h.certificate_chain) + opt_member(
        "x5t"@,
        h.certificate_sha1_thumbprint,
    ) + opt_member("x5t#S256"@, h.certificate_sha256_thumbprint) + opt_member(
        "typ"@,
        h.signature_type,
    ) + opt_member("crit"@, h.critical) + seq![125u8]
}

/// Appends the bytes of `b` to `out` unchanged.
fn push_raw(out: &mut Vec<u8>, b: &[u8])
    ensures
        final(out)@ == old(out)@ + b@,
{
    let ghost orig = out@;
    let n = b.len();
    let mut i: usize = 0;
    while i < n
        invariant
            0 <= i <= n,
            n == b@.len(),
            out@ == orig + b@.take(i as int),
        decreases n - i,
    {
        out.push(b[i]);
        proof {
            assert(orig + b@.take(i as int) + seq![b@[i as int]] =~= orig + b@.take(i + 1));
        }
        i += 1;
    }
    proof {
        assert(b@.take(n as int) =~= b@);
    }
}

/// Appends the escaped form of `b` to `out`.
fn push_escaped(out: &mut Vec<u8>, b: &[u8])
    ensures
        final(out)@ == old(out)@ + json_escaped(b@),
{
    let ghost orig = out@;
    let n = b.len();
    let mut i: usize = 0;
    while i < n
        invariant
            0 <= i <= n,
            n == b@.len(),
            out@ == orig + json_escaped(b@.take(i as int)),
        decreases n - i,
    {
        let x = b[i];
        if x == 34 {
            out.push(92);
            out.push(34);
        } else if x == 92 {
            out.push(92);
            out.push(92);
        } else if x < 32 {
            out.push(92);
            out.push(117);
            out.push(48);
            out.push(48);
            out.push(if x / 16 < 10 {
                48 + x / 16
            } else {
                87 + x / 16
            });
            out.push(if x % 16 < 10 {
                48 + x % 16
            } else {
                87 + x % 16
            });
        } else {
            out.push(x);
        }
        proof {
            assert(b@.take(i + 1).drop_last() =~= b@.take(i as int));
            assert(b@.take(i + 1).last() == b@[i as int]);
            assert(out@ =~= orig + json_escaped(b@.take(i + 1)));
        }
        i += 1;
    }
    proof {
        assert(b@.take(n as int) =~= b@);
    }
}

/// Appends `"key":"value"` to `out`, escaping the value.
fn push_member(out: &mut Vec<u8>, key: &str, val: &str)
    ensures
        final(out)@ == old(out)@ + member(key@, val@),
{
    let ghost orig = out@;
    out.push(34);
    push_raw(out, key.as_bytes());
    out.push(34);
    out.push(58);
    out.push(34);
    push_escaped(out, val.as_bytes());
    out.push(34);
    proof {
        assert(out@ =~= orig + member(key@, val@));
    }
}

/// Appends `,"key":"value"` to `out` when the field is present.
fn push_opt_member(out: &mut Vec<u8>, key: &str, val: &Option<String>)
    ensures
        final(out)@ == old(out)@ + opt_member(key@, opt_view(*val)),
{
    let ghost orig = out@;
    match val {
        Some(s) => {
            out.push(44);
            push_member(out, key, s.as_str());
            proof {
                assert(out@ =~= orig + opt_member(key@, opt_view(*val)));
            }
        },
        None => {
            proof {
                assert(out@ =~= orig + opt_member(key@, opt_view(*val)));
            }
        },
    }
}

/// Serializes a header to its JSON bytes.
pub fn header_to_json(h: &JWTHeader) -> (r: Vec<u8>)
    ensures
        r@ == json_of_header(h@),
{
    let mut out: Vec<u8> = Vec::new();
    out.push(123);
    push_member(&mut out, "alg", h.algorithm.as_str());
    push_opt_member(&mut out, "cty", &h.content_type);
    push_opt_member(&mut out, "jku", &h.key_set_url);
    push_opt_member(&mut out, "jwk", &h.public_key);
    push_opt_member(&mut out, "kid", &h.key_id);
    push_opt_member(&mut out, "x5u", &h.certificate_url);
    push_opt_member(&mut out, "x5c", &h.certificate_chain);
    push_opt_member(&mut out, "x5t", &h.certificate_sha1_thumbprint);
    push_opt_member(&mut out, "x5t#S256", &h.certificate_sha256_thumbprint);
    push_opt_member(&mut out, "typ", &h.signature_type);
    push_opt_member(&mut out, "crit", &h.critical);
    out.push(125);
    proof {
        assert(out@ =~= json_of_header(h@));
    }
    out
}

/// The key/value pairs of the JSON object that `b` holds, when `b` is a JSON
/// object whose values are all strings, as `serde_json` parses it into an
/// ordered string map: keys unique and sorted, a duplicate key keeping its
/// last value. `None` when `b` is not such an object.
pub uninterp spec fn json_object_of(b: Seq<u8>) -> Option<Seq<(Seq<char>, Seq<char>)>>;

/// The views of a vector of string pairs.
pub open spec fn pairs_view(ps: Seq<(String, String)>) -> Seq<(Seq<char>, Seq<char>)> {
    ps.map_values(|p: (String, String)| (p.0@, p.1@))
}

/// Relies on `serde_json::from_slice` into an ordered string-keyed map of
/// strings: it deterministically parses a JSON object with string values
/// (and only such a document) from `b`, and the map hands its entries back
/// in key order.
#[verifier::external_body]
pub(crate) fn parse_json_object(b: &[u8]) -> (r: Result<Vec<(String, String)>, Error>)
    ensures
        (r is Ok) == (json_object_of(b@) is Some),
        r matches Ok(v) ==> pairs_view(v@) == json_object_of(b@).unwrap(),
        r matches Err(e) ==> e == Error::DeserializationError,
{
    match serde_json::from_slice::<std::collections::BTreeMap<String, String>>(b) {
        Ok(m) => Ok(m.into_iter().collect()),
        Err(_) => Err(Error::DeserializationError),
    }
}

/// The value under `k` in the pair list `m`, if any.
pub open spec fn obj_get(m: Seq<(Seq<char>, Seq<char>)>, k: Seq<char>) -> Option<Seq<char>>
    decreases m.len(),
{
    if m.len() == 0 {
        None
    } else if m[0].0 == k {
        Some(m[0].1)
    } else {
        obj_get(m.drop_first(), k)
    }
}

/// Looks a key up among the parsed object's pairs.
fn find_field(pairs: &Vec<(String, String)>, key: &str) -> (r: Option<String>)
    ensures
        opt_view(r) == obj_get(pairs_view(pairs@), key@),
{
    let ghost m = pairs_view(pairs@);
    let n = pairs.len();
    let mut i: usize = 0;
    proof {
        assert(m.skip(0) =~= m);
    }
    while i < n
        invariant
            0 <= i <= n,
            n == pairs@.len(),
            m == pairs_view(pairs@),
            m.len() == n,
            obj_get(m, key@) == obj_get(m.skip(i as int), key@),
        decreases n - i,
    {
        if str_eq(pairs[i].0.as_str(), key) {
            proof {
                assert(m.skip(i as int)[0] == m[i as int]);
            }
            return Some(pairs[i].1.clone());
        }
        proof {
            assert(m.skip(i as int)[0] == m[i as int]);
            assert(m.skip(i as int).drop_first() =~= m.skip(i + 1));
        }
        i += 1;
    }
    proof {
        assert(m.skip(n as int) =~= Seq::<(Seq<char>, Seq<char>)>::empty());
    }
    None
}

/// The header described by a parsed JSON object: present exactly when the
/// required `alg` member is, each optional field read from its wire name.
pub open spec fn header_of_object(m: Seq<(Seq<char>, Seq<char>)>) -> Option<HeaderView> {
    match obj_get(m, "alg"@) {
        None => None,
        Some(alg) => Some(
            HeaderView {
                algorithm: alg,
                content_type: obj_get(m, "cty"@),
                key_set_url: obj_get(m, "jku"@),
                public_key: obj_get(m, "jwk"@),
                key_id: obj_get(m, "kid"@),
                certificate_url: obj_get(m, "x5u"@),
                certificate_chain: obj_get(m, "x5c"@),
                certificate_sha1_thumbprint: obj_get(m, "x5t"@),
                certificate_sha256_thumbprint: obj_get(m, "x5t#S256"@),
                signature_type: obj_get(m, "typ"@),
                critical: obj_get(m, "crit"@),
            },
        ),
    }
}

/// Builds a header from the parsed object's pairs; fails exactly when the
/// required `alg` member is absent.
pub(crate) fn header_from_pairs(pairs: &Vec<(String, String)>) -> (r: Result<JWTHeader, Error>)
    ensures
        (r is Ok) == (header_of_object(pairs_view(pairs@)) is Some),
        r matches Ok(h) ==> Some(h@) == header_of_object(pairs_view(pairs@)),
        r matches Err(e) ==> e == Error::DeserializationError,
{
    let algorithm = match find_field(pairs, "alg") {
        Some(a) => a,
        None => {
            return Err(Error::DeserializationError);
        },
    };
    let h = JWTHeader {
        algorithm,
        content_type: find_field(pairs, "cty"),
        key_set_url: find_field(pairs, "jku"),
        public_key: find_field(pairs, "jwk"),
        key_id: find_field(pairs, "kid"),
        certificate_url: find_field(pairs, "x5u"),
        certificate_chain: find_field(pairs, "x5c"),
        certificate_sha1_thumbprint: find_field(pairs, "x5t"),
        certificate_sha256_thumbprint: find_field(pairs, "x5t#S256"),
        signature_type: find_field(pairs, "typ"),
        critical: find_field(pairs, "crit"),
    };
    Ok(h)
}

/// Relies on `serde_json::to_vec`: serializes the caller's claims value with
/// the caller's own `Serialize` implementation, about which nothing further
/// can be assumed here.
#[verifier::external_body]
pub(crate) fn claims_to_json<CustomClaims: serde::Serialize>(claims: &CustomClaims) -> (r: Result<
    Vec<u8>,
    Error,
>)
    ensures
        r matches Err(e) ==> e == Error::SerializationError,
{
    serde_json::to_vec(claims).map_err(|_| Error::SerializationError)
}

/// Relies on `serde_json::from_slice`: parses the claims bytes with the
/// caller's own `Deserialize` implementation, about which nothing further
/// can be assumed here.
#[verifier::external_body]
pub(crate) fn claims_from_json<CustomClaims: serde::de::DeserializeOwned>(b: &[u8]) -> (r: Result<
    CustomClaims,
    Error,
>)
    ensures
        r matches Err(e) ==> e == Error::DeserializationError,
{
    serde_json::from_slice(b).map_err(|_| Error::DeserializationError)
}

} // verus!
