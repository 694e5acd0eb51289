use std::collections::BTreeMap;

use ct_codecs::Base64UrlSafeNoPadding;
use ct_codecs::Encoder;
use jwt_compact::Error;
use jwt_compact::JWTHeader;
use jwt_compact::Token;
use jwt_compact::VerificationOptions;

/// A keyed FNV-1a 64-bit checksum standing in for a MAC in these tests:
/// any single-byte change to the input changes the result.
fn mac(secret: &str, data: &[u8]) -> Vec<u8> {
    let mut h: u64 = 0xcbf29ce484222325;
    for &b in secret.as_bytes().iter().chain(data.iter()) {
        h ^= b as u64;
        h = h.wrapping_mul(0x100000001b3);
    }
    h.to_be_bytes().to_vec()
}

fn sign_with(secret: &'static str) -> impl FnOnce(&str) -> Result<Vec<u8>, Error> {
    move |authenticated: &str| Ok(mac(secret, authenticated.as_bytes()))
}

fn check_with(secret: &'static str) -> impl FnOnce(&str, &[u8]) -> Result<(), Error> {
    move |authenticated: &str, tag: &[u8]| {
        if mac(secret, authenticated.as_bytes()) == tag {
            Ok(())
        } else {
            Err(Error::InvalidAuthenticationTag)
        }
    }
}

fn accept_claims(_c: &BTreeMap<String, String>, _o: &VerificationOptions) -> Result<(), Error> {
    Ok(())
}

fn sample_claims() -> BTreeMap<String, String> {
    let mut claims = BTreeMap::new();
    claims.insert("sub".to_string(), "someone".to_string());
    claims.insert("iss".to_string(), "issuer".to_string());
    claims
}

#[test]
fn round_trip_returns_equal_claims() {
    let mut header = JWTHeader::with_algorithm("HS256".to_string());
    header.key_id = Some("k1".to_string());
    let claims = sample_claims();
    let token = Token::build(&header, &claims, sign_with("secret")).unwrap();
    let out: BTreeMap<String, String> =
        Token::verify("HS256", &token, None, check_with("secret"), accept_claims).unwrap();
    assert_eq!(out, claims);
}

#[test]
fn round_trip_with_options_satisfied() {
    let mut header = JWTHeader::with_algorithm("HS256".to_string());
    header.key_id = Some("k1".to_string());
    let claims = sample_claims();
    let token = Token::build(&header, &claims, sign_with("secret")).unwrap();
    let options = VerificationOptions {
        required_key_id: Some("k1".to_string()),
    };
    let out: BTreeMap<String, String> = Token::verify(
        "HS256",
        &token,
        Some(options),
        check_with("secret"),
        accept_claims,
    )
    .unwrap();
    assert_eq!(out, claims);
}

#[test]
fn tampering_with_any_byte_fails_verification() {
    let header = JWTHeader::with_algorithm("HS256".to_string());
    let claims = sample_claims();
    let token = Token::build(&header, &claims, sign_with("secret")).unwrap();
    for i in 0..token.len() {
        let mut bytes = token.clone().into_bytes();
        bytes[i] ^= 1;
        let Ok(tampered) = String::from_utf8(bytes) else {
            continue;
        };
        let out: Result<BTreeMap<String, String>, Error> = Token::verify(
            "HS256",
            &tampered,
            None,
            check_with("secret"),
            accept_claims,
        );
        assert!(out.is_err(), "tampered byte {i} was accepted");
    }
}

#[test]
fn two_segments_are_rejected() {
    let out: Result<BTreeMap<String, String>, Error> = Token::verify(
        "HS256",
        "eyJhbGciOiJIUzI1NiJ9.eyJ4IjoiMSJ9",
        None,
        |_a: &str, _t: &[u8]| -> Result<(), Error> { unreachable!() },
        accept_claims,
    );
    assert_eq!(out.unwrap_err(), Error::CompactEncodingError);
}

#[test]
fn one_segment_is_rejected() {
    let out: Result<BTreeMap<String, String>, Error> = Token::verify(
        "HS256",
        "eyJhbGciOiJIUzI1NiJ9",
        None,
        |_a: &str, _t: &[u8]| -> Result<(), Error> { unreachable!() },
        accept_claims,
    );
    assert_eq!(out.unwrap_err(), Error::CompactEncodingError);
}

#[test]
fn four_segments_are_rejected() {
    let header = JWTHeader::with_algorithm("HS256".to_string());
    let claims = sample_claims();
    let token = Token::build(&header, &claims, sign_with("secret")).unwrap();
    let extended = format!("{token}.AAAA");
    let out: Result<BTreeMap<String, String>, Error> = Token::verify(
        "HS256",
        &extended,
        None,
        |_a: &str, _t: &[u8]| -> Result<(), Error> { unreachable!() },
        accept_claims,
    );
    assert_eq!(out.unwrap_err(), Error::CompactEncodingError);
}

#[test]
fn trailing_dot_is_rejected() {
    let header = JWTHeader::with_algorithm("HS256".to_string());
    let claims = sample_claims();
    let token = Token::build(&header, &claims, sign_with("secret")).unwrap();
    let trailing = format!("{token}.");
    let out: Result<BTreeMap<String, String>, Error> = Token::verify(
        "HS256",
        &trailing,
        None,
        |_a: &str, _t: &[u8]| -> Result<(), Error> { unreachable!() },
        accept_claims,
    );
    assert_eq!(out.unwrap_err(), Error::CompactEncodingError);
}

#[test]
fn empty_token_is_rejected() {
    let out: Result<BTreeMap<String, String>, Error> = Token::verify(
        "HS256",
        "",
        None,
        |_a: &str, _t: &[u8]| -> Result<(), Error> { unreachable!() },
        accept_claims,
    );
    assert_eq!(out.unwrap_err(), Error::CompactEncodingError);
}

#[test]
fn oversized_header_is_rejected_before_any_decoding() {
    let token = format!("{}.claims.tag", "A".repeat(4097));
    let out: Result<BTreeMap<String, String>, Error> = Token::verify(
        "HS256",
        &token,
        None,
        |_a: &str, _t: &[u8]| -> Result<(), Error> { unreachable!() },
        |_c: &BTreeMap<String, String>, _o: &VerificationOptions| -> Result<(), Error> {
            unreachable!()
        },
    );
    assert_eq!(out.unwrap_err(), Error::HeaderTooLarge);
    assert_eq!(
        Token::decode_metadata(&token).unwrap_err(),
        Error::HeaderTooLarge
    );
}

#[test]
fn header_at_the_ceiling_is_not_rejected_for_size() {
    // 4096 characters of valid base64url that do not decode to JSON.
    let token = format!("{}.claims.tag", "A".repeat(4096));
    let out: Result<BTreeMap<String, String>, Error> = Token::verify(
        "HS256",
        &token,
        None,
        |_a: &str, _t: &[u8]| -> Result<(), Error> { unreachable!() },
        accept_claims,
    );
    assert_eq!(out.unwrap_err(), Error::DeserializationError);
}

#[test]
fn algorithm_binding_is_checked_before_cryptography() {
    let header = JWTHeader::with_algorithm("HS256".to_string());
    let claims = sample_claims();
    let token = Token::build(&header, &claims, sign_with("secret")).unwrap();
    // Even a verifier that would accept anything is never consulted.
    let out: Result<BTreeMap<String, String>, Error> = Token::verify(
        "RS256",
        &token,
        None,
        |_a: &str, _t: &[u8]| -> Result<(), Error> { Ok(()) },
        accept_claims,
    );
    assert_eq!(out.unwrap_err(), Error::AlgorithmMismatch);
}

#[test]
fn required_key_id_missing_in_header() {
    let header = JWTHeader::with_algorithm("HS256".to_string());
    let claims = sample_claims();
    let token = Token::build(&header, &claims, sign_with("secret")).unwrap();
    let options = VerificationOptions {
        required_key_id: Some("k1".to_string()),
    };
    let out: Result<BTreeMap<String, String>, Error> = Token::verify(
        "HS256",
        &token,
        Some(options),
        |_a: &str, _t: &[u8]| -> Result<(), Error> { unreachable!() },
        accept_claims,
    );
    assert_eq!(out.unwrap_err(), Error::MissingJWTKeyIdentifier);
}

#[test]
fn required_key_id_mismatch() {
    let mut header = JWTHeader::with_algorithm("HS256".to_string());
    header.key_id = Some("k2".to_string());
    let claims = sample_claims();
    let token = Token::build(&header, &claims, sign_with("secret")).unwrap();
    let options = VerificationOptions {
        required_key_id: Some("k1".to_string()),
    };
    let out: Result<BTreeMap<String, String>, Error> = Token::verify(
        "HS256",
        &token,
        Some(options),
        |_a: &str, _t: &[u8]| -> Result<(), Error> { unreachable!() },
        accept_claims,
    );
    assert_eq!(out.unwrap_err(), Error::KeyIdentifierMismatch);
}

#[test]
fn required_key_id_match_proceeds_to_cryptography() {
    let mut header = JWTHeader::with_algorithm("HS256".to_string());
    header.key_id = Some("k1".to_string());
    let claims = sample_claims();
    let token = Token::build(&header, &claims, sign_with("secret")).unwrap();
    let options = VerificationOptions {
        required_key_id: Some("k1".to_string()),
    };
    // The cryptographic callback runs and its rejection is the outcome.
    let out: Result<BTreeMap<String, String>, Error> = Token::verify(
        "HS256",
        &token,
        Some(options),
        |_a: &str, _t: &[u8]| -> Result<(), Error> { Err(Error::InvalidAuthenticationTag) },
        accept_claims,
    );
    assert_eq!(out.unwrap_err(), Error::InvalidAuthenticationTag);
}

#[test]
fn verification_uses_the_literal_encoded_substring() {
    // A header serialized with unusual member order and whitespace: any
    // re-serialization of the parsed header would differ from these bytes,
    // so verification succeeds only on the literal substring of the token.
    let header_json = "{ \"kid\" : \"a\" , \"alg\" : \"HS256\" }";
    let claims_json = "{\"x\":\"1\"}";
    let h64 = Base64UrlSafeNoPadding::encode_to_string(header_json).unwrap();
    let c64 = Base64UrlSafeNoPadding::encode_to_string(claims_json).unwrap();
    let authenticated = format!("{h64}.{c64}");
    let tag = mac("secret", authenticated.as_bytes());
    let t64 = Base64UrlSafeNoPadding::encode_to_string(&tag).unwrap();
    let token = format!("{authenticated}.{t64}");
    let out: BTreeMap<String, String> =
        Token::verify("HS256", &token, None, check_with("secret"), accept_claims).unwrap();
    let mut expected = BTreeMap::new();
    expected.insert("x".to_string(), "1".to_string());
    assert_eq!(out, expected);
    let metadata = Token::decode_metadata(&token).unwrap();
    assert_eq!(metadata.algorithm(), "HS256");
    assert_eq!(metadata.key_id(), Some("a"));
}

#[test]
fn metadata_succeeds_on_unverifiable_tokens() {
    let mut header = JWTHeader::with_algorithm("ES384".to_string());
    header.key_id = Some("rotating".to_string());
    let claims = sample_claims();
    let token = Token::build(&header, &claims, sign_with("secret")).unwrap();
    // Replace claims and tag with garbage that is not even base64.
    let header_segment = token.split('.').next().unwrap();
    let broken = format!("{header_segment}.!!!.%%%");
    let metadata = Token::decode_metadata(&broken).unwrap();
    assert_eq!(metadata.algorithm(), "ES384");
    assert_eq!(metadata.key_id(), Some("rotating"));
    // The same broken token cannot be verified.
    let out: Result<BTreeMap<String, String>, Error> =
        Token::verify("ES384", &broken, None, check_with("secret"), accept_claims);
    assert!(out.is_err());
}

#[test]
fn metadata_needs_no_second_segment() {
    let h64 =
        Base64UrlSafeNoPadding::encode_to_string("{\"alg\":\"HS256\",\"typ\":\"JWT\"}").unwrap();
    let metadata = Token::decode_metadata(&h64).unwrap();
    assert_eq!(metadata.algorithm(), "HS256");
    assert_eq!(metadata.signature_type(), Some("JWT"));
}

#[test]
fn header_that_is_not_base64_is_rejected() {
    let out: Result<BTreeMap<String, String>, Error> = Token::verify(
        "HS256",
        "(((.AAAA.AAAA",
        None,
        |_a: &str, _t: &[u8]| -> Result<(), Error> { unreachable!() },
        accept_claims,
    );
    assert_eq!(out.unwrap_err(), Error::Base64DecodeError);
    assert_eq!(
        Token::decode_metadata("(((.AAAA.AAAA").unwrap_err(),
        Error::Base64DecodeError
    );
}

#[test]
fn header_that_is_not_json_is_rejected() {
    let h64 = Base64UrlSafeNoPadding::encode_to_string("not json at all").unwrap();
    let token = format!("{h64}.AAAA.AAAA");
    let out: Result<BTreeMap<String, String>, Error> = Token::verify(
        "HS256",
        &token,
        None,
        |_a: &str, _t: &[u8]| -> Result<(), Error> { unreachable!() },
        accept_claims,
    );
    assert_eq!(out.unwrap_err(), Error::DeserializationError);
}

#[test]
fn header_without_algorithm_is_rejected() {
    let h64 = Base64UrlSafeNoPadding::encode_to_string("{\"kid\":\"k1\"}").unwrap();
    let token = format!("{h64}.AAAA.AAAA");
    let out: Result<BTreeMap<String, String>, Error> = Token::verify(
        "HS256",
        &token,
        None,
        |_a: &str, _t: &[u8]| -> Result<(), Error> { unreachable!() },
        accept_claims,
    );
    assert_eq!(out.unwrap_err(), Error::DeserializationError);
    assert_eq!(
        Token::decode_metadata(&token).unwrap_err(),
        Error::DeserializationError
    );
}

#[test]
fn tag_that_is_not_base64_is_rejected_before_cryptography() {
    let header = JWTHeader::with_algorithm("HS256".to_string());
    let claims = sample_claims();
    let token = Token::build(&header, &claims, sign_with("secret")).unwrap();
    let mut parts = token.split('.');
    let h64 = parts.next().unwrap();
    let c64 = parts.next().unwrap();
    let broken = format!("{h64}.{c64}.===");
    let out: Result<BTreeMap<String, String>, Error> = Token::verify(
        "HS256",
        &broken,
        None,
        |_a: &str, _t: &[u8]| -> Result<(), Error> { unreachable!() },
        accept_claims,
    );
    assert_eq!(out.unwrap_err(), Error::Base64DecodeError);
}

#[test]
fn claims_that_are_not_base64_fail_after_cryptography() {
    let h64 = Base64UrlSafeNoPadding::encode_to_string("{\"alg\":\"HS256\"}").unwrap();
    let authenticated = format!("{h64}.!!!");
    let tag = mac("secret", authenticated.as_bytes());
    let t64 = Base64UrlSafeNoPadding::encode_to_string(&tag).unwrap();
    let token = format!("{authenticated}.{t64}");
    let out: Result<BTreeMap<String, String>, Error> =
        Token::verify("HS256", &token, None, check_with("secret"), accept_claims);
    assert_eq!(out.unwrap_err(), Error::Base64DecodeError);
}

#[test]
fn claims_that_are_not_json_fail_after_cryptography() {
    let h64 = Base64UrlSafeNoPadding::encode_to_string("{\"alg\":\"HS256\"}").unwrap();
    let c64 = Base64UrlSafeNoPadding::encode_to_string("not json").unwrap();
    let authenticated = format!("{h64}.{c64}");
    let tag = mac("secret", authenticated.as_bytes());
    let t64 = Base64UrlSafeNoPadding::encode_to_string(&tag).unwrap();
    let token = format!("{authenticated}.{t64}");
    let out: Result<BTreeMap<String, String>, Error> =
        Token::verify("HS256", &token, None, check_with("secret"), accept_claims);
    assert_eq!(out.unwrap_err(), Error::DeserializationError);
}

#[test]
fn claims_validation_failure_propagates() {
    let header = JWTHeader::with_algorithm("HS256".to_string());
    let claims = sample_claims();
    let token = Token::build(&header, &claims, sign_with("secret")).unwrap();
    let out: Result<BTreeMap<String, String>, Error> = Token::verify(
        "HS256",
        &token,
        None,
        check_with("secret"),
        |_c: &BTreeMap<String, String>, _o: &VerificationOptions| -> Result<(), Error> {
            Err(Error::ClaimsValidationError)
        },
    );
    assert_eq!(out.unwrap_err(), Error::ClaimsValidationError);
}

#[test]
fn unserializable_claims_fail_to_build() {
    // JSON objects need string keys; a map with tuple keys cannot serialize.
    let mut claims: BTreeMap<(u8, u8), u8> = BTreeMap::new();
    claims.insert((1, 2), 3);
    let out = Token::build(
        &JWTHeader::with_algorithm("HS256".to_string()),
        &claims,
        |_a: &str| -> Result<Vec<u8>, Error> { unreachable!() },
    );
    assert_eq!(out.unwrap_err(), Error::SerializationError);
}

#[test]
fn signing_failure_propagates() {
    let header = JWTHeader::with_algorithm("HS256".to_string());
    let claims = sample_claims();
    let out = Token::build(&header, &claims, |_a: &str| -> Result<Vec<u8>, Error> {
        Err(Error::InvalidAuthenticationTag)
    });
    assert_eq!(out.unwrap_err(), Error::InvalidAuthenticationTag);
}

#[test]
fn every_header_field_round_trips() {
    let header = JWTHeader {
        algorithm: "PS384".to_string(),
        content_type: Some("cty-v".to_string()),
        key_set_url: Some("https://example.invalid/jwks".to_string()),
        public_key: Some("pk-v".to_string()),
        key_id: Some("kid-v".to_string()),
        certificate_url: Some("https://example.invalid/cert".to_string()),
        certificate_chain: Some("chain-v".to_string()),
        certificate_sha1_thumbprint: Some("sha1-v".to_string()),
        certificate_sha256_thumbprint: Some("sha256-v".to_string()),
        signature_type: Some("JWT".to_string()),
        critical: Some("crit-v".to_string()),
    };
    let claims = sample_claims();
    let token = Token::build(&header, &claims, sign_with("secret")).unwrap();
    let metadata = Token::decode_metadata(&token).unwrap();
    assert_eq!(metadata.algorithm(), "PS384");
    assert_eq!(metadata.content_type(), Some("cty-v"));
    assert_eq!(metadata.key_set_url(), Some("https://example.invalid/jwks"));
    assert_eq!(metadata.public_key(), Some("pk-v"));
    assert_eq!(metadata.key_id(), Some("kid-v"));
    assert_eq!(
        metadata.certificate_url(),
        Some("https://example.invalid/cert")
    );
    assert_eq!(metadata.certificate_chain(), Some("chain-v"));
    assert_eq!(metadata.certificate_sha1_thumbprint(), Some("sha1-v"));
    assert_eq!(metadata.certificate_sha256_thumbprint(), Some("sha256-v"));
    assert_eq!(metadata.signature_type(), Some("JWT"));
    assert_eq!(metadata.critical(), Some("crit-v"));
}

#[test]
fn absent_fields_stay_absent_and_empty_fields_stay_empty() {
    let mut header = JWTHeader::with_algorithm("HS256".to_string());
    header.key_id = Some(String::new());
    let claims = sample_claims();
    let token = Token::build(&header, &claims, sign_with("secret")).unwrap();
    let metadata = Token::decode_metadata(&token).unwrap();
    assert_eq!(metadata.key_id(), Some(""));
    assert_eq!(metadata.content_type(), None);
}

#[test]
fn header_values_needing_escapes_round_trip() {
    let mut header = JWTHeader::with_algorithm("HS256".to_string());
    header.key_id = Some("quote\" backslash\\ newline\n tab\t null\u{0} acute\u{e9}".to_string());
    let claims = sample_claims();
    let token = Token::build(&header, &claims, sign_with("secret")).unwrap();
    let metadata = Token::decode_metadata(&token).unwrap();
    assert_eq!(
        metadata.key_id(),
        Some("quote\" backslash\\ newline\n tab\t null\u{0} acute\u{e9}")
    );
}

#[test]
fn error_descriptions_are_not_empty() {
    let kinds = [
        Error::CompactEncodingError,
        Error::HeaderTooLarge,
        Error::AlgorithmMismatch,
        Error::MissingJWTKeyIdentifier,
        Error::KeyIdentifierMismatch,
        Error::Base64DecodeError,
        Error::SerializationError,
        Error::DeserializationError,
        Error::InvalidAuthenticationTag,
        Error::ClaimsValidationError,
        Error::Overflow,
    ];
    for kind in kinds {
        assert!(!kind.description().is_empty());
    }
}

#[test]
fn claims_can_be_any_json_value() {
    let header = JWTHeader::with_algorithm("HS256".to_string());
    let mut object = serde_json::Map::new();
    object.insert(
        "count".to_string(),
        serde_json::Value::Number(serde_json::Number::from(7u32)),
    );
    let claims = serde_json::Value::Object(object);
    let token = Token::build(&header, &claims, sign_with("secret")).unwrap();
    let out: serde_json::Value = Token::verify(
        "HS256",
        &token,
        None,
        check_with("secret"),
        |_c: &serde_json::Value, _o: &VerificationOptions| -> Result<(), Error> { Ok(()) },
    )
    .unwrap();
    assert_eq!(out, claims);
}
