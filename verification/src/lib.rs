//! Compact serialization for signed/authenticated tokens.
//!
//! A token on the wire is `base64url(header_json) . base64url(claims_json) .
//! base64url(tag)`, with unpadded base64url segments. This crate builds such
//! tokens, verifies them (structure, header-size ceiling, algorithm binding,
//! required key identifier, then the caller's cryptographic callback), and
//! extracts header metadata without any verification. The cryptographic
//! primitives themselves, JSON handling of the caller's claims, and the
//! semantic validation of claims are supplied by the caller as callbacks.

pub mod b64;
pub mod error;
pub mod json;
pub mod jwt_header;
pub mod text;
pub mod token;

pub use error::Error;
pub use jwt_header::JWTHeader;
pub use jwt_header::VerificationOptions;
pub use token::Token;
pub use token::TokenMetadata;
pub use token::MAX_HEADER_LENGTH;
