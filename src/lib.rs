//! Key wrapping for encrypted container image layers through cryptographic
//! tokens addressed by PKCS#11 URIs.
//!
//! The library reconciles the key-supply channels of a parameter map (inline
//! public keys, combined key descriptors and a token configuration) into the
//! list of token-backed keys that the token primitives work on. Parsing of
//! descriptors and the token primitives themselves are done by the caller,
//! who hands their outcomes to the functions here.

pub mod params;
pub mod keys;
pub mod wrapper;
