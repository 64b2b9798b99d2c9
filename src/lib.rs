//! Public COSE_Key records (RFC 8152, section 7) and their canonical CBOR encoding.
//!
//! A key is written as a CBOR map whose entries come in one fixed order
//! (kty, alg, crv or pk, x, y). Decoding accepts exactly that order, rejects
//! a known label that repeats or comes too late, and stops at the first
//! unknown label, ignoring it and everything after it. Encoding always
//! writes that order, so one key has one encoding.
pub mod buffer;
pub mod cbor;
pub mod keys;
pub mod label;
pub mod laws;
pub mod pqc;
pub mod raw;

pub use heapless_bytes::Bytes;
pub use keys::{
    EcdhEsHkdf256PublicKey, Ed25519PublicKey, P256PublicKey, PublicKey, TotpPublicKey,
    X25519PublicKey,
};
pub use label::Error;
pub use pqc::{Dilithium2PublicKey, Dilithium3PublicKey, Dilithium5PublicKey};
