//! Polymorphic Encryption and Pseudonymisation (PEP) core.
//!
//! ElGamal ciphertexts over the Ristretto group can be transformed without
//! decryption: rerandomised, reshuffled (multiplying the plaintext by a
//! secret factor) and rekeyed (changing which key opens them).  Factors are
//! derived deterministically from secrets and context strings, and Schnorr
//! style zero-knowledge proofs bind a transformation factor to a public
//! commitment.

pub mod arithmetic;
pub mod elgamal;
pub mod high_level;
pub mod primitives;
pub mod utils;
pub mod zkps;
