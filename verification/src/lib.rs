//! A module-lattice key-encapsulation mechanism over the ring
//! `Z_q[X]/(X^256 + 1)` with `q = 3329`, at the smallest parameter set
//! (rank 2), together with the session-key derivation and
//! authenticated-encryption step that consumes its shared secret.
//!
//! Every operation is a pure function of its explicit inputs: key
//! generation, encapsulation and decapsulation take their entropy as
//! parameters, so identical inputs give byte-identical outputs.
use vstd::prelude::*;

pub mod aead;
pub mod bytes;
pub mod codec;
pub mod field;
pub mod kem;
pub mod laws;
pub mod poly;
pub mod sample;
pub mod xof;
pub mod transform;

verus! {

/// The coefficient modulus of the ring.
pub const Q: u16 = 3329;

/// Errors of the engine. Decapsulation of a tampered ciphertext is not an
/// error: implicit rejection returns an unrelated-looking secret instead.
#[derive(Clone, Copy, Debug, PartialEq, Eq, Structural)]
pub enum KemError {
    /// A serialized input has the wrong length, or a coefficient of a
    /// canonical encoding is out of range.
    Format,
    /// An encapsulation key failed format validation.
    InvalidKey,
    /// A tag mismatch in the symmetric layer.
    Authentication,
    /// The rejection-sampling budget was exhausted (cryptographically
    /// negligible for honestly produced seeds).
    Internal,
}

} // verus!
