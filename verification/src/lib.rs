//! Classical substitution ciphers — Caesar, Vigenère, and one-time pad —
//! over a 27-symbol alphabet: the uppercase letters `A`–`Z` and the space.
//!
//! Every transform maps each data symbol's index through modular arithmetic
//! (always the Euclidean modulus, so decryption never sees a negative index)
//! and is an exact inverse of its counterpart for every valid key.

pub mod alphabet;
pub mod cipher;
pub mod laws;
