//! A zero-knowledge inner-pairing-product argument over BLS12-381.
//!
//! Given two committed vectors of group elements of common power-of-two
//! length, the prover convinces a verifier that a third commitment opens to
//! their pairing inner product, without revealing the vectors.  The proof is
//! logarithmic in the vector length: a recursive halving protocol folds the
//! witness and the commitment keys under Fiat–Shamir challenges, and a final
//! Schnorr-style opening closes the recursion with a single pairing equation.

pub mod algebra;
pub mod codec;
pub mod transcript;
pub mod dory;
pub mod laws;
