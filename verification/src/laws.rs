//! Proved laws of the argument.
//!
//! The cryptographic properties of the protocol — completeness, soundness,
//! binding — rest on the algebra of the pairing, which this crate treats as
//! opaque; they are exercised by the test suite.  What is proved here is what
//! holds of the protocol's structure alone: the verifier and the transcript
//! are deterministic, and the tables of a precomputed SRS always fit the
//! proofs produced for keys of the same length.

use vstd::prelude::*;

use crate::algebra::{Scalar, G1, G2, GT};
use crate::dory::{lg, precomputed_srs, verify_outcome, DORYProof, DORYSRS};
use crate::transcript::chal_of;

verus! {

/// The transcript is deterministic: a challenge is a pure function of the
/// serialized bytes fed to the random oracle, so identical inputs produce
/// identical challenges.
pub proof fn lemma_challenge_deterministic(input1: Seq<u8>, input2: Seq<u8>)
    requires
        input1 == input2,
    ensures
        chal_of(input1) == chal_of(input2),
{
}

/// Re-verification is idempotent: the verifier's decision is a function of
/// the values of the SRS, the keys, the commitments and the proof alone, so
/// running it again on fresh copies of equal contents decides the same way.
pub proof fn lemma_verify_idempotent(
    srs1: DORYSRS,
    srs2: DORYSRS,
    gamma1: Seq<G1>,
    gamma2: Seq<G2>,
    com: (GT, GT, GT),
    proof1: DORYProof,
    proof2: DORYProof,
)
    requires
        srs1.kai@ == srs2.kai@,
        srs1.delta1_l@ == srs2.delta1_l@,
        srs1.delta1_r@ == srs2.delta1_r@,
        srs1.delta2_l@ == srs2.delta2_l@,
        srs1.delta2_r@ == srs2.delta2_r@,
        srs1.ht == srs2.ht,
        proof1.r_commitment_steps@ == proof2.r_commitment_steps@,
        proof1.e1@ == proof2.e1@,
        proof1.e2@ == proof2.e2@,
        proof1.p1 == proof2.p1,
        proof1.p2 == proof2.p2,
        proof1.q == proof2.q,
        proof1.r == proof2.r,
        proof1.r1 == proof2.r1,
        proof1.r2 == proof2.r2,
        proof1.r3 == proof2.r3,
    ensures
        verify_outcome(srs1, gamma1, gamma2, com, proof1) == verify_outcome(
            srs2,
            gamma1,
            gamma2,
            com,
            proof2,
        ),
{
}

/// An SRS can be reused across proofs: the tables that `precompute` derives
/// for keys of length `n` hold exactly as many entries as any proof produced
/// for witnesses of length `n` has rounds, so every such proof satisfies the
/// verifier's consumption precondition against that SRS.
pub proof fn lemma_srs_fits_proofs(
    gamma1: Seq<G1>,
    gamma2: Seq<G2>,
    h1: Seq<G1>,
    h2: Seq<G2>,
    srs: DORYSRS,
    proof: DORYProof,
)
    requires
        precomputed_srs(gamma1, gamma2, h1, h2, srs),
        proof.r_commitment_steps@.len() == lg(gamma1.len()),
    ensures
        proof.r_commitment_steps@.len() == srs.kai@.len(),
        proof.r_commitment_steps@.len() == srs.delta1_l@.len(),
        proof.r_commitment_steps@.len() == srs.delta1_r@.len(),
        proof.r_commitment_steps@.len() == srs.delta2_l@.len(),
        proof.r_commitment_steps@.len() == srs.delta2_r@.len(),
{
}

} // verus!
