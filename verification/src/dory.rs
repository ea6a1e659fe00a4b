//! The inner-pairing-product argument: setup, precompute, commit, prove and
//! verify.
//!
//! Given committed vectors `v1` and `v2` of common power-of-two length `n`,
//! the prover shows that a commitment `c` opens to the pairing inner product
//! `<v1, v2>`.  Each recursion round halves the witness and the keys under
//! two Fiat–Shamir challenges, and a terminal Schnorr-style opening closes
//! the recursion with one pairing equation.

use vstd::prelude::*;

use ark_std::rand::rngs::StdRng;

use crate::algebra::{
    fr_add, fr_bytes, fr_mul, fr_neg, fr_neg_of, fr_prod, fr_rand, fr_sum, fr_to_bytes,
    g1_add, g1_bytes, g1_rand, g1_scale, g1_scaled, g1_sum, g1_to_bytes, g2_add, g2_bytes, g2_rand,
    g2_scale, g2_scaled, g2_sum, g2_to_bytes, gt_add, gt_bytes, gt_eq, gt_scale, gt_scaled, gt_sum,
    gt_to_bytes, pairing, pairing_of, Scalar, G1, G2, GT,
};
use crate::codec::extend_bytes;
use crate::transcript::{
    chal_of, challenge_inverse_plain, challenge_with_inverse, draw_challenge, drawn_from, inv_of,
    invertible, nonce_from, some_nonce_accepted,
};

verus! {

/// The error of the argument: vector lengths that do not match, or a length
/// that is not a power of two; and the cryptographically negligible case of a
/// challenge retry loop that exhausts its counter space without drawing an
/// invertible scalar.
#[derive(Clone, Copy, Debug, PartialEq, Eq, Structural)]
pub enum DoryError {
    MessageLengthInvalid(usize, usize),
    ChallengeInvalid,
}

/// The argument itself; all protocol operations are its associated
/// functions.
pub struct DORY {}

/// A non-interactive proof.
///
/// `r_commitment_steps` holds one record per recursion round, first round
/// first: `((d1_l, d2_l, c_plus), (d1_r, d2_r, c_minus))`.  The terminal
/// opening consists of the one-element vectors `e1` and `e2`, the mask
/// commitments `p1, p2, q, r`, and the response scalars `r1, r2, r3`.
#[derive(Clone)]
pub struct DORYProof {
    pub r_commitment_steps: Vec<((GT, GT, GT), (GT, GT, GT))>,
    pub e1: Vec<G1>,
    pub e2: Vec<G2>,
    pub p1: GT,
    pub p2: GT,
    pub q: GT,
    pub r: GT,
    pub r1: Scalar,
    pub r2: Scalar,
    pub r3: Scalar,
}

/// The verifier-side precomputation over a pair of key vectors: one
/// cross-product table entry per recursion round, index 0 holding the entry
/// of the innermost (last) round, and the blinding pairing `ht`.
#[derive(Clone)]
pub struct DORYSRS {
    pub delta1_l: Vec<GT>,
    pub delta1_r: Vec<GT>,
    pub delta2_l: Vec<GT>,
    pub delta2_r: Vec<GT>,
    pub kai: Vec<GT>,
    pub ht: GT,
}

/// Auxiliary prover output; the argument keeps none.
pub struct DORYAux {}

/// `2^k`.
pub open spec fn pow2(k: nat) -> nat
    decreases k,
{
    if k == 0 {
        1
    } else {
        2 * pow2((k - 1) as nat)
    }
}

/// Whether `n` is a power of two; zero is not.
pub open spec fn is_pow2(n: nat) -> bool
    decreases n,
{
    if n == 0 {
        false
    } else if n == 1 {
        true
    } else {
        n % 2 == 0 && is_pow2(n / 2)
    }
}

/// The base-two logarithm, rounded down.
pub open spec fn lg(n: nat) -> nat
    decreases n,
{
    if n <= 1 {
        0
    } else {
        1 + lg(n / 2)
    }
}

/// A power of two is positive.
pub proof fn lemma_pow2_pos(k: nat)
    ensures
        pow2(k) >= 1,
    decreases k,
{
    if k > 0 {
        lemma_pow2_pos((k - 1) as nat);
    }
}

/// `2^lg(n) == n` on powers of two.
pub proof fn lemma_pow2_lg(n: nat)
    requires
        is_pow2(n),
    ensures
        pow2(lg(n)) == n,
    decreases n,
{
    if n > 1 {
        lemma_pow2_lg(n / 2);
    }
}

/// The pairing inner product of two equal-length sequences, accumulated left
/// to right.
pub open spec fn ip_of(a: Seq<G1>, b: Seq<G2>) -> GT
    recommends
        a.len() == b.len(),
        a.len() >= 1,
    decreases a.len(),
{
    if a.len() <= 1 {
        pairing_of(a[0], b[0])
    } else {
        gt_sum(ip_of(a.drop_last(), b.drop_last()), pairing_of(a.last(), b.last()))
    }
}

/// `2^s` is even when `s >= 1`, and halving it lowers the exponent by one.
pub proof fn lemma_pow2_halves(s: nat)
    requires
        s >= 1,
    ensures
        pow2(s) % 2 == 0,
        pow2(s) / 2 == pow2((s - 1) as nat),
{
    assert(pow2(s) == 2 * pow2((s - 1) as nat));
}

/// Only `2^0` is one.
pub proof fn lemma_pow2_one(s: nat)
    requires
        pow2(s) == 1,
    ensures
        s == 0,
{
    if s >= 1 {
        lemma_pow2_pos((s - 1) as nat);
        assert(pow2(s) == 2 * pow2((s - 1) as nat));
    }
}

/// The contents of the verifier-side tables that `precompute` derives from
/// the key vectors `g1, g2` of length `2^k` and the blinding pair: at index
/// `j`, the entries of the round that works on prefixes of length `2^(j+1)`.
pub open spec fn precomputed_srs(
    g1: Seq<G1>,
    g2: Seq<G2>,
    h1s: Seq<G1>,
    h2s: Seq<G2>,
    srs: DORYSRS,
) -> bool {
    let k = lg(g1.len());
    &&& srs.kai@.len() == k
    &&& srs.delta1_l@.len() == k
    &&& srs.delta1_r@.len() == k
    &&& srs.delta2_l@.len() == k
    &&& srs.delta2_r@.len() == k
    &&& forall|j: int|
        0 <= j < k ==> #[trigger] srs.kai@[j] == ip_of(
            g1.take(pow2((j + 1) as nat) as int),
            g2.take(pow2((j + 1) as nat) as int),
        )
    &&& forall|j: int|
        0 <= j < k ==> #[trigger] srs.delta1_l@[j] == ip_of(
            g1.take(pow2(j as nat) as int),
            g2.take(pow2(j as nat) as int),
        )
    &&& forall|j: int|
        0 <= j < k ==> #[trigger] srs.delta1_r@[j] == ip_of(
            g1.subrange(pow2(j as nat) as int, pow2((j + 1) as nat) as int),
            g2.take(pow2(j as nat) as int),
        )
    &&& forall|j: int|
        0 <= j < k ==> #[trigger] srs.delta2_r@[j] == ip_of(
            g1.take(pow2(j as nat) as int),
            g2.subrange(pow2(j as nat) as int, pow2((j + 1) as nat) as int),
        )
    &&& srs.delta2_l@ == srs.delta1_l@
    &&& srs.ht == ip_of(h1s, h2s)
}

/// The bytes absorbed for a round's first challenge: the round's
/// `d1_l, d2_l, d1_r, d2_r`, serialized in that order.
pub open spec fn beta_input(rc: ((GT, GT, GT), (GT, GT, GT))) -> Seq<u8> {
    gt_bytes(rc.0.0) + gt_bytes(rc.0.1) + gt_bytes(rc.1.0) + gt_bytes(rc.1.1)
}

/// The bytes absorbed for a round's second challenge: the round's
/// `c_plus, c_minus`, serialized in that order.
pub open spec fn alpha_input(rc: ((GT, GT, GT), (GT, GT, GT))) -> Seq<u8> {
    gt_bytes(rc.0.2) + gt_bytes(rc.1.2)
}

/// The bytes absorbed for the opening challenge: `p1, p2, q, r`.
pub open spec fn opening_input(p1: GT, p2: GT, q: GT, r: GT) -> Seq<u8> {
    gt_bytes(p1) + gt_bytes(p2) + gt_bytes(q) + gt_bytes(r)
}

/// The bytes absorbed for the final challenge: `e1[0], e2[0], r1, r2, r3`.
/// No counter nonce is prepended to these.
pub open spec fn final_input(e1_0: G1, e2_0: G2, r1: Scalar, r2: Scalar, r3: Scalar) -> Seq<u8> {
    g1_bytes(e1_0) + g2_bytes(e2_0) + fr_bytes(r1) + fr_bytes(r2) + fr_bytes(r3)
}

/// Whether both challenge retry loops of a round accept some counter.  The
/// second loop continues counting from the counter the first one accepted.
pub open spec fn round_chals_ok(rc: ((GT, GT, GT), (GT, GT, GT))) -> bool {
    &&& some_nonce_accepted(beta_input(rc), 0)
    &&& some_nonce_accepted(alpha_input(rc), nonce_from(beta_input(rc), 0))
}

/// The four challenge scalars of a round, in the stored order
/// `(alpha, alpha_inv, beta, beta_inv)`.  Each retry loop returns the drawn
/// 128-bit scalar and its inverse with the positions swapped — the drawn
/// value is stored in the `_inv` slot and its inverse under the plain name —
/// and prover and verifier must agree on this renaming.
pub open spec fn round_chals(rc: ((GT, GT, GT), (GT, GT, GT))) -> (Scalar, Scalar, Scalar, Scalar) {
    let b = drawn_from(beta_input(rc), 0);
    let a = drawn_from(alpha_input(rc), nonce_from(beta_input(rc), 0));
    (inv_of(a), a, inv_of(b), b)
}

/// Whether every round's challenges can be drawn.
pub open spec fn transcript_ok(rounds: Seq<((GT, GT, GT), (GT, GT, GT))>) -> bool {
    forall|i: int| 0 <= i < rounds.len() ==> #[trigger] round_chals_ok(rounds[i])
}

/// The challenge scalars of every round, in round order.
pub open spec fn transcript_of(rounds: Seq<((GT, GT, GT), (GT, GT, GT))>) -> Seq<
    (Scalar, Scalar, Scalar, Scalar),
> {
    Seq::new(rounds.len(), |i: int| round_chals(rounds[i]))
}

/// One verifier folding step, consuming one round record `rc`, its challenge
/// tuple `t = (alpha, alpha_inv, beta, beta_inv)` and one entry of each
/// precomputed table; yields the next `(c, d1, d2)`.
pub open spec fn fold_step(
    c: GT,
    d1: GT,
    d2: GT,
    rc: ((GT, GT, GT), (GT, GT, GT)),
    t: (Scalar, Scalar, Scalar, Scalar),
    kai: GT,
    d1l: GT,
    d1r: GT,
    d2l: GT,
    d2r: GT,
) -> (GT, GT, GT) {
    let temp_c = gt_sum(kai, gt_sum(gt_scaled(d2, t.2), gt_scaled(d1, t.3)));
    let c_next = gt_sum(
        gt_sum(gt_sum(c, temp_c), gt_scaled(rc.0.2, t.0)),
        gt_scaled(rc.1.2, t.1),
    );
    let d1_next = gt_sum(
        gt_sum(gt_scaled(d1l, fr_prod(t.0, t.2)), gt_scaled(d1r, t.2)),
        gt_sum(gt_scaled(rc.0.0, t.0), rc.1.0),
    );
    let d2_next = gt_sum(
        gt_sum(gt_scaled(d2l, fr_prod(t.1, t.3)), gt_scaled(d2r, t.3)),
        gt_sum(gt_scaled(rc.0.1, t.1), rc.1.1),
    );
    (c_next, d1_next, d2_next)
}

/// The verifier's folded commitments after consuming every round record,
/// last record first, together with the matching tail entries of the
/// precomputed tables.
pub open spec fn fold_all(
    c: GT,
    d1: GT,
    d2: GT,
    rounds: Seq<((GT, GT, GT), (GT, GT, GT))>,
    kai: Seq<GT>,
    d1l: Seq<GT>,
    d1r: Seq<GT>,
    d2l: Seq<GT>,
    d2r: Seq<GT>,
) -> (GT, GT, GT)
    decreases rounds.len(),
{
    if rounds.len() == 0 {
        (c, d1, d2)
    } else {
        let next = fold_step(
            c,
            d1,
            d2,
            rounds.last(),
            round_chals(rounds.last()),
            kai.last(),
            d1l.last(),
            d1r.last(),
            d2l.last(),
            d2r.last(),
        );
        fold_all(
            next.0,
            next.1,
            next.2,
            rounds.drop_last(),
            kai.drop_last(),
            d1l.drop_last(),
            d1r.drop_last(),
            d2l.drop_last(),
            d2r.drop_last(),
        )
    }
}

/// The terminal Schnorr-style opening check on the folded commitments: the
/// final challenge `d` (the inverse of the drawn scalar, under the renaming
/// swap) rescales the last key pair into the openings `e1, e2`, and the one
/// pairing equation compares their product against the folded commitments,
/// the mask commitments and the blinding reconciliation term.
pub open spec fn opening_check(
    gamma1_0: G1,
    gamma2_0: G2,
    c: GT,
    d1: GT,
    d2: GT,
    e1_0: G1,
    e2_0: G2,
    p1: GT,
    p2: GT,
    q: GT,
    rr: GT,
    r1: Scalar,
    r2: Scalar,
    r3: Scalar,
    ht: GT,
    ch_c: Scalar,
) -> bool {
    let x = chal_of(final_input(e1_0, e2_0, r1, r2, r3));
    let d = inv_of(x);
    let d_inv = x;
    let kai_scalar = pairing_of(gamma1_0, gamma2_0);
    let left = pairing_of(
        g1_sum(e1_0, g1_scaled(gamma1_0, d)),
        g2_sum(e2_0, g2_scaled(gamma2_0, d_inv)),
    );
    let temp1 = gt_sum(gt_scaled(c, fr_prod(ch_c, ch_c)), kai_scalar);
    let temp5 = gt_sum(gt_scaled(d2, fr_prod(d, ch_c)), gt_scaled(d1, fr_prod(d_inv, ch_c)));
    let temp6 = fr_sum(fr_sum(r3, fr_prod(d, r2)), fr_prod(d_inv, r1));
    let temp7 = fr_neg_of(temp6);
    let right = gt_sum(
        gt_sum(
            gt_sum(
                gt_sum(gt_sum(gt_sum(temp1, temp5), rr), gt_scaled(q, ch_c)),
                gt_scaled(p2, d),
            ),
            gt_scaled(p1, d_inv),
        ),
        gt_scaled(ht, temp7),
    );
    left == right
}

/// The verifier's decision on the given SRS, keys, commitments `(d1, d2, c)`
/// and proof: fold every round, then run the opening check under the
/// recomputed challenges.
pub open spec fn verify_outcome(
    srs: DORYSRS,
    gamma1: Seq<G1>,
    gamma2: Seq<G2>,
    com: (GT, GT, GT),
    proof: DORYProof,
) -> bool {
    let folded = fold_all(
        com.2,
        com.0,
        com.1,
        proof.r_commitment_steps@,
        srs.kai@,
        srs.delta1_l@,
        srs.delta1_r@,
        srs.delta2_l@,
        srs.delta2_r@,
    );
    let ch_c = chal_of(opening_input(proof.p1, proof.p2, proof.q, proof.r));
    opening_check(
        gamma1[0],
        gamma2[0],
        folded.0,
        folded.1,
        folded.2,
        proof.e1@[0],
        proof.e2@[0],
        proof.p1,
        proof.p2,
        proof.q,
        proof.r,
        proof.r1,
        proof.r2,
        proof.r3,
        srs.ht,
        ch_c,
    )
}

/// Whether every challenge that verification must redraw from the proof can
/// be drawn: both retry loops of every round accept some counter, and the
/// final challenge, which is drawn without a counter, is invertible.
pub open spec fn challenges_ok(proof: DORYProof) -> bool {
    &&& transcript_ok(proof.r_commitment_steps@)
    &&& invertible(
        chal_of(final_input(proof.e1@[0], proof.e2@[0], proof.r1, proof.r2, proof.r3)),
    )
}

/// Σ e(aᵢ, bᵢ): the pairing inner product.
pub(crate) fn inner_product(a: &Vec<G1>, b: &Vec<G2>) -> (r: GT)
    requires
        a@.len() == b@.len(),
        a@.len() >= 1,
    ensures
        r == ip_of(a@, b@),
{
    let mut acc = pairing(&a[0], &b[0]);
    proof {
        assert(a@.take(1)[0] == a@[0]);
        assert(b@.take(1)[0] == b@[0]);
    }
    let mut i: usize = 1;
    while i < a.len()
        invariant
            1 <= i <= a@.len(),
            a@.len() == b@.len(),
            acc == ip_of(a@.take(i as int), b@.take(i as int)),
        decreases a@.len() - i,
    {
        let p = pairing(&a[i], &b[i]);
        acc = gt_add(&acc, &p);
        proof {
            assert(a@.take(i + 1).drop_last() =~= a@.take(i as int));
            assert(b@.take(i + 1).drop_last() =~= b@.take(i as int));
            assert(a@.take(i + 1).last() == a@[i as int]);
            assert(b@.take(i + 1).last() == b@[i as int]);
        }
        i = i + 1;
    }
    proof {
        assert(a@.take(a@.len() as int) =~= a@);
        assert(b@.take(b@.len() as int) =~= b@);
    }
    acc
}

/// The elements of `v` from `from` (inclusive) to `to` (exclusive), copied
/// into a fresh vector.
pub(crate) fn sub_vec<T: Copy>(v: &Vec<T>, from: usize, to: usize) -> (r: Vec<T>)
    requires
        from <= to,
        to <= v@.len(),
    ensures
        r@ == v@.subrange(from as int, to as int),
{
    let mut r: Vec<T> = Vec::new();
    let mut i = from;
    while i < to
        invariant
            from <= i <= to <= v@.len(),
            r@ == v@.subrange(from as int, i as int),
        decreases to - i,
    {
        r.push(v[i]);
        proof {
            assert(v@.subrange(from as int, i + 1) =~= v@.subrange(from as int, i as int).push(
                v@[i as int],
            ));
        }
        i = i + 1;
    }
    r
}

/// The slice copied into a fresh vector.
pub(crate) fn slice_to_vec<T: Copy>(s: &[T]) -> (r: Vec<T>)
    ensures
        r@ == s@,
{
    let mut r: Vec<T> = Vec::new();
    let mut i: usize = 0;
    while i < s.len()
        invariant
            0 <= i <= s@.len(),
            r@ == s@.take(i as int),
        decreases s@.len() - i,
    {
        r.push(s[i]);
        proof {
            assert(s@.take(i + 1) =~= s@.take(i as int).push(s@[i as int]));
        }
        i = i + 1;
    }
    proof {
        assert(s@.take(s@.len() as int) =~= s@);
    }
    r
}

/// The vector in reverse order.
pub(crate) fn vec_reversed<T: Copy>(v: &Vec<T>) -> (r: Vec<T>)
    ensures
        r@ == v@.reverse(),
{
    let mut r: Vec<T> = Vec::new();
    let mut i = v.len();
    while i > 0
        invariant
            0 <= i <= v@.len(),
            r@.len() == v@.len() - i,
            forall|j: int| 0 <= j < r@.len() ==> r@[j] == v@[v@.len() - 1 - j],
        decreases i,
    {
        i = i - 1;
        r.push(v[i]);
    }
    proof {
        assert(r@ =~= v@.reverse());
    }
    r
}

/// Halving a power of two greater than one lowers its logarithm by one.
pub proof fn lemma_lg_halves(m: nat)
    requires
        is_pow2(m),
        m > 1,
    ensures
        m % 2 == 0,
        m / 2 >= 1,
        is_pow2(m / 2),
        lg(m) == 1 + lg(m / 2),
{
    assert(is_pow2(m / 2));
}

/// Serializes a round record for its first challenge.
pub(crate) fn beta_input_bytes(rc: &((GT, GT, GT), (GT, GT, GT))) -> (r: Vec<u8>)
    ensures
        r@ == beta_input(*rc),
{
    let mut buf = gt_to_bytes(&rc.0.0);
    let b1 = gt_to_bytes(&rc.0.1);
    extend_bytes(&mut buf, &b1);
    let b2 = gt_to_bytes(&rc.1.0);
    extend_bytes(&mut buf, &b2);
    let b3 = gt_to_bytes(&rc.1.1);
    extend_bytes(&mut buf, &b3);
    buf
}

/// Serializes a round record for its second challenge.
pub(crate) fn alpha_input_bytes(rc: &((GT, GT, GT), (GT, GT, GT))) -> (r: Vec<u8>)
    ensures
        r@ == alpha_input(*rc),
{
    let mut buf = gt_to_bytes(&rc.0.2);
    let b1 = gt_to_bytes(&rc.1.2);
    extend_bytes(&mut buf, &b1);
    buf
}

/// Serializes the mask commitments for the opening challenge.
pub(crate) fn opening_input_bytes(p1: &GT, p2: &GT, q: &GT, r: &GT) -> (out: Vec<u8>)
    ensures
        out@ == opening_input(*p1, *p2, *q, *r),
{
    let mut buf = gt_to_bytes(p1);
    let b1 = gt_to_bytes(p2);
    extend_bytes(&mut buf, &b1);
    let b2 = gt_to_bytes(q);
    extend_bytes(&mut buf, &b2);
    let b3 = gt_to_bytes(r);
    extend_bytes(&mut buf, &b3);
    buf
}

/// Serializes the opening responses for the final challenge.
pub(crate) fn final_input_bytes(
    e1_0: &G1,
    e2_0: &G2,
    r1: &Scalar,
    r2: &Scalar,
    r3: &Scalar,
) -> (out: Vec<u8>)
    ensures
        out@ == final_input(*e1_0, *e2_0, *r1, *r2, *r3),
{
    let mut buf = g1_to_bytes(e1_0);
    let b1 = g2_to_bytes(e2_0);
    extend_bytes(&mut buf, &b1);
    let b2 = fr_to_bytes(r1);
    extend_bytes(&mut buf, &b2);
    let b3 = fr_to_bytes(r2);
    extend_bytes(&mut buf, &b3);
    let b4 = fr_to_bytes(r3);
    extend_bytes(&mut buf, &b4);
    buf
}

/// Whether `n` is a power of two; zero is not.
pub(crate) fn is_power_of_two(n: usize) -> (b: bool)
    ensures
        b == is_pow2(n as nat),
{
    if n == 0 {
        return false;
    }
    let mut m = n;
    while m % 2 == 0
        invariant
            m >= 1,
            is_pow2(n as nat) == is_pow2(m as nat),
        decreases m,
    {
        m = m / 2;
    }
    m == 1
}

impl DORY {
    /// Builds the three initial commitments: `c` binds the pairing inner
    /// product of the witness vectors, `d1` binds the left witness against
    /// the key `gamma2`, and `d2` binds the right witness against the key
    /// `gamma1`; each is blinded by the stated multiple of `ht = <h1, h2>`.
    /// Fails with the offending pair of lengths when any two vectors that are
    /// paired under an inner product disagree in length.
    pub fn init_commit(
        left_value: &Vec<G1>,
        right_value: &Vec<G2>,
        gamma1: &Vec<G1>,
        gamma2: &Vec<G2>,
        r_c: &Scalar,
        r_d1: &Scalar,
        r_d2: &Scalar,
        h1: &Vec<G1>,
        h2: &Vec<G2>,
    ) -> (res: Result<(GT, GT, GT), DoryError>)
        requires
            left_value@.len() >= 1,
            h1@.len() >= 1,
        ensures
            res is Ok <==> {
                &&& h1@.len() == h2@.len()
                &&& left_value@.len() == right_value@.len()
                &&& left_value@.len() == gamma2@.len()
                &&& gamma1@.len() == right_value@.len()
            },
            res matches Ok(com) ==> {
                let ht = ip_of(h1@, h2@);
                &&& com.0 == gt_sum(ip_of(left_value@, right_value@), gt_scaled(ht, *r_c))
                &&& com.1 == gt_sum(ip_of(left_value@, gamma2@), gt_scaled(ht, *r_d1))
                &&& com.2 == gt_sum(ip_of(gamma1@, right_value@), gt_scaled(ht, *r_d2))
            },
            h1@.len() != h2@.len() ==> res == Err::<(GT, GT, GT), DoryError>(
                DoryError::MessageLengthInvalid(h1@.len() as usize, h2@.len() as usize),
            ),
            h1@.len() == h2@.len() && left_value@.len() != right_value@.len() ==> res == Err::<
                (GT, GT, GT),
                DoryError,
            >(
                DoryError::MessageLengthInvalid(
                    left_value@.len() as usize,
                    right_value@.len() as usize,
                ),
            ),
            h1@.len() == h2@.len() && left_value@.len() == right_value@.len()
                && left_value@.len() != gamma2@.len() ==> res == Err::<(GT, GT, GT), DoryError>(
                DoryError::MessageLengthInvalid(left_value@.len() as usize, gamma2@.len() as usize),
            ),
            h1@.len() == h2@.len() && left_value@.len() == right_value@.len()
                && left_value@.len() == gamma2@.len() && gamma1@.len() != right_value@.len()
                ==> res == Err::<(GT, GT, GT), DoryError>(
                DoryError::MessageLengthInvalid(gamma1@.len() as usize, right_value@.len() as usize),
            ),
    {
        if h1.len() != h2.len() {
            return Err(DoryError::MessageLengthInvalid(h1.len(), h2.len()));
        }
        if left_value.len() != right_value.len() {
            return Err(DoryError::MessageLengthInvalid(left_value.len(), right_value.len()));
        }
        if left_value.len() != gamma2.len() {
            return Err(DoryError::MessageLengthInvalid(left_value.len(), gamma2.len()));
        }
        if gamma1.len() != right_value.len() {
            return Err(DoryError::MessageLengthInvalid(gamma1.len(), right_value.len()));
        }
        let ht = inner_product(h1, h2);
        let c = gt_add(&inner_product(left_value, right_value), &gt_scale(&ht, r_c));
        let d1 = gt_add(&inner_product(left_value, gamma2), &gt_scale(&ht, r_d1));
        let d2 = gt_add(&inner_product(gamma1, right_value), &gt_scale(&ht, r_d2));
        Ok((c, d1, d2))
    }

    /// Produces a proof that the commitment bound by the blinding scalars
    /// `witness = (r_c, r_d1, r_d2)` opens to the pairing inner product of
    /// `values` under the keys `ck_message`.  The proof's round list holds
    /// one record per halving, first round first, and its opening vectors
    /// `e1, e2` hold one element each.  Fails only in the negligible case of
    /// an exhausted challenge retry loop.
    pub fn prove(
        values: (&[G1], &[G2]),
        srs: &DORYSRS,
        ck_message: (&[G1], &[G2]),
        witness: (&Scalar, &Scalar, &Scalar),
        rng: &mut StdRng,
    ) -> (res: Result<DORYProof, DoryError>)
        requires
            values.0@.len() == values.1@.len(),
            values.0@.len() == ck_message.0@.len(),
            values.0@.len() == ck_message.1@.len(),
            is_pow2(values.0@.len()),
        ensures
            res matches Ok(proof) ==> {
                &&& proof.r_commitment_steps@.len() == lg(values.0@.len())
                &&& proof.e1@.len() == 1
                &&& proof.e2@.len() == 1
                &&& transcript_ok(proof.r_commitment_steps@)
            },
            res is Err ==> res == Err::<DORYProof, DoryError>(DoryError::ChallengeInvalid),
    {
        match Self::prove_with_aux(values, srs, ck_message, witness, rng) {
            Ok((proof, _)) => Ok(proof),
            Err(e) => Err(e),
        }
    }

    /// As `prove`, but also returns the (empty) auxiliary prover state.
    pub fn prove_with_aux(
        values: (&[G1], &[G2]),
        srs: &DORYSRS,
        ck_message: (&[G1], &[G2]),
        witness: (&Scalar, &Scalar, &Scalar),
        rng: &mut StdRng,
    ) -> (res: Result<(DORYProof, DORYAux), DoryError>)
        requires
            values.0@.len() == values.1@.len(),
            values.0@.len() == ck_message.0@.len(),
            values.0@.len() == ck_message.1@.len(),
            is_pow2(values.0@.len()),
        ensures
            res matches Ok(pa) ==> {
                &&& pa.0.r_commitment_steps@.len() == lg(values.0@.len())
                &&& pa.0.e1@.len() == 1
                &&& pa.0.e2@.len() == 1
                &&& transcript_ok(pa.0.r_commitment_steps@)
            },
            res is Err ==> res == Err::<(DORYProof, DORYAux), DoryError>(
                DoryError::ChallengeInvalid,
            ),
    {
        let v1 = slice_to_vec(values.0);
        let v2 = slice_to_vec(values.1);
        let gamma1_message = slice_to_vec(ck_message.0);
        let gamma2_message = slice_to_vec(ck_message.1);
        Self::_prove(&(v1, v2), srs, (gamma1_message, gamma2_message), witness, rng)
    }

    /// The recursive prover.  Per round it commits to the four cross inner
    /// products of the witness halves against the left key halves, mixes the
    /// keys into the witness under the first challenge, commits to the two
    /// off-diagonal witness products, contracts the halves under the second
    /// challenge, and records the round; the rounds are recorded innermost
    /// first and reversed at the end.  After the recursion it masks the
    /// remaining one-element witness and answers the opening challenge.
    fn _prove(
        values: &(Vec<G1>, Vec<G2>),
        srs: &DORYSRS,
        ck_message: (Vec<G1>, Vec<G2>),
        witness: (&Scalar, &Scalar, &Scalar),
        rng: &mut StdRng,
    ) -> (res: Result<(DORYProof, DORYAux), DoryError>)
        requires
            values.0@.len() == values.1@.len(),
            values.0@.len() == ck_message.0@.len(),
            values.0@.len() == ck_message.1@.len(),
            is_pow2(values.0@.len()),
        ensures
            res matches Ok(pa) ==> {
                &&& pa.0.r_commitment_steps@.len() == lg(values.0@.len())
                &&& pa.0.e1@.len() == 1
                &&& pa.0.e2@.len() == 1
                &&& transcript_ok(pa.0.r_commitment_steps@)
            },
            res is Err ==> res == Err::<(DORYProof, DORYAux), DoryError>(
                DoryError::ChallengeInvalid,
            ),
    {
        let ghost n0 = values.0@.len();
        let mut v1 = sub_vec(&values.0, 0, values.0.len());
        let mut v2 = sub_vec(&values.1, 0, values.1.len());
        let (mut gamma1_message, mut gamma2_message) = ck_message;
        let mut r_commitment_steps: Vec<((GT, GT, GT), (GT, GT, GT))> = Vec::new();
        let ht = srs.ht;
        let mut r_c = *witness.0;
        let mut r_d1 = *witness.1;
        let mut r_d2 = *witness.2;
        while v1.len() > 1
            invariant
                v1@.len() == v2@.len(),
                v1@.len() == gamma1_message@.len(),
                v1@.len() == gamma2_message@.len(),
                is_pow2(v1@.len() as nat),
                r_commitment_steps@.len() + lg(v1@.len() as nat) == lg(n0),
                forall|j: int|
                    0 <= j < r_commitment_steps@.len() ==> #[trigger] round_chals_ok(
                        r_commitment_steps@[j],
                    ),
            decreases v1@.len(),
        {
            proof {
                lemma_lg_halves(v1@.len() as nat);
            }
            let split = v1.len() / 2;
            let r_d1l = fr_rand(rng);
            let r_d1r = fr_rand(rng);
            let r_d2l = fr_rand(rng);
            let r_d2r = fr_rand(rng);
            let v1_l = sub_vec(&v1, 0, split);
            let v1_r = sub_vec(&v1, split, v1.len());
            let gamma1_prime = sub_vec(&gamma1_message, 0, split);
            let v2_l = sub_vec(&v2, 0, split);
            let v2_r = sub_vec(&v2, split, v2.len());
            let gamma2_prime = sub_vec(&gamma2_message, 0, split);
            let d1_l = gt_add(&inner_product(&v1_l, &gamma2_prime), &gt_scale(&ht, &r_d1l));
            let d1_r = gt_add(&inner_product(&v1_r, &gamma2_prime), &gt_scale(&ht, &r_d1r));
            let d2_l = gt_add(&inner_product(&gamma1_prime, &v2_l), &gt_scale(&ht, &r_d2l));
            let d2_r = gt_add(&inner_product(&gamma1_prime, &v2_r), &gt_scale(&ht, &r_d2r));
            let mut bb = gt_to_bytes(&d1_l);
            let bb1 = gt_to_bytes(&d2_l);
            extend_bytes(&mut bb, &bb1);
            let bb2 = gt_to_bytes(&d1_r);
            extend_bytes(&mut bb, &bb2);
            let bb3 = gt_to_bytes(&d2_r);
            extend_bytes(&mut bb, &bb3);
            let rb = challenge_with_inverse(0, &bb);
            if rb.is_none() {
                return Err(DoryError::ChallengeInvalid);
            }
            let (beta, beta_inv, counter) = rb.unwrap();
            let mut mixed_v1: Vec<G1> = Vec::new();
            let mut i: usize = 0;
            while i < v1.len()
                invariant
                    0 <= i <= v1@.len(),
                    mixed_v1@.len() == i,
                    v1@.len() == gamma1_message@.len(),
                decreases v1@.len() - i,
            {
                mixed_v1.push(g1_add(&v1[i], &g1_scale(&gamma1_message[i], &beta)));
                i = i + 1;
            }
            let mut mixed_v2: Vec<G2> = Vec::new();
            let mut j: usize = 0;
            while j < v2.len()
                invariant
                    0 <= j <= v2@.len(),
                    mixed_v2@.len() == j,
                    v2@.len() == gamma2_message@.len(),
                decreases v2@.len() - j,
            {
                mixed_v2.push(g2_add(&v2[j], &g2_scale(&gamma2_message[j], &beta_inv)));
                j = j + 1;
            }
            let old_len = v1.len();
            v1 = mixed_v1;
            v2 = mixed_v2;
            r_c = fr_add(&fr_add(&r_c, &fr_mul(&beta, &r_d2)), &fr_mul(&beta_inv, &r_d1));
            let r_c_plus = fr_rand(rng);
            let r_c_minus = fr_rand(rng);
            let v1_l = sub_vec(&v1, 0, split);
            let v1_r = sub_vec(&v1, split, old_len);
            let v2_l = sub_vec(&v2, 0, split);
            let v2_r = sub_vec(&v2, split, old_len);
            let c_plus = gt_add(&inner_product(&v1_l, &v2_r), &gt_scale(&ht, &r_c_plus));
            let c_minus = gt_add(&inner_product(&v1_r, &v2_l), &gt_scale(&ht, &r_c_minus));
            let mut ab = gt_to_bytes(&c_plus);
            let ab1 = gt_to_bytes(&c_minus);
            extend_bytes(&mut ab, &ab1);
            let ra = challenge_with_inverse(counter, &ab);
            if ra.is_none() {
                return Err(DoryError::ChallengeInvalid);
            }
            let (alpha, alpha_inv, _) = ra.unwrap();
            let mut folded_v1: Vec<G1> = Vec::new();
            let mut fi: usize = 0;
            while fi < split
                invariant
                    0 <= fi <= split,
                    folded_v1@.len() == fi,
                    split <= v1_l@.len(),
                    split <= v1_r@.len(),
                decreases split - fi,
            {
                folded_v1.push(g1_add(&g1_scale(&v1_l[fi], &alpha), &v1_r[fi]));
                fi = fi + 1;
            }
            let mut folded_v2: Vec<G2> = Vec::new();
            let mut fj: usize = 0;
            while fj < split
                invariant
                    0 <= fj <= split,
                    folded_v2@.len() == fj,
                    split <= v2_l@.len(),
                    split <= v2_r@.len(),
                decreases split - fj,
            {
                folded_v2.push(g2_add(&g2_scale(&v2_l[fj], &alpha_inv), &v2_r[fj]));
                fj = fj + 1;
            }
            v1 = folded_v1;
            v2 = folded_v2;
            r_d1 = fr_add(&fr_mul(&r_d1l, &alpha), &r_d1r);
            r_d2 = fr_add(&fr_mul(&r_d2l, &alpha_inv), &r_d2r);
            r_c = fr_add(&fr_add(&r_c, &fr_mul(&alpha, &r_c_plus)), &fr_mul(&alpha_inv, &r_c_minus));
            gamma1_message = sub_vec(&gamma1_message, 0, split);
            gamma2_message = sub_vec(&gamma2_message, 0, split);
            r_commitment_steps.push(((d1_l, d2_l, c_plus), (d1_r, d2_r, c_minus)));
            proof {
                let rc = ((d1_l, d2_l, c_plus), (d1_r, d2_r, c_minus));
                assert(bb@ == beta_input(rc));
                assert(ab@ == alpha_input(rc));
                assert(round_chals_ok(rc));
            }
        }
        let r_p1 = fr_rand(rng);
        let r_p2 = fr_rand(rng);
        let r_q = fr_rand(rng);
        let r_r = fr_rand(rng);
        let mut mask1: Vec<G1> = Vec::new();
        let mut mask2: Vec<G2> = Vec::new();
        mask1.push(g1_rand(rng));
        mask2.push(g2_rand(rng));
        let p1 = gt_add(&inner_product(&mask1, &gamma2_message), &gt_scale(&ht, &r_p1));
        let p2 = gt_add(&inner_product(&gamma1_message, &mask2), &gt_scale(&ht, &r_p2));
        let q = gt_add(
            &gt_add(&inner_product(&mask1, &v2), &inner_product(&v1, &mask2)),
            &gt_scale(&ht, &r_q),
        );
        let rr = gt_add(&inner_product(&mask1, &mask2), &gt_scale(&ht, &r_r));
        let ob = opening_input_bytes(&p1, &p2, &q, &rr);
        let ch_c = draw_challenge(&ob);
        let mut e1: Vec<G1> = Vec::new();
        let mut e2: Vec<G2> = Vec::new();
        e1.push(g1_add(&mask1[0], &g1_scale(&v1[0], &ch_c)));
        e2.push(g2_add(&mask2[0], &g2_scale(&v2[0], &ch_c)));
        let r1 = fr_add(&r_p1, &fr_mul(&ch_c, &r_d1));
        let r2 = fr_add(&r_p2, &fr_mul(&ch_c, &r_d2));
        let r3 = fr_add(
            &fr_add(&r_r, &fr_mul(&ch_c, &r_q)),
            &fr_mul(&fr_mul(&ch_c, &ch_c), &r_c),
        );
        let steps = vec_reversed(&r_commitment_steps);
        proof {
            assert forall|j: int| 0 <= j < steps@.len() implies #[trigger] round_chals_ok(
                steps@[j],
            ) by {
                assert(steps@[j] == r_commitment_steps@[steps@.len() - 1 - j]);
            }
        }
        Ok(
            (
                DORYProof { r_commitment_steps: steps, e1, e2, p1, p2, q, r: rr, r1, r2, r3 },
                DORYAux {  },
            ),
        )
    }

    /// Recomputes the challenge transcript from a proof: the challenge tuple
    /// of every round, in round order, and the opening challenge.  Fails only
    /// in the negligible case of a retry loop that exhausts its counter
    /// space.
    pub fn verify_recursive_challenge_transcript(proof: &DORYProof) -> (res: Result<
        (Vec<(Scalar, Scalar, Scalar, Scalar)>, Scalar),
        DoryError,
    >)
        ensures
            res is Ok <==> transcript_ok(proof.r_commitment_steps@),
            res matches Ok(v) ==> {
                &&& v.0@ == transcript_of(proof.r_commitment_steps@)
                &&& v.1 == chal_of(opening_input(proof.p1, proof.p2, proof.q, proof.r))
            },
            res is Err ==> res == Err::<(Vec<(Scalar, Scalar, Scalar, Scalar)>, Scalar), DoryError>(
                DoryError::ChallengeInvalid,
            ),
    {
        Self::_compute_recursive_challenges(proof)
    }

    /// Walks the proof's round records, redrawing each round's two challenge
    /// pairs, and draws the opening challenge from the mask commitments.
    fn _compute_recursive_challenges(proof: &DORYProof) -> (res: Result<
        (Vec<(Scalar, Scalar, Scalar, Scalar)>, Scalar),
        DoryError,
    >)
        ensures
            res is Ok <==> transcript_ok(proof.r_commitment_steps@),
            res matches Ok(v) ==> {
                &&& v.0@ == transcript_of(proof.r_commitment_steps@)
                &&& v.1 == chal_of(opening_input(proof.p1, proof.p2, proof.q, proof.r))
            },
            res is Err ==> res == Err::<(Vec<(Scalar, Scalar, Scalar, Scalar)>, Scalar), DoryError>(
                DoryError::ChallengeInvalid,
            ),
    {
        let rounds = &proof.r_commitment_steps;
        let mut tr: Vec<(Scalar, Scalar, Scalar, Scalar)> = Vec::new();
        let mut i: usize = 0;
        while i < rounds.len()
            invariant
                0 <= i <= rounds@.len(),
                rounds@ == proof.r_commitment_steps@,
                tr@.len() == i,
                forall|j: int| 0 <= j < i ==> #[trigger] tr@[j] == round_chals(rounds@[j]),
                forall|j: int| 0 <= j < i ==> #[trigger] round_chals_ok(rounds@[j]),
            decreases rounds@.len() - i,
        {
            let rc = rounds[i];
            let bb = beta_input_bytes(&rc);
            let rb = challenge_with_inverse(0, &bb);
            if rb.is_none() {
                proof {
                    assert(!round_chals_ok(rounds@[i as int]));
                }
                return Err(DoryError::ChallengeInvalid);
            }
            let (beta, beta_inv, counter) = rb.unwrap();
            let ab = alpha_input_bytes(&rc);
            let ra = challenge_with_inverse(counter, &ab);
            if ra.is_none() {
                proof {
                    assert(!round_chals_ok(rounds@[i as int]));
                }
                return Err(DoryError::ChallengeInvalid);
            }
            let (alpha, alpha_inv, _) = ra.unwrap();
            tr.push((alpha, alpha_inv, beta, beta_inv));
            proof {
                assert(round_chals_ok(rounds@[i as int]));
                assert(tr@[i as int] == round_chals(rounds@[i as int]));
            }
            i = i + 1;
        }
        let ob = opening_input_bytes(&proof.p1, &proof.p2, &proof.q, &proof.r);
        let ch_c = draw_challenge(&ob);
        proof {
            assert(tr@ =~= transcript_of(proof.r_commitment_steps@));
        }
        Ok((tr, ch_c))
    }

    /// Checks a proof against the commitments `com = (d1, d2, c)` under the
    /// given SRS and key vectors.  Fails with a length error when the key
    /// vectors differ in length or their length is not a power of two, and
    /// with a challenge error in the negligible case of an unusable retry
    /// loop; otherwise returns exactly the outcome of folding every round and
    /// testing the final pairing equation.  Consumes the proof's round list
    /// and one tail entry of each SRS table per round.
    pub fn verify(
        srs: &mut DORYSRS,
        ck_message: (&[G1], &[G2]),
        com: (&GT, &GT, &GT),
        proof: &mut DORYProof,
    ) -> (res: Result<bool, DoryError>)
        requires
            old(proof).e1@.len() == 1,
            old(proof).e2@.len() == 1,
            old(proof).r_commitment_steps@.len() <= old(srs).kai@.len(),
            old(proof).r_commitment_steps@.len() <= old(srs).delta1_l@.len(),
            old(proof).r_commitment_steps@.len() <= old(srs).delta1_r@.len(),
            old(proof).r_commitment_steps@.len() <= old(srs).delta2_l@.len(),
            old(proof).r_commitment_steps@.len() <= old(srs).delta2_r@.len(),
        ensures
            res is Ok <==> {
                &&& is_pow2(ck_message.0@.len())
                &&& ck_message.0@.len() == ck_message.1@.len()
                &&& challenges_ok(*old(proof))
            },
            !(is_pow2(ck_message.0@.len()) && ck_message.0@.len() == ck_message.1@.len())
                ==> res == Err::<bool, DoryError>(
                DoryError::MessageLengthInvalid(
                    ck_message.0@.len() as usize,
                    ck_message.1@.len() as usize,
                ),
            ),
            is_pow2(ck_message.0@.len()) && ck_message.0@.len() == ck_message.1@.len() && !challenges_ok(
                *old(proof),
            ) ==> res == Err::<bool, DoryError>(DoryError::ChallengeInvalid),
            res matches Ok(b) ==> b == verify_outcome(
                *old(srs),
                ck_message.0@,
                ck_message.1@,
                (*com.0, *com.1, *com.2),
                *old(proof),
            ),
            res is Ok ==> {
                let rl = old(proof).r_commitment_steps@.len();
                &&& final(proof).r_commitment_steps@ == old(proof).r_commitment_steps@.take(0)
                &&& final(proof).e1@ == old(proof).e1@
                &&& final(proof).e2@ == old(proof).e2@
                &&& final(proof).p1 == old(proof).p1
                &&& final(proof).p2 == old(proof).p2
                &&& final(proof).q == old(proof).q
                &&& final(proof).r == old(proof).r
                &&& final(proof).r1 == old(proof).r1
                &&& final(proof).r2 == old(proof).r2
                &&& final(proof).r3 == old(proof).r3
                &&& final(srs).kai@ == old(srs).kai@.take((old(srs).kai@.len() - rl) as int)
                &&& final(srs).delta1_l@ == old(srs).delta1_l@.take(
                    (old(srs).delta1_l@.len() - rl) as int,
                )
                &&& final(srs).delta1_r@ == old(srs).delta1_r@.take(
                    (old(srs).delta1_r@.len() - rl) as int,
                )
                &&& final(srs).delta2_l@ == old(srs).delta2_l@.take(
                    (old(srs).delta2_l@.len() - rl) as int,
                )
                &&& final(srs).delta2_r@ == old(srs).delta2_r@.take(
                    (old(srs).delta2_r@.len() - rl) as int,
                )
                &&& final(srs).ht == old(srs).ht
            },
            res is Err ==> *final(proof) == *old(proof) && *final(srs) == *old(srs),
    {
        let n = ck_message.0.len();
        if !is_power_of_two(n) || n != ck_message.1.len() {
            return Err(DoryError::MessageLengthInvalid(n, ck_message.1.len()));
        }
        let tr_res = Self::_compute_recursive_challenges(proof);
        let (mut transcript, ch_c) = match tr_res {
            Ok(v) => v,
            Err(_) => {
                return Err(DoryError::ChallengeInvalid);
            },
        };
        let fb = final_input_bytes(&proof.e1[0], &proof.e2[0], &proof.r1, &proof.r2, &proof.r3);
        let dres = challenge_inverse_plain(&fb);
        if dres.is_none() {
            return Err(DoryError::ChallengeInvalid);
        }
        let (d, d_inv) = dres.unwrap();
        let round = transcript.len();
        proof {
            assert(round == old(proof).r_commitment_steps@.len());
        }
        let mut c_prime = *com.2;
        let mut d1_prime = *com.0;
        let mut d2_prime = *com.1;
        let ghost rounds0 = old(proof).r_commitment_steps@;
        let mut i: usize = 0;
        while i < round
            invariant
                0 <= i <= round,
                rounds0 == old(proof).r_commitment_steps@,
                round == rounds0.len(),
                round <= old(srs).kai@.len(),
                round <= old(srs).delta1_l@.len(),
                round <= old(srs).delta1_r@.len(),
                round <= old(srs).delta2_l@.len(),
                round <= old(srs).delta2_r@.len(),
                transcript@ == transcript_of(rounds0).take((round - i) as int),
                proof.r_commitment_steps@ == rounds0.take((round - i) as int),
                proof.e1@ == old(proof).e1@,
                proof.e2@ == old(proof).e2@,
                proof.p1 == old(proof).p1,
                proof.p2 == old(proof).p2,
                proof.q == old(proof).q,
                proof.r == old(proof).r,
                proof.r1 == old(proof).r1,
                proof.r2 == old(proof).r2,
                proof.r3 == old(proof).r3,
                srs.kai@ == old(srs).kai@.take((old(srs).kai@.len() - i) as int),
                srs.delta1_l@ == old(srs).delta1_l@.take((old(srs).delta1_l@.len() - i) as int),
                srs.delta1_r@ == old(srs).delta1_r@.take((old(srs).delta1_r@.len() - i) as int),
                srs.delta2_l@ == old(srs).delta2_l@.take((old(srs).delta2_l@.len() - i) as int),
                srs.delta2_r@ == old(srs).delta2_r@.take((old(srs).delta2_r@.len() - i) as int),
                srs.ht == old(srs).ht,
                fold_all(
                    c_prime,
                    d1_prime,
                    d2_prime,
                    proof.r_commitment_steps@,
                    srs.kai@,
                    srs.delta1_l@,
                    srs.delta1_r@,
                    srs.delta2_l@,
                    srs.delta2_r@,
                ) == fold_all(
                    *com.2,
                    *com.0,
                    *com.1,
                    rounds0,
                    old(srs).kai@,
                    old(srs).delta1_l@,
                    old(srs).delta1_r@,
                    old(srs).delta2_l@,
                    old(srs).delta2_r@,
                ),
            decreases round - i,
        {
            proof {
                assert(proof.r_commitment_steps@.len() == round - i);
                assert(transcript@.len() == round - i);
                assert(srs.kai@.len() == old(srs).kai@.len() - i);
            }
            let last_commitment = proof.r_commitment_steps.pop().unwrap();
            let last_transcript = transcript.pop().unwrap();
            proof {
                assert(transcript_of(rounds0).take((round - i) as int).last() == round_chals(
                    rounds0[(round - i - 1) as int],
                ));
                assert(rounds0.take((round - i) as int).last() == rounds0[(round - i - 1) as int]);
                assert(last_transcript == round_chals(last_commitment));
            }
            let temp2 = gt_scale(&d1_prime, &last_transcript.3);
            let temp = gt_scale(&d2_prime, &last_transcript.2);
            let temp = gt_add(&temp, &temp2);
            let last_kai = srs.kai.pop().unwrap();
            let temp = gt_add(&last_kai, &temp);
            c_prime = gt_add(
                &gt_add(&gt_add(&c_prime, &temp), &gt_scale(&last_commitment.0.2, &last_transcript.0)),
                &gt_scale(&last_commitment.1.2, &last_transcript.1),
            );
            let temp_d1 = gt_add(
                &gt_scale(&last_commitment.0.0, &last_transcript.0),
                &last_commitment.1.0,
            );
            let dl1 = srs.delta1_l.pop().unwrap();
            let dr1 = srs.delta1_r.pop().unwrap();
            d1_prime = gt_add(
                &gt_add(
                    &gt_scale(&dl1, &fr_mul(&last_transcript.0, &last_transcript.2)),
                    &gt_scale(&dr1, &last_transcript.2),
                ),
                &temp_d1,
            );
            let temp_d2 = gt_add(
                &gt_scale(&last_commitment.0.1, &last_transcript.1),
                &last_commitment.1.1,
            );
            let dl2 = srs.delta2_l.pop().unwrap();
            let dr2 = srs.delta2_r.pop().unwrap();
            d2_prime = gt_add(
                &gt_add(
                    &gt_scale(&dl2, &fr_mul(&last_transcript.1, &last_transcript.3)),
                    &gt_scale(&dr2, &last_transcript.3),
                ),
                &temp_d2,
            );
            proof {
                assert(rounds0.take((round - i) as int).drop_last() =~= rounds0.take(
                    (round - i - 1) as int,
                ));
                assert(transcript_of(rounds0).take((round - i) as int).drop_last()
                    =~= transcript_of(rounds0).take((round - i - 1) as int));
                assert(old(srs).kai@.take((old(srs).kai@.len() - i) as int).drop_last() =~= old(
                    srs,
                ).kai@.take((old(srs).kai@.len() - i - 1) as int));
                assert(old(srs).delta1_l@.take((old(srs).delta1_l@.len() - i) as int).drop_last()
                    =~= old(srs).delta1_l@.take((old(srs).delta1_l@.len() - i - 1) as int));
                assert(old(srs).delta1_r@.take((old(srs).delta1_r@.len() - i) as int).drop_last()
                    =~= old(srs).delta1_r@.take((old(srs).delta1_r@.len() - i - 1) as int));
                assert(old(srs).delta2_l@.take((old(srs).delta2_l@.len() - i) as int).drop_last()
                    =~= old(srs).delta2_l@.take((old(srs).delta2_l@.len() - i - 1) as int));
                assert(old(srs).delta2_r@.take((old(srs).delta2_r@.len() - i) as int).drop_last()
                    =~= old(srs).delta2_r@.take((old(srs).delta2_r@.len() - i - 1) as int));
            }
            i = i + 1;
        }
        proof {
            assert(proof.r_commitment_steps@ =~= rounds0.take(0));
            assert(proof.r_commitment_steps@.len() == 0);
        }
        let g1_0 = ck_message.0[0];
        let g2_0 = ck_message.1[0];
        let kai_scalar = pairing(&g1_0, &g2_0);
        let e1_0 = proof.e1[0];
        let e2_0 = proof.e2[0];
        let new_e1 = g1_add(&e1_0, &g1_scale(&g1_0, &d));
        let new_e2 = g2_add(&e2_0, &g2_scale(&g2_0, &d_inv));
        let left = pairing(&new_e1, &new_e2);
        let temp1 = gt_add(&gt_scale(&c_prime, &fr_mul(&ch_c, &ch_c)), &kai_scalar);
        let temp2 = gt_scale(&d2_prime, &fr_mul(&d, &ch_c));
        let temp4 = gt_scale(&d1_prime, &fr_mul(&d_inv, &ch_c));
        let temp5 = gt_add(&temp2, &temp4);
        let temp6 = fr_add(&fr_add(&proof.r3, &fr_mul(&d, &proof.r2)), &fr_mul(&d_inv, &proof.r1));
        let temp7 = fr_neg(&temp6);
        let right = gt_add(
            &gt_add(
                &gt_add(
                    &gt_add(
                        &gt_add(&gt_add(&temp1, &temp5), &proof.r),
                        &gt_scale(&proof.q, &ch_c),
                    ),
                    &gt_scale(&proof.p2, &d),
                ),
                &gt_scale(&proof.p1, &d_inv),
            ),
            &gt_scale(&srs.ht, &temp7),
        );
        let result = gt_eq(&left, &right);
        proof {
            assert((c_prime, d1_prime, d2_prime) == fold_all(
                *com.2,
                *com.0,
                *com.1,
                rounds0,
                old(srs).kai@,
                old(srs).delta1_l@,
                old(srs).delta1_r@,
                old(srs).delta2_l@,
                old(srs).delta2_r@,
            ));
            assert(result == verify_outcome(
                *old(srs),
                ck_message.0@,
                ck_message.1@,
                (*com.0, *com.1, *com.2),
                *old(proof),
            ));
        }
        Ok(result)
    }

    /// Derives the verifier-side tables from the key vectors: per round,
    /// working from the full length down to two and carrying the left halves
    /// forward, the self-pairing of the working keys and the three
    /// cross-pairings of their halves.  The tables are then reversed, so that
    /// index 0 belongs to the innermost round, and `delta2_l` coincides with
    /// `delta1_l` by construction.
    pub fn precompute(ck_message: (&[G1], &[G2]), h1: &[G1], h2: &[G2]) -> (res: Result<
        DORYSRS,
        DoryError,
    >)
        requires
            ck_message.0@.len() == ck_message.1@.len(),
            is_pow2(ck_message.0@.len()),
            h1@.len() == h2@.len(),
            h1@.len() >= 1,
        ensures
            res is Ok,
            res matches Ok(srs) ==> precomputed_srs(ck_message.0@, ck_message.1@, h1@, h2@, srs),
    {
        let g1v = slice_to_vec(ck_message.0);
        let g2v = slice_to_vec(ck_message.1);
        let n = g1v.len();
        let ghost k = lg(n as nat);
        proof {
            lemma_pow2_lg(n as nat);
        }
        let mut kai: Vec<GT> = Vec::new();
        let mut delta1_l: Vec<GT> = Vec::new();
        let mut delta1_r: Vec<GT> = Vec::new();
        let mut delta2_r: Vec<GT> = Vec::new();
        let mut m = n;
        while m > 1
            invariant
                g1v@ == ck_message.0@,
                g2v@ == ck_message.1@,
                n == g1v@.len(),
                n == g2v@.len(),
                k == lg(n as nat),
                pow2(k) == n,
                kai@.len() <= k,
                delta1_l@.len() == kai@.len(),
                delta1_r@.len() == kai@.len(),
                delta2_r@.len() == kai@.len(),
                m as nat == pow2((k - kai@.len() as nat) as nat),
                m <= n,
                forall|j: int|
                    0 <= j < kai@.len() ==> #[trigger] kai@[j] == ip_of(
                        g1v@.take(pow2((k - j) as nat) as int),
                        g2v@.take(pow2((k - j) as nat) as int),
                    ),
                forall|j: int|
                    0 <= j < kai@.len() ==> #[trigger] delta1_l@[j] == ip_of(
                        g1v@.take(pow2((k - j - 1) as nat) as int),
                        g2v@.take(pow2((k - j - 1) as nat) as int),
                    ),
                forall|j: int|
                    0 <= j < kai@.len() ==> #[trigger] delta1_r@[j] == ip_of(
                        g1v@.subrange(pow2((k - j - 1) as nat) as int, pow2((k - j) as nat) as int),
                        g2v@.take(pow2((k - j - 1) as nat) as int),
                    ),
                forall|j: int|
                    0 <= j < kai@.len() ==> #[trigger] delta2_r@[j] == ip_of(
                        g1v@.take(pow2((k - j - 1) as nat) as int),
                        g2v@.subrange(pow2((k - j - 1) as nat) as int, pow2((k - j) as nat) as int),
                    ),
            decreases m,
        {
            let ghost t = kai@.len() as nat;
            proof {
                if k == t {
                    assert(m as nat == pow2(0));
                }
                assert(k - t >= 1);
                lemma_pow2_halves((k - t) as nat);
            }
            let split = m / 2;
            let pre1 = sub_vec(&g1v, 0, m);
            let pre2 = sub_vec(&g2v, 0, m);
            proof {
                assert(pre1@ =~= g1v@.take(m as int));
                assert(pre2@ =~= g2v@.take(m as int));
                lemma_pow2_pos((k - t - 1) as nat);
            }
            kai.push(inner_product(&pre1, &pre2));
            let l1 = sub_vec(&g1v, 0, split);
            let l2 = sub_vec(&g2v, 0, split);
            let r1v = sub_vec(&g1v, split, m);
            let r2v = sub_vec(&g2v, split, m);
            proof {
                assert(l1@ =~= g1v@.take(split as int));
                assert(l2@ =~= g2v@.take(split as int));
            }
            delta1_l.push(inner_product(&l1, &l2));
            delta1_r.push(inner_product(&r1v, &l2));
            delta2_r.push(inner_product(&l1, &r2v));
            m = split;
        }
        proof {
            lemma_pow2_pos((k - kai@.len() as nat) as nat);
            lemma_pow2_one((k - kai@.len() as nat) as nat);
            assert(kai@.len() == k);
        }
        let kai_rev = vec_reversed(&kai);
        let delta1_l_rev = vec_reversed(&delta1_l);
        let delta1_r_rev = vec_reversed(&delta1_r);
        let delta2_l_rev = vec_reversed(&delta1_l);
        let delta2_r_rev = vec_reversed(&delta2_r);
        let h1v = slice_to_vec(h1);
        let h2v = slice_to_vec(h2);
        let ht = inner_product(&h1v, &h2v);
        let srs = DORYSRS {
            delta1_l: delta1_l_rev,
            delta1_r: delta1_r_rev,
            delta2_l: delta2_l_rev,
            delta2_r: delta2_r_rev,
            kai: kai_rev,
            ht,
        };
        proof {
            assert forall|j: int| 0 <= j < k implies #[trigger] srs.kai@[j] == ip_of(
                ck_message.0@.take(pow2((j + 1) as nat) as int),
                ck_message.1@.take(pow2((j + 1) as nat) as int),
            ) by {
                assert(srs.kai@[j] == kai@[k - 1 - j]);
                assert(k - (k - 1 - j) == j + 1);
            }
            assert forall|j: int| 0 <= j < k implies #[trigger] srs.delta1_l@[j] == ip_of(
                ck_message.0@.take(pow2(j as nat) as int),
                ck_message.1@.take(pow2(j as nat) as int),
            ) by {
                assert(srs.delta1_l@[j] == delta1_l@[k - 1 - j]);
                assert(k - (k - 1 - j) - 1 == j);
            }
            assert forall|j: int| 0 <= j < k implies #[trigger] srs.delta1_r@[j] == ip_of(
                ck_message.0@.subrange(pow2(j as nat) as int, pow2((j + 1) as nat) as int),
                ck_message.1@.take(pow2(j as nat) as int),
            ) by {
                assert(srs.delta1_r@[j] == delta1_r@[k - 1 - j]);
                assert(k - (k - 1 - j) - 1 == j);
                assert(k - (k - 1 - j) == j + 1);
            }
            assert forall|j: int| 0 <= j < k implies #[trigger] srs.delta2_r@[j] == ip_of(
                ck_message.0@.take(pow2(j as nat) as int),
                ck_message.1@.subrange(pow2(j as nat) as int, pow2((j + 1) as nat) as int),
            ) by {
                assert(srs.delta2_r@[j] == delta2_r@[k - 1 - j]);
                assert(k - (k - 1 - j) - 1 == j);
                assert(k - (k - 1 - j) == j + 1);
            }
            assert(srs.delta2_l@ =~= srs.delta1_l@);
        }
        Ok(srs)
    }

    /// Draws a pair of uniformly random key vectors of the given length.  The
    /// G2-valued key comes first in the returned pair; callers must preserve
    /// this order.
    pub fn setup(rng: &mut StdRng, size: usize) -> (res: Result<(Vec<G2>, Vec<G1>), DoryError>)
        ensures
            res is Ok,
            res matches Ok(keys) ==> keys.0@.len() == size && keys.1@.len() == size,
    {
        let mut gamma1: Vec<G1> = Vec::new();
        let mut i: usize = 0;
        while i < size
            invariant
                0 <= i <= size,
                gamma1@.len() == i,
            decreases size - i,
        {
            gamma1.push(g1_rand(rng));
            i = i + 1;
        }
        let mut gamma2: Vec<G2> = Vec::new();
        let mut j: usize = 0;
        while j < size
            invariant
                0 <= j <= size,
                gamma2@.len() == j,
            decreases size - j,
        {
            gamma2.push(g2_rand(rng));
            j = j + 1;
        }
        Ok((gamma2, gamma1))
    }
}

} // verus!
