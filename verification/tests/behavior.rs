//! Determinism, commitment binding, the transcript recomputation, and the
//! length preconditions.

use ark_bls12_381::{G1Projective, G2Projective};
use ark_ff::{One, PrimeField};
use ark_std::rand::rngs::StdRng;
use ark_std::rand::SeedableRng;
use ark_std::UniformRand;

use dory_with_zk::algebra::{Scalar, G1, G2, GT};
use dory_with_zk::dory::{DoryError, DORY, DORYProof, DORYSRS};

fn gt_same(a: &GT, b: &GT) -> bool {
    a.elem == b.elem
}

struct Setting {
    gamma1: Vec<G1>,
    gamma2: Vec<G2>,
    h1: Vec<G1>,
    h2: Vec<G2>,
    v1: Vec<G1>,
    v2: Vec<G2>,
    r_c: Scalar,
    r_d1: Scalar,
    r_d2: Scalar,
    srs: DORYSRS,
    rng: StdRng,
}

fn make_setting(n: usize, seed: u64) -> Setting {
    let mut rng = StdRng::seed_from_u64(seed);
    let keys = DORY::setup(&mut rng, n).unwrap();
    let gamma2: Vec<G2> = keys.0;
    let gamma1: Vec<G1> = keys.1;
    let h1 = vec![G1 { elem: G1Projective::rand(&mut rng) }];
    let h2 = vec![G2 { elem: G2Projective::rand(&mut rng) }];
    let mut v1: Vec<G1> = Vec::new();
    let mut v2: Vec<G2> = Vec::new();
    for _ in 0..n {
        v1.push(G1 { elem: G1Projective::rand(&mut rng) });
        v2.push(G2 { elem: G2Projective::rand(&mut rng) });
    }
    let r_c = Scalar::rand(&mut rng);
    let r_d1 = Scalar::rand(&mut rng);
    let r_d2 = Scalar::rand(&mut rng);
    let srs = DORY::precompute((&gamma1, &gamma2), &h1, &h2).unwrap();
    Setting { gamma1, gamma2, h1, h2, v1, v2, r_c, r_d1, r_d2, srs, rng }
}

fn make_proof(s: &mut Setting) -> DORYProof {
    DORY::prove(
        (&s.v1, &s.v2),
        &s.srs,
        (&s.gamma1, &s.gamma2),
        (&s.r_c, &s.r_d1, &s.r_d2),
        &mut s.rng,
    )
    .unwrap()
}

fn proofs_equal(a: &DORYProof, b: &DORYProof) -> bool {
    if a.r_commitment_steps.len() != b.r_commitment_steps.len() {
        return false;
    }
    for (x, y) in a.r_commitment_steps.iter().zip(b.r_commitment_steps.iter()) {
        if !(gt_same(&x.0 .0, &y.0 .0)
            && gt_same(&x.0 .1, &y.0 .1)
            && gt_same(&x.0 .2, &y.0 .2)
            && gt_same(&x.1 .0, &y.1 .0)
            && gt_same(&x.1 .1, &y.1 .1)
            && gt_same(&x.1 .2, &y.1 .2))
        {
            return false;
        }
    }
    a.e1.len() == b.e1.len()
        && a.e2.len() == b.e2.len()
        && a.e1[0].elem == b.e1[0].elem
        && a.e2[0].elem == b.e2[0].elem
        && gt_same(&a.p1, &b.p1)
        && gt_same(&a.p2, &b.p2)
        && gt_same(&a.q, &b.q)
        && gt_same(&a.r, &b.r)
        && a.r1 == b.r1
        && a.r2 == b.r2
        && a.r3 == b.r3
}

#[test]
fn prove_is_deterministic_under_fixed_seed() {
    let mut s1 = make_setting(4, 7);
    let mut s2 = make_setting(4, 7);
    let p1 = make_proof(&mut s1);
    let p2 = make_proof(&mut s2);
    assert!(proofs_equal(&p1, &p2));
}

#[test]
fn reverification_is_idempotent() {
    let mut s = make_setting(4, 0);
    let (c, d1, d2) = DORY::init_commit(
        &s.v1, &s.v2, &s.gamma1, &s.gamma2, &s.r_c, &s.r_d1, &s.r_d2, &s.h1, &s.h2,
    )
    .unwrap();
    let proof = make_proof(&mut s);
    let mut first: Option<Result<bool, DoryError>> = None;
    for _ in 0..2 {
        let mut srs = s.srs.clone();
        let mut p = proof.clone();
        let res = DORY::verify(&mut srs, (&s.gamma1, &s.gamma2), (&d1, &d2, &c), &mut p);
        match &first {
            None => first = Some(res),
            Some(prev) => assert_eq!(*prev, res),
        }
    }
    assert_eq!(first, Some(Ok(true)));
}

#[test]
fn transcript_recomputation_is_deterministic() {
    let mut s = make_setting(4, 3);
    let proof = make_proof(&mut s);
    let (tr1, ch1) = DORY::verify_recursive_challenge_transcript(&proof).unwrap();
    let (tr2, ch2) = DORY::verify_recursive_challenge_transcript(&proof).unwrap();
    assert_eq!(tr1.len(), 2);
    assert_eq!(tr1, tr2);
    assert_eq!(ch1, ch2);
}

#[test]
fn challenge_pairs_swap_the_drawn_value_into_the_inverse_slot() {
    let mut s = make_setting(4, 11);
    let proof = make_proof(&mut s);
    let (tr, _) = DORY::verify_recursive_challenge_transcript(&proof).unwrap();
    assert_eq!(tr.len(), 2);
    for (alpha, alpha_inv, beta, beta_inv) in tr {
        assert_eq!(alpha * alpha_inv, Scalar::one());
        assert_eq!(beta * beta_inv, Scalar::one());
        // The drawn scalar is 128 bits wide and is stored in the `_inv`
        // position; its full-size inverse is stored under the plain name.
        let a = alpha_inv.into_repr().0;
        let b = beta_inv.into_repr().0;
        assert_eq!(a[2], 0);
        assert_eq!(a[3], 0);
        assert_eq!(b[2], 0);
        assert_eq!(b[3], 0);
    }
}

#[test]
fn binding_changing_a_witness_entry_changes_all_commitments() {
    let s = make_setting(4, 5);
    let (c, d1, d2) = DORY::init_commit(
        &s.v1, &s.v2, &s.gamma1, &s.gamma2, &s.r_c, &s.r_d1, &s.r_d2, &s.h1, &s.h2,
    )
    .unwrap();
    let mut rng = StdRng::seed_from_u64(99);
    let mut v1 = s.v1.clone();
    v1[0] = G1 { elem: v1[0].elem + G1Projective::rand(&mut rng) };
    let (c2, d12, d22) = DORY::init_commit(
        &v1, &s.v2, &s.gamma1, &s.gamma2, &s.r_c, &s.r_d1, &s.r_d2, &s.h1, &s.h2,
    )
    .unwrap();
    assert!(!gt_same(&c, &c2));
    assert!(!gt_same(&d1, &d12));
    assert!(gt_same(&d2, &d22));
    let mut v2 = s.v2.clone();
    v2[0] = G2 { elem: v2[0].elem + G2Projective::rand(&mut rng) };
    let (c3, d13, d23) = DORY::init_commit(
        &s.v1, &v2, &s.gamma1, &s.gamma2, &s.r_c, &s.r_d1, &s.r_d2, &s.h1, &s.h2,
    )
    .unwrap();
    assert!(!gt_same(&c, &c3));
    assert!(gt_same(&d1, &d13));
    assert!(!gt_same(&d2, &d23));
    let (c4, d14, d24) = DORY::init_commit(
        &v1, &v2, &s.gamma1, &s.gamma2, &s.r_c, &s.r_d1, &s.r_d2, &s.h1, &s.h2,
    )
    .unwrap();
    assert!(!gt_same(&c, &c4));
    assert!(!gt_same(&d1, &d14));
    assert!(!gt_same(&d2, &d24));
}

#[test]
fn verify_rejects_empty_keys() {
    let mut s = make_setting(4, 0);
    let (c, d1, d2) = DORY::init_commit(
        &s.v1, &s.v2, &s.gamma1, &s.gamma2, &s.r_c, &s.r_d1, &s.r_d2, &s.h1, &s.h2,
    )
    .unwrap();
    let mut proof = make_proof(&mut s);
    let mut srs = s.srs.clone();
    let res = DORY::verify(
        &mut srs,
        (&s.gamma1[0..0], &s.gamma2[0..0]),
        (&d1, &d2, &c),
        &mut proof,
    );
    assert_eq!(res, Err(DoryError::MessageLengthInvalid(0, 0)));
}

#[test]
fn verify_rejects_non_power_of_two_keys() {
    let mut s = make_setting(4, 0);
    let (c, d1, d2) = DORY::init_commit(
        &s.v1, &s.v2, &s.gamma1, &s.gamma2, &s.r_c, &s.r_d1, &s.r_d2, &s.h1, &s.h2,
    )
    .unwrap();
    let mut proof = make_proof(&mut s);
    let mut srs = s.srs.clone();
    let res = DORY::verify(
        &mut srs,
        (&s.gamma1[0..3], &s.gamma2[0..3]),
        (&d1, &d2, &c),
        &mut proof,
    );
    assert_eq!(res, Err(DoryError::MessageLengthInvalid(3, 3)));
}

#[test]
fn verify_rejects_mismatched_key_lengths() {
    let mut s = make_setting(4, 0);
    let (c, d1, d2) = DORY::init_commit(
        &s.v1, &s.v2, &s.gamma1, &s.gamma2, &s.r_c, &s.r_d1, &s.r_d2, &s.h1, &s.h2,
    )
    .unwrap();
    let mut proof = make_proof(&mut s);
    let mut srs = s.srs.clone();
    let res = DORY::verify(
        &mut srs,
        (&s.gamma1[0..4], &s.gamma2[0..2]),
        (&d1, &d2, &c),
        &mut proof,
    );
    assert_eq!(res, Err(DoryError::MessageLengthInvalid(4, 2)));
}

#[test]
fn init_commit_reports_the_offending_lengths() {
    let s = make_setting(2, 0);
    let short_v2: Vec<G2> = vec![s.v2[0]];
    let res = DORY::init_commit(
        &s.v1, &short_v2, &s.gamma1, &s.gamma2, &s.r_c, &s.r_d1, &s.r_d2, &s.h1, &s.h2,
    );
    match res {
        Err(e) => assert_eq!(e, DoryError::MessageLengthInvalid(2, 1)),
        Ok(_) => panic!("expected a length error"),
    }
    let short_h2: Vec<G2> = Vec::new();
    let res = DORY::init_commit(
        &s.v1, &s.v2, &s.gamma1, &s.gamma2, &s.r_c, &s.r_d1, &s.r_d2, &s.h1, &short_h2,
    );
    match res {
        Err(e) => assert_eq!(e, DoryError::MessageLengthInvalid(1, 0)),
        Ok(_) => panic!("expected a length error"),
    }
}
