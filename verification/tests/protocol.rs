//! End-to-end prove/verify cycles on BLS12-381: completeness across sizes,
//! the proof's shape, and rejection of tampered proofs.

use ark_bls12_381::{G1Projective, G2Projective};
use ark_serialize::{CanonicalDeserialize, CanonicalSerialize};
use ark_std::rand::rngs::StdRng;
use ark_std::rand::SeedableRng;
use ark_std::UniformRand;

use dory_with_zk::algebra::{Scalar, G1, G2, GT};
use dory_with_zk::dory::{DoryError, DORY, DORYProof, DORYSRS};

struct Instance {
    gamma1: Vec<G1>,
    gamma2: Vec<G2>,
    srs: DORYSRS,
    c: GT,
    d1: GT,
    d2: GT,
    proof: DORYProof,
}

fn make_instance(n: usize, seed: u64) -> Instance {
    let mut rng = StdRng::seed_from_u64(seed);
    let keys = DORY::setup(&mut rng, n).unwrap();
    let gamma2: Vec<G2> = keys.0;
    let gamma1: Vec<G1> = keys.1;
    let h1 = vec![G1 { elem: G1Projective::rand(&mut rng) }];
    let h2 = vec![G2 { elem: G2Projective::rand(&mut rng) }];
    let mut v1: Vec<G1> = Vec::new();
    let mut v2: Vec<G2> = Vec::new();
    for _ in 0..n {
        v1.push(G1 { elem: G1Projective::rand(&mut rng) });
        v2.push(G2 { elem: G2Projective::rand(&mut rng) });
    }
    let r_c = Scalar::rand(&mut rng);
    let r_d1 = Scalar::rand(&mut rng);
    let r_d2 = Scalar::rand(&mut rng);
    let srs = DORY::precompute((&gamma1, &gamma2), &h1, &h2).unwrap();
    let (c, d1, d2) =
        DORY::init_commit(&v1, &v2, &gamma1, &gamma2, &r_c, &r_d1, &r_d2, &h1, &h2).unwrap();
    let proof = DORY::prove(
        (&v1, &v2),
        &srs,
        (&gamma1, &gamma2),
        (&r_c, &r_d1, &r_d2),
        &mut rng,
    )
    .unwrap();
    Instance { gamma1, gamma2, srs, c, d1, d2, proof }
}

fn check(inst: &Instance) -> Result<bool, DoryError> {
    check_proof(inst, inst.proof.clone())
}

fn check_proof(inst: &Instance, mut proof: DORYProof) -> Result<bool, DoryError> {
    let mut srs = inst.srs.clone();
    DORY::verify(
        &mut srs,
        (&inst.gamma1, &inst.gamma2),
        (&inst.d1, &inst.d2, &inst.c),
        &mut proof,
    )
}

#[test]
fn completeness_n1() {
    let inst = make_instance(1, 0);
    assert_eq!(inst.proof.r_commitment_steps.len(), 0);
    assert_eq!(check(&inst), Ok(true));
}

#[test]
fn completeness_n2() {
    let inst = make_instance(2, 0);
    assert_eq!(inst.proof.r_commitment_steps.len(), 1);
    assert_eq!(check(&inst), Ok(true));
}

#[test]
fn completeness_n4() {
    let inst = make_instance(4, 0);
    assert_eq!(check(&inst), Ok(true));
}

#[test]
fn completeness_n8() {
    let inst = make_instance(8, 0);
    assert_eq!(check(&inst), Ok(true));
}

#[test]
fn completeness_n8_under_another_seed() {
    let inst = make_instance(8, 42);
    assert_eq!(check(&inst), Ok(true));
}

#[test]
fn completeness_n16() {
    let inst = make_instance(16, 0);
    assert_eq!(inst.proof.r_commitment_steps.len(), 4);
    assert_eq!(inst.proof.e1.len(), 1);
    assert_eq!(inst.proof.e2.len(), 1);
    assert_eq!(check(&inst), Ok(true));
}

#[test]
fn completeness_n32() {
    let inst = make_instance(32, 0);
    assert_eq!(check(&inst), Ok(true));
}

#[test]
fn completeness_n64() {
    let inst = make_instance(64, 0);
    assert_eq!(check(&inst), Ok(true));
}

#[test]
fn tamper_r3_bit_flip() {
    let inst = make_instance(16, 0);
    let mut proof = inst.proof.clone();
    let mut buf: Vec<u8> = Vec::new();
    proof.r3.serialize(&mut buf).unwrap();
    buf[0] ^= 1;
    proof.r3 = Scalar::deserialize(&buf[..]).unwrap();
    assert_eq!(check_proof(&inst, proof), Ok(false));
}

#[test]
fn tamper_r1_bit_flip() {
    let inst = make_instance(4, 0);
    let mut proof = inst.proof.clone();
    let mut buf: Vec<u8> = Vec::new();
    proof.r1.serialize(&mut buf).unwrap();
    buf[0] ^= 1;
    proof.r1 = Scalar::deserialize(&buf[..]).unwrap();
    assert_eq!(check_proof(&inst, proof), Ok(false));
}

#[test]
fn tamper_swap_rounds() {
    let inst = make_instance(16, 0);
    let mut proof = inst.proof.clone();
    proof.r_commitment_steps.swap(0, 1);
    assert_eq!(check_proof(&inst, proof), Ok(false));
}

#[test]
fn tamper_replace_c_plus() {
    let inst = make_instance(4, 0);
    let mut proof = inst.proof.clone();
    let other = proof.r_commitment_steps[1].0 .2;
    proof.r_commitment_steps[0].0 .2 = other;
    assert_eq!(check_proof(&inst, proof), Ok(false));
}

#[test]
fn tamper_swap_d1_l_entries() {
    let inst = make_instance(4, 0);
    let mut proof = inst.proof.clone();
    let a = proof.r_commitment_steps[0].0 .0;
    let b = proof.r_commitment_steps[1].0 .0;
    proof.r_commitment_steps[0].0 .0 = b;
    proof.r_commitment_steps[1].0 .0 = a;
    assert_eq!(check_proof(&inst, proof), Ok(false));
}

#[test]
fn verify_under_foreign_srs() {
    let inst = make_instance(16, 0);
    let other = make_instance(16, 1);
    let mut srs = other.srs.clone();
    let mut proof = inst.proof.clone();
    let res = DORY::verify(
        &mut srs,
        (&other.gamma1, &other.gamma2),
        (&inst.d1, &inst.d2, &inst.c),
        &mut proof,
    );
    assert_eq!(res, Ok(false));
}

#[test]
fn srs_reuse_across_proofs() {
    let n = 4;
    let mut rng = StdRng::seed_from_u64(0);
    let keys = DORY::setup(&mut rng, n).unwrap();
    let gamma2: Vec<G2> = keys.0;
    let gamma1: Vec<G1> = keys.1;
    let h1 = vec![G1 { elem: G1Projective::rand(&mut rng) }];
    let h2 = vec![G2 { elem: G2Projective::rand(&mut rng) }];
    let srs = DORY::precompute((&gamma1, &gamma2), &h1, &h2).unwrap();
    for _ in 0..2 {
        let mut v1: Vec<G1> = Vec::new();
        let mut v2: Vec<G2> = Vec::new();
        for _ in 0..n {
            v1.push(G1 { elem: G1Projective::rand(&mut rng) });
            v2.push(G2 { elem: G2Projective::rand(&mut rng) });
        }
        let r_c = Scalar::rand(&mut rng);
        let r_d1 = Scalar::rand(&mut rng);
        let r_d2 = Scalar::rand(&mut rng);
        let (c, d1, d2) =
            DORY::init_commit(&v1, &v2, &gamma1, &gamma2, &r_c, &r_d1, &r_d2, &h1, &h2).unwrap();
        let mut proof = DORY::prove(
            (&v1, &v2),
            &srs,
            (&gamma1, &gamma2),
            (&r_c, &r_d1, &r_d2),
            &mut rng,
        )
        .unwrap();
        let mut srs_copy = srs.clone();
        let res = DORY::verify(&mut srs_copy, (&gamma1, &gamma2), (&d1, &d2, &c), &mut proof);
        assert_eq!(res, Ok(true));
    }
}
