//! The BLS12-381 algebra that the argument is built over.
//!
//! Scalars, the two source groups and the pairing target group are opaque to
//! the verifier.  Every operation on them is a trusted wrapper around the
//! arkworks implementation, and the result of each deterministic operation is
//! given an uninterpreted name; the contracts of the rest of the crate are
//! stated over those names.

use vstd::prelude::*;

use ark_ec::PairingEngine;
use ark_ff::{Field, PrimeField, ToBytes, UniformRand};
use ark_std::rand::rngs::StdRng;
use blake2::Blake2b;
use digest::Digest;

verus! {

/// The scalar field of BLS12-381.
pub type Scalar = ark_ff::Fp256<ark_bls12_381::FrParameters>;

#[verifier::external_type_specification]
#[verifier::external_body]
#[verifier::reject_recursive_types(P)]
pub struct ExFp<P>(ark_ff::Fp256<P>);

#[verifier::external_type_specification]
#[verifier::external_body]
pub struct ExFrParameters(ark_bls12_381::FrParameters);

#[verifier::external_type_specification]
#[verifier::external_body]
pub struct ExStdRng(StdRng);

/// An element of the first pairing source group, in projective coordinates.
///
/// The arkworks point type cannot be declared to the verifier (its generic
/// parameter carries a trait bound of the outside crate), so the point is
/// held opaquely; the public field lets unverified callers convert.
#[verifier::external_body]
pub struct G1 {
    pub elem: ark_ec::short_weierstrass_jacobian::GroupProjective<ark_bls12_381::g1::Parameters>,
}

/// An element of the second pairing source group, in projective coordinates.
///
/// Held opaquely for the same reason as the first group's points.
#[verifier::external_body]
pub struct G2 {
    pub elem: ark_ec::short_weierstrass_jacobian::GroupProjective<ark_bls12_381::g2::Parameters>,
}

/// An element of the pairing target group, written additively throughout
/// this crate.
///
/// Held opaquely for the same reason as the source groups' points.
#[verifier::external_body]
pub struct GT {
    pub elem: ark_ff::QuadExtField<ark_ff::Fp12ParamsWrapper<ark_bls12_381::Fq12Parameters>>,
}

impl Clone for G1 {
    /// Relies on the points being plain coordinate data.
    #[verifier::external_body]
    fn clone(&self) -> (r: Self)
        ensures
            r == *self,
    {
        G1 { elem: self.elem }
    }
}

impl Copy for G1 {

}

impl Clone for G2 {
    /// Relies on the points being plain coordinate data.
    #[verifier::external_body]
    fn clone(&self) -> (r: Self)
        ensures
            r == *self,
    {
        G2 { elem: self.elem }
    }
}

impl Copy for G2 {

}

impl Clone for GT {
    /// Relies on the elements being plain coordinate data.
    #[verifier::external_body]
    fn clone(&self) -> (r: Self)
        ensures
            r == *self,
    {
        GT { elem: self.elem }
    }
}

impl Copy for GT {

}

/// Relies on `Clone` for `ark_ff::Fp256`, a `Copy` type whose derived clone
/// returns the value itself.
pub assume_specification<P>[ <ark_ff::Fp256<P> as Clone>::clone ](a: &ark_ff::Fp256<P>) -> (r:
    ark_ff::Fp256<P>)
    ensures
        r == *a,
;

pub uninterp spec fn fr_sum(a: Scalar, b: Scalar) -> Scalar;

/// Relies on the addition of `ark_ff::Fp256`.
#[verifier::external_body]
pub(crate) fn fr_add(a: &Scalar, b: &Scalar) -> (r: Scalar)
    ensures
        r == fr_sum(*a, *b),
{
    *a + *b
}

pub uninterp spec fn fr_prod(a: Scalar, b: Scalar) -> Scalar;

/// Relies on the multiplication of `ark_ff::Fp256`.
#[verifier::external_body]
pub(crate) fn fr_mul(a: &Scalar, b: &Scalar) -> (r: Scalar)
    ensures
        r == fr_prod(*a, *b),
{
    *a * *b
}

pub uninterp spec fn fr_neg_of(a: Scalar) -> Scalar;

/// Relies on the negation of `ark_ff::Fp256`.
#[verifier::external_body]
pub(crate) fn fr_neg(a: &Scalar) -> (r: Scalar)
    ensures
        r == fr_neg_of(*a),
{
    -*a
}

pub uninterp spec fn fr_inv_of(a: Scalar) -> Option<Scalar>;

/// Relies on `ark_ff::Field::inverse`, which is `None` exactly on zero.
#[verifier::external_body]
pub(crate) fn fr_inverse(a: &Scalar) -> (r: Option<Scalar>)
    ensures
        r == fr_inv_of(*a),
{
    a.inverse()
}

pub uninterp spec fn fr_of_u128(x: u128) -> Scalar;

/// Relies on `From<u128>` for `ark_ff::Fp256`: the integer reduced into the field.
#[verifier::external_body]
pub(crate) fn fr_from_u128(x: u128) -> (r: Scalar)
    ensures
        r == fr_of_u128(x),
{
    Scalar::from(x)
}

pub uninterp spec fn fr_bytes(a: Scalar) -> Seq<u8>;

/// Relies on `ark_ff::ToBytes` for `ark_ff::Fp256`: the canonical
/// little-endian encoding of the element.
#[verifier::external_body]
pub(crate) fn fr_to_bytes(a: &Scalar) -> (r: Vec<u8>)
    ensures
        r@ == fr_bytes(*a),
{
    let mut out = Vec::new();
    ToBytes::write(a, &mut out).unwrap();
    out
}

pub uninterp spec fn g1_sum(a: G1, b: G1) -> G1;

/// Relies on the group addition of `ark_ec`'s projective points.
#[verifier::external_body]
pub(crate) fn g1_add(a: &G1, b: &G1) -> (r: G1)
    ensures
        r == g1_sum(*a, *b),
{
    G1 { elem: a.elem + b.elem }
}

pub uninterp spec fn g1_scaled(a: G1, s: Scalar) -> G1;

/// Relies on the scalar multiplication of `ark_ec`'s projective points.
#[verifier::external_body]
pub(crate) fn g1_scale(a: &G1, s: &Scalar) -> (r: G1)
    ensures
        r == g1_scaled(*a, *s),
{
    let mut t = a.elem;
    t *= *s;
    G1 { elem: t }
}

pub uninterp spec fn g1_bytes(a: G1) -> Seq<u8>;

/// Relies on `ark_ff::ToBytes` for projective points, which writes the three
/// Jacobian coordinates and so is a function of the representation held here.
#[verifier::external_body]
pub(crate) fn g1_to_bytes(a: &G1) -> (r: Vec<u8>)
    ensures
        r@ == g1_bytes(*a),
{
    let mut out = Vec::new();
    ToBytes::write(&a.elem, &mut out).unwrap();
    out
}

/// Relies on `ark_std::UniformRand`: a point sampled from the given generator.
#[verifier::external_body]
pub(crate) fn g1_rand(rng: &mut StdRng) -> G1 {
    G1 { elem: UniformRand::rand(rng) }
}

pub uninterp spec fn g2_sum(a: G2, b: G2) -> G2;

/// Relies on the group addition of `ark_ec`'s projective points.
#[verifier::external_body]
pub(crate) fn g2_add(a: &G2, b: &G2) -> (r: G2)
    ensures
        r == g2_sum(*a, *b),
{
    G2 { elem: a.elem + b.elem }
}

pub uninterp spec fn g2_scaled(a: G2, s: Scalar) -> G2;

/// Relies on the scalar multiplication of `ark_ec`'s projective points.
#[verifier::external_body]
pub(crate) fn g2_scale(a: &G2, s: &Scalar) -> (r: G2)
    ensures
        r == g2_scaled(*a, *s),
{
    let mut t = a.elem;
    t *= *s;
    G2 { elem: t }
}

pub uninterp spec fn g2_bytes(a: G2) -> Seq<u8>;

/// Relies on `ark_ff::ToBytes` for projective points, which writes the three
/// Jacobian coordinates and so is a function of the representation held here.
#[verifier::external_body]
pub(crate) fn g2_to_bytes(a: &G2) -> (r: Vec<u8>)
    ensures
        r@ == g2_bytes(*a),
{
    let mut out = Vec::new();
    ToBytes::write(&a.elem, &mut out).unwrap();
    out
}

/// Relies on `ark_std::UniformRand`: a point sampled from the given generator.
#[verifier::external_body]
pub(crate) fn g2_rand(rng: &mut StdRng) -> G2 {
    G2 { elem: UniformRand::rand(rng) }
}

/// Relies on `ark_std::UniformRand`: a field element sampled from the given
/// generator.
#[verifier::external_body]
pub(crate) fn fr_rand(rng: &mut StdRng) -> Scalar {
    <Scalar as UniformRand>::rand(rng)
}

pub uninterp spec fn gt_sum(a: GT, b: GT) -> GT;

/// Relies on the multiplication of `ark_ff::QuadExtField`: the target group
/// is multiplicative, and is written additively throughout this crate.
#[verifier::external_body]
pub(crate) fn gt_add(a: &GT, b: &GT) -> (r: GT)
    ensures
        r == gt_sum(*a, *b),
{
    GT { elem: a.elem * b.elem }
}

pub uninterp spec fn gt_scaled(a: GT, s: Scalar) -> GT;

/// Relies on `ark_ff::Field::pow`: exponentiation is the scalar action on the
/// multiplicative target group.
#[verifier::external_body]
pub(crate) fn gt_scale(a: &GT, s: &Scalar) -> (r: GT)
    ensures
        r == gt_scaled(*a, *s),
{
    GT { elem: a.elem.pow(s.into_repr()) }
}

pub uninterp spec fn gt_bytes(a: GT) -> Seq<u8>;

/// Relies on `ark_ff::ToBytes` for `ark_ff::QuadExtField`: the canonical
/// encoding of the twelve base-field coefficients.
#[verifier::external_body]
pub(crate) fn gt_to_bytes(a: &GT) -> (r: Vec<u8>)
    ensures
        r@ == gt_bytes(*a),
{
    let mut out = Vec::new();
    ToBytes::write(&a.elem, &mut out).unwrap();
    out
}

/// Relies on `PartialEq` for `ark_ff::QuadExtField`, which compares the
/// canonical coefficient representation and so agrees with value equality.
#[verifier::external_body]
pub(crate) fn gt_eq(a: &GT, b: &GT) -> (r: bool)
    ensures
        r == (*a == *b),
{
    a.elem == b.elem
}

pub uninterp spec fn pairing_of(a: G1, b: G2) -> GT;

/// Relies on `ark_ec::PairingEngine::pairing` for BLS12-381.
#[verifier::external_body]
pub(crate) fn pairing(a: &G1, b: &G2) -> (r: GT)
    ensures
        r == pairing_of(*a, *b),
{
    GT { elem: ark_bls12_381::Bls12_381::pairing(a.elem, b.elem) }
}

pub uninterp spec fn blake2b_of(input: Seq<u8>) -> Seq<u8>;

/// Relies on `blake2::Blake2b` through the `digest` interface: a 512-bit
/// digest of the input bytes.
#[verifier::external_body]
pub(crate) fn blake2b(input: &Vec<u8>) -> (r: Vec<u8>)
    ensures
        r@ == blake2b_of(input@),
        r@.len() == 64,
{
    Blake2b::digest(input.as_slice()).to_vec()
}

} // verus!
