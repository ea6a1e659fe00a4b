//! Fiat–Shamir challenges.
//!
//! A challenge is a pure function of the serialized public messages that
//! precede it: the first sixteen bytes of a 512-bit digest, read big-endian
//! and lifted into the scalar field, so that the drawn value fits in 128
//! bits.  Challenges that are used together with their inverse are redrawn
//! under an incrementing counter nonce until the drawn scalar is invertible.

use vstd::prelude::*;

use crate::algebra::{blake2b, blake2b_of, fr_from_u128, fr_inv_of, fr_inverse, fr_of_u128, Scalar};
use crate::codec::{
    extend_bytes, u128_from_be_prefix, u128_of_be, u64_be_bytes_of, u64_to_be_bytes,
};

verus! {

/// The challenge drawn from `input`: the first sixteen digest bytes read as a
/// big-endian integer and lifted into the scalar field.
pub open spec fn chal_of(input: Seq<u8>) -> Scalar {
    fr_of_u128(u128_of_be(blake2b_of(input).take(16)))
}

/// The challenge drawn when the counter nonce `c` is prepended to `input`.
pub open spec fn chal_at(c: u64, input: Seq<u8>) -> Scalar {
    chal_of(u64_be_bytes_of(c) + input)
}

/// Whether the scalar has a multiplicative inverse.
pub open spec fn invertible(x: Scalar) -> bool {
    fr_inv_of(x) is Some
}

/// The inverse of an invertible scalar.
pub open spec fn inv_of(x: Scalar) -> Scalar
    recommends
        invertible(x),
{
    fr_inv_of(x).unwrap()
}

/// `c` is at least `start`, its challenge is invertible, and the challenge of
/// no counter between `start` and `c` is.
pub open spec fn accepted_nonce(input: Seq<u8>, start: u64, c: u64) -> bool {
    &&& start <= c
    &&& invertible(chal_at(c, input))
    &&& forall|j: u64| start <= j < c ==> !invertible(chal_at(j, input))
}

/// The counter at which the retry loop that starts at `start` stops.
pub open spec fn nonce_from(input: Seq<u8>, start: u64) -> u64 {
    choose|c: u64| accepted_nonce(input, start, c)
}

/// The invertible challenge that the retry loop starting at `start` draws.
pub open spec fn drawn_from(input: Seq<u8>, start: u64) -> Scalar {
    chal_at(nonce_from(input, start), input)
}

/// At most one counter is accepted for a given input and starting point.
pub proof fn lemma_accepted_nonce_unique(input: Seq<u8>, start: u64, c1: u64, c2: u64)
    requires
        accepted_nonce(input, start, c1),
        accepted_nonce(input, start, c2),
    ensures
        c1 == c2,
{
    if c1 < c2 {
        assert(!invertible(chal_at(c1, input)));
    }
    if c2 < c1 {
        assert(!invertible(chal_at(c2, input)));
    }
}

/// Draws the challenge of `input` with no counter nonce.
pub(crate) fn draw_challenge(input: &Vec<u8>) -> (r: Scalar)
    ensures
        r == chal_of(input@),
{
    let digest = blake2b(input);
    let x = u128_from_be_prefix(&digest);
    proof {
        assert(digest@.take(16) == blake2b_of(input@).take(16));
    }
    fr_from_u128(x)
}

/// Draws the challenge of `input` under the counter nonce `c`.
pub(crate) fn draw_challenge_at(c: u64, input: &Vec<u8>) -> (r: Scalar)
    ensures
        r == chal_at(c, input@),
{
    let mut buf = u64_to_be_bytes(c);
    extend_bytes(&mut buf, input);
    draw_challenge(&buf)
}

/// Whether the retry loop that starts at `start` accepts some counter.
pub open spec fn some_nonce_accepted(input: Seq<u8>, start: u64) -> bool {
    exists|c: u64| accepted_nonce(input, start, c)
}

/// Redraws a challenge under an incrementing counter nonce, starting at
/// `counter0`, until the drawn scalar is invertible.  Returns the inverse,
/// the drawn scalar, and the accepted counter, or `None` once the counter
/// space is exhausted.
pub(crate) fn challenge_with_inverse(counter0: u64, input: &Vec<u8>) -> (r: Option<
    (Scalar, Scalar, u64),
>)
    ensures
        r is Some <==> some_nonce_accepted(input@, counter0),
        r matches Some(v) ==> {
            &&& v.2 == nonce_from(input@, counter0)
            &&& v.1 == drawn_from(input@, counter0)
            &&& fr_inv_of(v.1) == Some(v.0)
            &&& accepted_nonce(input@, counter0, v.2)
        },
{
    let mut counter = counter0;
    loop
        invariant
            counter0 <= counter,
            forall|j: u64| counter0 <= j < counter ==> !invertible(chal_at(j, input@)),
        decreases u64::MAX - counter,
    {
        let x = draw_challenge_at(counter, input);
        let x_inv = fr_inverse(&x);
        if x_inv.is_some() {
            proof {
                assert(accepted_nonce(input@, counter0, counter));
                lemma_accepted_nonce_unique(
                    input@,
                    counter0,
                    counter,
                    nonce_from(input@, counter0),
                );
            }
            return Some((x_inv.unwrap(), x, counter));
        }
        if counter == u64::MAX {
            proof {
                assert forall|c: u64| !accepted_nonce(input@, counter0, c) by {
                    if counter0 <= c {
                        if c < u64::MAX {
                            assert(!invertible(chal_at(c, input@)));
                        } else {
                            assert(chal_at(c, input@) == x);
                        }
                    }
                }
            }
            return None;
        }
        counter = counter + 1;
    }
}

/// Draws the challenge of `input`, whose serialization carries no counter
/// nonce, and its inverse.  Redrawing a non-invertible challenge would hash
/// the same input again, so a single non-invertible draw already decides the
/// outcome: `None`.
pub(crate) fn challenge_inverse_plain(input: &Vec<u8>) -> (r: Option<(Scalar, Scalar)>)
    ensures
        r is Some <==> invertible(chal_of(input@)),
        r matches Some(v) ==> {
            &&& v.1 == chal_of(input@)
            &&& fr_inv_of(v.1) == Some(v.0)
        },
{
    let x = draw_challenge(input);
    match fr_inverse(&x) {
        Some(xinv) => Some((xinv, x)),
        None => None,
    }
}

} // verus!
