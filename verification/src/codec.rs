//! Fixed-width big-endian integer encodings used by the Fiat–Shamir
//! transcript: the retry counter is absorbed as eight big-endian bytes, and a
//! challenge is the first sixteen digest bytes read as a big-endian integer.

use vstd::prelude::*;

verus! {

/// `256^n`.
pub open spec fn pow256(n: nat) -> nat
    decreases n,
{
    if n == 0 {
        1
    } else {
        256 * pow256((n - 1) as nat)
    }
}

/// The big-endian value of a byte string.
pub open spec fn be_val(s: Seq<u8>) -> nat
    decreases s.len(),
{
    if s.len() == 0 {
        0
    } else {
        be_val(s.drop_last()) * 256 + s.last() as nat
    }
}

/// The big-endian value of a byte string is bounded by `256^len`.
pub proof fn lemma_be_val_bound(s: Seq<u8>)
    ensures
        be_val(s) < pow256(s.len()),
    decreases s.len(),
{
    if s.len() > 0 {
        lemma_be_val_bound(s.drop_last());
    }
}

/// A sixteen-byte big-endian string read as a `u128`.
pub open spec fn u128_of_be(s: Seq<u8>) -> u128
    recommends
        s.len() == 16,
{
    (be_val(s) % (u128::MAX as nat + 1)) as u128
}

/// The eight-byte big-endian encoding of a `u64`.
pub open spec fn u64_be_bytes_of(x: u64) -> Seq<u8> {
    Seq::new(8, |i: int| ((x as nat / pow256((7 - i) as nat)) % 256) as u8)
}

/// Reads the first sixteen bytes of `s` as a big-endian integer.
pub(crate) fn u128_from_be_prefix(s: &Vec<u8>) -> (r: u128)
    requires
        s@.len() >= 16,
    ensures
        r == u128_of_be(s@.take(16)),
{
    let mut r: u128 = 0;
    let mut i: usize = 0;
    while i < 16
        invariant
            0 <= i <= 16,
            s@.len() >= 16,
            r == be_val(s@.take(i as int)),
            r < pow256(i as nat),
        decreases 16 - i,
    {
        proof {
            assert(s@.take(i + 1).drop_last() =~= s@.take(i as int));
            assert(s@.take(i + 1).last() == s@[i as int]);
            lemma_pow256_le(i as nat, 15);
            lemma_pow256_values();
        }
        r = r * 256 + (s[i] as u128);
        i = i + 1;
    }
    proof {
        lemma_be_val_bound(s@.take(16));
        lemma_pow256_values();
        vstd::arithmetic::div_mod::lemma_small_mod(
            be_val(s@.take(16)),
            u128::MAX as nat + 1,
        );
    }
    r
}

/// The powers of 256 that the encodings below are stated over.
pub proof fn lemma_pow256_values()
    ensures
        pow256(0) == 1,
        pow256(1) == 0x100,
        pow256(2) == 0x10000,
        pow256(3) == 0x1000000,
        pow256(4) == 0x100000000,
        pow256(5) == 0x10000000000,
        pow256(6) == 0x1000000000000,
        pow256(7) == 0x100000000000000,
        pow256(15) == 0x1000000000000000000000000000000,
        pow256(16) == 0x100000000000000000000000000000000,
{
    assert(pow256(0) == 1);
    assert(pow256(1) == 256 * pow256(0));
    assert(pow256(2) == 256 * pow256(1));
    assert(pow256(3) == 256 * pow256(2));
    assert(pow256(4) == 256 * pow256(3));
    assert(pow256(5) == 256 * pow256(4));
    assert(pow256(6) == 256 * pow256(5));
    assert(pow256(7) == 256 * pow256(6));
    assert(pow256(8) == 256 * pow256(7));
    assert(pow256(9) == 256 * pow256(8));
    assert(pow256(10) == 256 * pow256(9));
    assert(pow256(11) == 256 * pow256(10));
    assert(pow256(12) == 256 * pow256(11));
    assert(pow256(13) == 256 * pow256(12));
    assert(pow256(14) == 256 * pow256(13));
    assert(pow256(15) == 256 * pow256(14));
    assert(pow256(16) == 256 * pow256(15));
}

/// `256^a <= 256^b` when `a <= b`.
pub proof fn lemma_pow256_le(a: nat, b: nat)
    requires
        a <= b,
    ensures
        pow256(a) <= pow256(b),
    decreases b,
{
    if a < b {
        lemma_pow256_le(a, (b - 1) as nat);
        assert(pow256(b) == 256 * pow256((b - 1) as nat));
    }
}

/// Encodes `x` as eight big-endian bytes.
pub(crate) fn u64_to_be_bytes(x: u64) -> (r: Vec<u8>)
    ensures
        r@ == u64_be_bytes_of(x),
{
    let mut out: Vec<u8> = Vec::new();
    out.push(((x / 0x100000000000000) % 256) as u8);
    out.push(((x / 0x1000000000000) % 256) as u8);
    out.push(((x / 0x10000000000) % 256) as u8);
    out.push(((x / 0x100000000) % 256) as u8);
    out.push(((x / 0x1000000) % 256) as u8);
    out.push(((x / 0x10000) % 256) as u8);
    out.push(((x / 0x100) % 256) as u8);
    out.push((x % 256) as u8);
    proof {
        lemma_pow256_values();
        assert(out@.len() == 8);
        assert(out@[0] == u64_be_bytes_of(x)[0]);
        assert(out@[1] == u64_be_bytes_of(x)[1]);
        assert(out@[2] == u64_be_bytes_of(x)[2]);
        assert(out@[3] == u64_be_bytes_of(x)[3]);
        assert(out@[4] == u64_be_bytes_of(x)[4]);
        assert(out@[5] == u64_be_bytes_of(x)[5]);
        assert(out@[6] == u64_be_bytes_of(x)[6]);
        assert(x as nat / pow256(0) == x as nat) by {
            assert(pow256(0) == 1);
            assert(x as nat / 1 == x as nat);
        }
        assert(out@[7] == u64_be_bytes_of(x)[7]);
        assert(out@ =~= u64_be_bytes_of(x));
    }
    out
}

/// Appends a copy of `src` to `dst`.
pub(crate) fn extend_bytes(dst: &mut Vec<u8>, src: &Vec<u8>)
    ensures
        final(dst)@ == old(dst)@ + src@,
{
    let mut i: usize = 0;
    while i < src.len()
        invariant
            0 <= i <= src@.len(),
            dst@ == old(dst)@ + src@.take(i as int),
        decreases src@.len() - i,
    {
        dst.push(src[i]);
        proof {
            assert(old(dst)@ + src@.take(i + 1) =~= (old(dst)@ + src@.take(i as int)).push(
                src@[i as int],
            ));
        }
        i = i + 1;
    }
    proof {
        assert(src@.take(src@.len() as int) =~= src@);
    }
}

} // verus!
