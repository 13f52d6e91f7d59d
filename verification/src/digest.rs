//! The deterministic digest the node derives hashes with. Hash derivation is
//! stubbed upstream, so the scheme here is fixed by this crate: the first
//! eight bytes are a Fowler-Noll-Vo fold of the input, the next eight its
//! length, and the rest zero. What matters to the chain is that the
//! derivation is a deterministic function of the input bytes alone.

use vstd::prelude::*;

use crate::codec::enc_u64;
use crate::types::{Digest, DIGEST_LEN};

verus! {

pub const FNV_OFFSET: u64 = 0xcbf2_9ce4_8422_2325;

pub const FNV_PRIME: u64 = 0x1_0000_0001_b3;

/// One fold step: mix a byte into the running value.
pub open spec fn fnv_mix(h: u64, b: u8) -> u64 {
    (((h ^ (b as u64)) * FNV_PRIME) % 0x1_0000_0000_0000_0000) as u64
}

/// The fold of a whole byte string.
pub open spec fn fnv1a(s: Seq<u8>) -> u64
    decreases s.len(),
{
    if s.len() == 0 {
        FNV_OFFSET
    } else {
        fnv_mix(fnv1a(s.drop_last()), s.last())
    }
}

/// The digest of a byte string: its fold, its length, and zero padding.
pub open spec fn digest_of(s: Seq<u8>) -> Seq<u8> {
    enc_u64(fnv1a(s)) + enc_u64(s.len() as u64) + Seq::new(16, |i: int| 0u8)
}

pub proof fn lemma_digest_of_len(s: Seq<u8>)
    ensures
        digest_of(s).len() == DIGEST_LEN,
{
}

/// Computes the digest of the given bytes.
pub fn compute_digest(s: &Vec<u8>) -> (r: Digest)
    requires
        s@.len() <= 0xffff_ffff_ffff_ffff,
    ensures
        r@ == digest_of(s@),
        r.wf(),
{
    let mut h: u64 = FNV_OFFSET;
    let mut i: usize = 0;
    while i < s.len()
        invariant
            i <= s@.len(),
            h == fnv1a(s@.subrange(0, i as int)),
        decreases s@.len() - i,
    {
        proof {
            assert(s@.subrange(0, i + 1).drop_last() =~= s@.subrange(0, i as int));
            assert(s@.subrange(0, i + 1).last() == s@[i as int]);
        }
        h = (h ^ (s[i] as u64)).wrapping_mul(FNV_PRIME);
        i = i + 1;
    }
    proof {
        assert(s@.subrange(0, s@.len() as int) =~= s@);
    }
    let mut bytes: Vec<u8> = Vec::new();
    crate::codec::encode_u64(&mut bytes, h);
    crate::codec::encode_u64(&mut bytes, s.len() as u64);
    let mut i: usize = 0;
    while i < 16
        invariant
            i <= 16,
            bytes@ == enc_u64(fnv1a(s@)) + enc_u64(s@.len() as u64) + Seq::new(
                i as nat,
                |j: int| 0u8,
            ),
        decreases 16 - i,
    {
        bytes.push(0);
        i = i + 1;
        assert(bytes@ =~= enc_u64(fnv1a(s@)) + enc_u64(s@.len() as u64) + Seq::new(
            i as nat,
            |j: int| 0u8,
        ));
    }
    assert(bytes@ =~= digest_of(s@));
    Digest { bytes }
}

} // verus!
