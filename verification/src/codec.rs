//! The deterministic binary encoding shared by host and guest: little-endian
//! fixed-width integers, and byte strings prefixed by their 32-bit length.
//! Every decoder is specified against a specification-level decoder, and a
//! lemma per shape shows that decoding an encoding gives the value back.

use vstd::prelude::*;

verus! {

/// The four little-endian bytes of a 32-bit integer.
pub open spec fn enc_u32(x: u32) -> Seq<u8> {
    seq![
        (x & 0xff) as u8,
        ((x >> 8) & 0xff) as u8,
        ((x >> 16) & 0xff) as u8,
        ((x >> 24) & 0xff) as u8,
    ]
}

pub open spec fn u32_of_bytes(b0: u8, b1: u8, b2: u8, b3: u8) -> u32 {
    (b0 as u32) | ((b1 as u32) << 8) | ((b2 as u32) << 16) | ((b3 as u32) << 24)
}

pub open spec fn dec_u32(s: Seq<u8>, pos: int) -> Option<(u32, int)> {
    if 0 <= pos && pos + 4 <= s.len() {
        Some((u32_of_bytes(s[pos], s[pos + 1], s[pos + 2], s[pos + 3]), pos + 4))
    } else {
        None
    }
}

pub proof fn lemma_u32_of_enc(x: u32)
    ensures
        u32_of_bytes(enc_u32(x)[0], enc_u32(x)[1], enc_u32(x)[2], enc_u32(x)[3]) == x,
{
    assert(((x & 0xff) as u8) as u32 | ((((x >> 8) & 0xff) as u8) as u32) << 8 | ((((x >> 16)
        & 0xff) as u8) as u32) << 16 | ((((x >> 24) & 0xff) as u8) as u32) << 24 == x)
        by (bit_vector);
}

/// Decoding at a place where an encoded 32-bit integer stands yields it.
pub proof fn lemma_dec_enc_u32(s: Seq<u8>, pos: int, x: u32)
    requires
        0 <= pos,
        pos + 4 <= s.len(),
        s.subrange(pos, pos + 4) == enc_u32(x),
    ensures
        dec_u32(s, pos) == Some((x, pos + 4)),
{
    assert(s[pos] == enc_u32(x)[0]) by {
        assert(s.subrange(pos, pos + 4)[0] == s[pos]);
    }
    assert(s[pos + 1] == enc_u32(x)[1]) by {
        assert(s.subrange(pos, pos + 4)[1] == s[pos + 1]);
    }
    assert(s[pos + 2] == enc_u32(x)[2]) by {
        assert(s.subrange(pos, pos + 4)[2] == s[pos + 2]);
    }
    assert(s[pos + 3] == enc_u32(x)[3]) by {
        assert(s.subrange(pos, pos + 4)[3] == s[pos + 3]);
    }
    lemma_u32_of_enc(x);
}

pub fn encode_u32(out: &mut Vec<u8>, x: u32)
    ensures
        final(out)@ == old(out)@ + enc_u32(x),
{
    out.push((x & 0xff) as u8);
    out.push(((x >> 8) & 0xff) as u8);
    out.push(((x >> 16) & 0xff) as u8);
    out.push(((x >> 24) & 0xff) as u8);
    assert(out@ =~= old(out)@ + enc_u32(x));
}

pub fn decode_u32(s: &Vec<u8>, pos: usize) -> (r: Option<(u32, usize)>)
    ensures
        match r {
            Some(v) => dec_u32(s@, pos as int) == Some((v.0, v.1 as int)),
            None => dec_u32(s@, pos as int) is None,
        },
{
    if pos < s.len() && s.len() - pos >= 4 {
        let b0 = s[pos];
        let b1 = s[pos + 1];
        let b2 = s[pos + 2];
        let b3 = s[pos + 3];
        let x = (b0 as u32) | ((b1 as u32) << 8) | ((b2 as u32) << 16) | ((b3 as u32) << 24);
        Some((x, pos + 4))
    } else {
        None
    }
}

/// The eight little-endian bytes of a 64-bit integer.
pub open spec fn enc_u64(x: u64) -> Seq<u8> {
    seq![
        (x & 0xff) as u8,
        ((x >> 8) & 0xff) as u8,
        ((x >> 16) & 0xff) as u8,
        ((x >> 24) & 0xff) as u8,
        ((x >> 32) & 0xff) as u8,
        ((x >> 40) & 0xff) as u8,
        ((x >> 48) & 0xff) as u8,
        ((x >> 56) & 0xff) as u8,
    ]
}

pub open spec fn u64_of_bytes(b: Seq<u8>) -> u64
    recommends
        b.len() == 8,
{
    (b[0] as u64) | ((b[1] as u64) << 8) | ((b[2] as u64) << 16) | ((b[3] as u64) << 24) | ((
    b[4] as u64) << 32) | ((b[5] as u64) << 40) | ((b[6] as u64) << 48) | ((b[7] as u64) << 56)
}

pub open spec fn dec_u64(s: Seq<u8>, pos: int) -> Option<(u64, int)> {
    if 0 <= pos && pos + 8 <= s.len() {
        Some((u64_of_bytes(s.subrange(pos, pos + 8)), pos + 8))
    } else {
        None
    }
}

pub proof fn lemma_u64_of_enc(x: u64)
    ensures
        u64_of_bytes(enc_u64(x)) == x,
{
    assert(((x & 0xff) as u8) as u64 | ((((x >> 8) & 0xff) as u8) as u64) << 8 | ((((x >> 16)
        & 0xff) as u8) as u64) << 16 | ((((x >> 24) & 0xff) as u8) as u64) << 24 | ((((x >> 32)
        & 0xff) as u8) as u64) << 32 | ((((x >> 40) & 0xff) as u8) as u64) << 40 | ((((x >> 48)
        & 0xff) as u8) as u64) << 48 | ((((x >> 56) & 0xff) as u8) as u64) << 56 == x)
        by (bit_vector);
}

/// Decoding at a place where an encoded 64-bit integer stands yields it.
pub proof fn lemma_dec_enc_u64(s: Seq<u8>, pos: int, x: u64)
    requires
        0 <= pos,
        pos + 8 <= s.len(),
        s.subrange(pos, pos + 8) == enc_u64(x),
    ensures
        dec_u64(s, pos) == Some((x, pos + 8)),
{
    lemma_u64_of_enc(x);
}

pub fn encode_u64(out: &mut Vec<u8>, x: u64)
    ensures
        final(out)@ == old(out)@ + enc_u64(x),
{
    out.push((x & 0xff) as u8);
    out.push(((x >> 8) & 0xff) as u8);
    out.push(((x >> 16) & 0xff) as u8);
    out.push(((x >> 24) & 0xff) as u8);
    out.push(((x >> 32) & 0xff) as u8);
    out.push(((x >> 40) & 0xff) as u8);
    out.push(((x >> 48) & 0xff) as u8);
    out.push(((x >> 56) & 0xff) as u8);
    assert(out@ =~= old(out)@ + enc_u64(x));
}

pub fn decode_u64(s: &Vec<u8>, pos: usize) -> (r: Option<(u64, usize)>)
    ensures
        match r {
            Some(v) => dec_u64(s@, pos as int) == Some((v.0, v.1 as int)),
            None => dec_u64(s@, pos as int) is None,
        },
{
    if pos < s.len() && s.len() - pos >= 8 {
        let x = (s[pos] as u64) | ((s[pos + 1] as u64) << 8) | ((s[pos + 2] as u64) << 16) | ((
        s[pos + 3] as u64) << 24) | ((s[pos + 4] as u64) << 32) | ((s[pos + 5] as u64) << 40) | ((
        s[pos + 6] as u64) << 48) | ((s[pos + 7] as u64) << 56);
        proof {
            let b = s@.subrange(pos as int, pos + 8);
            assert(b[0] == s@[pos as int] && b[1] == s@[pos + 1] && b[2] == s@[pos + 2] && b[3]
                == s@[pos + 3] && b[4] == s@[pos + 4] && b[5] == s@[pos + 5] && b[6] == s@[pos + 6]
                && b[7] == s@[pos + 7]);
        }
        Some((x, pos + 8))
    } else {
        None
    }
}

/// The sixteen little-endian bytes of a 128-bit integer.
pub open spec fn enc_u128(x: u128) -> Seq<u8> {
    enc_u64((x & 0xffff_ffff_ffff_ffff) as u64) + enc_u64(((x >> 64)
        & 0xffff_ffff_ffff_ffff) as u64)
}

pub open spec fn u128_of_halves(lo: u64, hi: u64) -> u128 {
    (lo as u128) | ((hi as u128) << 64)
}

pub open spec fn dec_u128(s: Seq<u8>, pos: int) -> Option<(u128, int)> {
    match dec_u64(s, pos) {
        Some((lo, p)) => match dec_u64(s, p) {
            Some((hi, p2)) => Some((u128_of_halves(lo, hi), p2)),
            None => None,
        },
        None => None,
    }
}

/// Decoding at a place where an encoded 128-bit integer stands yields it.
pub proof fn lemma_dec_enc_u128(s: Seq<u8>, pos: int, x: u128)
    requires
        0 <= pos,
        pos + 16 <= s.len(),
        s.subrange(pos, pos + 16) == enc_u128(x),
    ensures
        dec_u128(s, pos) == Some((x, pos + 16)),
{
    let lo = (x & 0xffff_ffff_ffff_ffff) as u64;
    let hi = ((x >> 64) & 0xffff_ffff_ffff_ffff) as u64;
    lemma_subrange_split(s, pos, enc_u64(lo), enc_u64(hi));
    lemma_dec_enc_u64(s, pos, lo);
    lemma_dec_enc_u64(s, pos + 8, hi);
    assert((((x & 0xffff_ffff_ffff_ffff) as u64) as u128) | ((((x >> 64)
        & 0xffff_ffff_ffff_ffff) as u64) as u128) << 64 == x) by (bit_vector);
}

pub fn encode_u128(out: &mut Vec<u8>, x: u128)
    ensures
        final(out)@ == old(out)@ + enc_u128(x),
{
    encode_u64(out, (x & 0xffff_ffff_ffff_ffff) as u64);
    encode_u64(out, ((x >> 64) & 0xffff_ffff_ffff_ffff) as u64);
    assert(out@ =~= old(out)@ + enc_u128(x));
}

pub fn decode_u128(s: &Vec<u8>, pos: usize) -> (r: Option<(u128, usize)>)
    ensures
        match r {
            Some(v) => dec_u128(s@, pos as int) == Some((v.0, v.1 as int)),
            None => dec_u128(s@, pos as int) is None,
        },
{
    match decode_u64(s, pos) {
        Some((lo, p)) => match decode_u64(s, p) {
            Some((hi, p2)) => Some(((lo as u128) | ((hi as u128) << 64), p2)),
            None => None,
        },
        None => None,
    }
}

/// A byte string: its 32-bit length, then its bytes.
pub open spec fn enc_bytes(b: Seq<u8>) -> Seq<u8> {
    enc_u32(b.len() as u32) + b
}

/// A byte string fits the encoding when its length fits the length prefix.
pub open spec fn bytes_fit(b: Seq<u8>) -> bool {
    b.len() <= 0xffff_ffff
}

pub open spec fn dec_bytes(s: Seq<u8>, pos: int) -> Option<(Seq<u8>, int)> {
    match dec_u32(s, pos) {
        Some((n, p)) => if p + n <= s.len() {
            Some((s.subrange(p, p + n), p + n))
        } else {
            None
        },
        None => None,
    }
}

/// Decoding at a place where an encoded byte string stands yields it.
pub proof fn lemma_dec_enc_bytes(s: Seq<u8>, pos: int, b: Seq<u8>)
    requires
        0 <= pos,
        bytes_fit(b),
        pos + 4 + b.len() <= s.len(),
        s.subrange(pos, pos + 4 + b.len()) == enc_bytes(b),
    ensures
        dec_bytes(s, pos) == Some((b, pos + 4 + b.len())),
{
    lemma_subrange_split(s, pos, enc_u32(b.len() as u32), b);
    lemma_dec_enc_u32(s, pos, b.len() as u32);
}

pub fn encode_bytes(out: &mut Vec<u8>, b: &Vec<u8>)
    requires
        bytes_fit(b@),
    ensures
        final(out)@ == old(out)@ + enc_bytes(b@),
{
    encode_u32(out, b.len() as u32);
    let mut i: usize = 0;
    while i < b.len()
        invariant
            i <= b.len(),
            bytes_fit(b@),
            out@ == old(out)@ + enc_u32(b@.len() as u32) + b@.subrange(0, i as int),
        decreases b.len() - i,
    {
        out.push(b[i]);
        i = i + 1;
        assert(out@ =~= old(out)@ + enc_u32(b@.len() as u32) + b@.subrange(0, i as int));
    }
    assert(out@ =~= old(out)@ + enc_bytes(b@));
}

/// A copy of the bytes of `s` from `a` (inclusive) to `b` (exclusive).
pub fn copy_range(s: &Vec<u8>, a: usize, b: usize) -> (r: Vec<u8>)
    requires
        a <= b <= s@.len(),
    ensures
        r@ == s@.subrange(a as int, b as int),
{
    let mut r: Vec<u8> = Vec::new();
    let mut i: usize = a;
    while i < b
        invariant
            a <= i <= b <= s@.len(),
            r@ == s@.subrange(a as int, i as int),
        decreases b - i,
    {
        r.push(s[i]);
        i = i + 1;
        assert(r@ =~= s@.subrange(a as int, i as int));
    }
    r
}

pub fn decode_bytes(s: &Vec<u8>, pos: usize) -> (r: Option<(Vec<u8>, usize)>)
    ensures
        match r {
            Some(v) => dec_bytes(s@, pos as int) == Some((v.0@, v.1 as int)),
            None => dec_bytes(s@, pos as int) is None,
        },
{
    match decode_u32(s, pos) {
        Some((n, p)) => {
            let n = n as usize;
            if n <= s.len() && p <= s.len() - n {
                let v = copy_range(s, p, p + n);
                Some((v, p + n))
            } else {
                None
            }
        },
        None => None,
    }
}

/// Splits knowledge of a two-part encoding: where `a + b` stands, `a` stands
/// and then `b` stands.
pub proof fn lemma_subrange_split(s: Seq<u8>, pos: int, a: Seq<u8>, b: Seq<u8>)
    requires
        0 <= pos,
        pos + a.len() + b.len() <= s.len(),
        s.subrange(pos, pos + a.len() + b.len()) == a + b,
    ensures
        s.subrange(pos, pos + a.len()) == a,
        s.subrange(pos + a.len(), pos + a.len() + b.len()) == b,
{
    assert forall|i: int| 0 <= i < a.len() implies s.subrange(pos, pos + a.len())[i] == a[i] by {
        assert(s.subrange(pos, pos + a.len() + b.len())[i] == s[pos + i]);
        assert((a + b)[i] == a[i]);
    }
    assert(s.subrange(pos, pos + a.len()) =~= a);
    assert forall|i: int| 0 <= i < b.len() implies s.subrange(
        pos + a.len(),
        pos + a.len() + b.len(),
    )[i] == b[i] by {
        assert(s.subrange(pos, pos + a.len() + b.len())[a.len() + i] == s[pos + a.len() + i]);
        assert((a + b)[a.len() + i] == b[i]);
    }
    assert(s.subrange(pos + a.len(), pos + a.len() + b.len()) =~= b);
}

/// Appends the bytes of `b` to `out`, with no length prefix.
pub fn append_bytes(out: &mut Vec<u8>, b: &Vec<u8>)
    ensures
        final(out)@ == old(out)@ + b@,
{
    let mut i: usize = 0;
    while i < b.len()
        invariant
            i <= b.len(),
            out@ == old(out)@ + b@.subrange(0, i as int),
        decreases b.len() - i,
    {
        out.push(b[i]);
        i = i + 1;
        assert(out@ =~= old(out)@ + b@.subrange(0, i as int));
    }
    assert(out@ =~= old(out)@ + b@);
}

/// Byte-string equality of two vectors.
pub fn bytes_eq(a: &Vec<u8>, b: &Vec<u8>) -> (r: bool)
    ensures
        r == (a@ == b@),
{
    let r = a == b;
    proof {
        if a@ =~= b@ {
            assert(a@ == b@);
        }
    }
    r
}

} // verus!
