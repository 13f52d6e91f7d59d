//! Gas accounting. A sandboxed run is measured by its internal segmentation:
//! the sum, over its segments, of two to the segment's size exponent,
//! saturating at the largest representable value. The measurement is monotone
//! in the segmentation, so a run doing strictly more work never measures less.

use vstd::prelude::*;

verus! {

/// The gas every call is charged for being decoded and dispatched.
pub const GAS_CALL_BASE: u64 = 1000;

/// The gas one loop step of the fibonacci program costs.
pub const GAS_FIB_STEP: u64 = 10;

/// Two to the given power, saturating.
pub open spec fn pow2_sat(p: u8) -> u64 {
    if p < 64 {
        (1u64 << p) as u64
    } else {
        u64::MAX
    }
}

/// Saturating addition.
pub open spec fn sat_add(a: u64, b: u64) -> u64 {
    if a + b > u64::MAX {
        u64::MAX
    } else {
        (a + b) as u64
    }
}

/// The cycles a run with the given segment size exponents is measured at.
pub open spec fn cycles_of(po2s: Seq<u8>) -> u64
    decreases po2s.len(),
{
    if po2s.len() == 0 {
        0
    } else {
        sat_add(cycles_of(po2s.drop_last()), pow2_sat(po2s.last()))
    }
}

pub proof fn lemma_pow2_sat_monotonic(a: u8, b: u8)
    requires
        a <= b,
    ensures
        pow2_sat(a) <= pow2_sat(b),
{
    if b < 64 {
        assert(a < 64);
        assert(a <= b < 64 ==> (1u64 << a) <= (1u64 << b)) by (bit_vector);
    } else {
        if a < 64 {
            assert((1u64 << a) <= u64::MAX);
        }
    }
}

/// More segments never measure less: a run extended by further work costs at
/// least as much as the shorter run.
pub proof fn lemma_cycles_extend(s: Seq<u8>, t: Seq<u8>)
    ensures
        cycles_of(s) <= cycles_of(s + t),
    decreases t.len(),
{
    if t.len() == 0 {
        assert(s + t =~= s);
    } else {
        lemma_cycles_extend(s, t.drop_last());
        assert((s + t).drop_last() =~= s + t.drop_last());
        assert((s + t).len() > 0);
        assert(cycles_of(s + t) == sat_add(cycles_of(s + t.drop_last()), pow2_sat((s + t).last())));
    }
}

/// Larger segments never measure less: if every segment of one run is at
/// least as large as the matching segment of another, the measurement is at
/// least as large too.
pub proof fn lemma_cycles_pointwise_monotonic(s: Seq<u8>, t: Seq<u8>)
    requires
        s.len() == t.len(),
        forall|i: int| 0 <= i < s.len() ==> s[i] <= t[i],
    ensures
        cycles_of(s) <= cycles_of(t),
    decreases s.len(),
{
    if s.len() > 0 {
        lemma_cycles_pointwise_monotonic(s.drop_last(), t.drop_last());
        lemma_pow2_sat_monotonic(s.last(), t.last());
    }
}

/// Measures a run from its segment size exponents.
pub fn measure_cycles(po2s: &Vec<u8>) -> (r: u64)
    ensures
        r == cycles_of(po2s@),
{
    let mut total: u64 = 0;
    let mut i: usize = 0;
    while i < po2s.len()
        invariant
            i <= po2s@.len(),
            total == cycles_of(po2s@.subrange(0, i as int)),
        decreases po2s@.len() - i,
    {
        let p = po2s[i];
        let step: u64 = if p < 64 {
            1u64 << p
        } else {
            u64::MAX
        };
        total = if total > u64::MAX - step {
            u64::MAX
        } else {
            total + step
        };
        i = i + 1;
        proof {
            assert(po2s@.subrange(0, i as int).drop_last() =~= po2s@.subrange(0, i - 1));
            assert(po2s@.subrange(0, i as int).last() == po2s@[i - 1]);
        }
    }
    proof {
        assert(po2s@.subrange(0, po2s@.len() as int) =~= po2s@);
    }
    total
}

} // verus!
