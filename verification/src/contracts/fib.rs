//! The fibonacci program: `compute` takes an index and commits the fibonacci
//! number at that index, taken modulo the 64-bit range so that every index
//! has a defined result. Its cost grows with the index, so it is the program
//! that exercises work-dependent gas accounting.

use vstd::prelude::*;

verus! {

/// The fibonacci sequence folded into 64 bits: each step is the sum of the
/// two before it, truncated.
pub open spec fn fib_w(n: nat) -> u64
    decreases n,
{
    if n == 0 {
        0
    } else if n == 1 {
        1
    } else {
        ((fib_w((n - 1) as nat) + fib_w((n - 2) as nat)) % 0x1_0000_0000_0000_0000) as u64
    }
}

pub struct FibContract;

impl FibContract {
    /// The fibonacci number at the given index, modulo the 64-bit range.
    pub fn compute(n: u32) -> (r: u64)
        ensures
            r == fib_w(n as nat),
    {
        if n == 0 {
            return 0;
        }
        let mut prev: u64 = 0;
        let mut cur: u64 = 1;
        let mut i: u32 = 1;
        while i < n
            invariant
                1 <= i <= n,
                cur == fib_w(i as nat),
                prev == fib_w((i - 1) as nat),
            decreases n - i,
        {
            let next = prev.wrapping_add(cur);
            prev = cur;
            cur = next;
            i = i + 1;
        }
        cur
    }
}

} // verus!
