//! Rounding a byte count up to a whole number of audio blocks.

use vstd::prelude::*;

verus! {

/// Returns the smallest multiple of `block_size` that is greater than or
/// equal to `n`.
///
/// `block_size` must not be zero, and `n + block_size - 1` must fit in a
/// `u64`.
pub fn block_align(n: u64, block_size: u64) -> (r: u64)
    requires
        block_size >= 1,
        n + block_size - 1 <= u64::MAX,
    ensures
        r % block_size == 0,
        r >= n,
        r < n + block_size,
        r == ((n + block_size - 1) as int / block_size as int) * block_size,
{
    let t = n + (block_size - 1);
    let r = t - (t % block_size);

    proof {
        let b = block_size as int;
        let q = (t as int) / b;
        assert(r == q * b && (q * b) % b == 0) by (nonlinear_arith)
            requires
                b >= 1,
                r == t - (t as int) % b,
                q == (t as int) / b,
        ;
        assert(t == n + block_size - 1);
    }

    r
}

} // verus!
