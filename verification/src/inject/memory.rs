//! Sizes of allocations.

use vstd::arithmetic::power2::{
    lemma2_to64, lemma_pow2_strictly_increases, lemma_pow2_unfold, pow2,
};
use vstd::prelude::*;

verus! {

/// The smallest allocation.
pub const MIN_SIZE: usize = 16;

/// `n` is a power of two.
pub open spec fn is_power_of_two(n: nat) -> bool {
    exists|k: nat| n == #[trigger] pow2(k)
}

/// The least power of two that is at least `size` and at least [`MIN_SIZE`].
pub open spec fn is_layout_size(size: nat, r: nat) -> bool {
    &&& is_power_of_two(r)
    &&& size <= r
    &&& MIN_SIZE <= r
    &&& forall|p: nat|
        #[trigger] is_power_of_two(p) && size <= p && MIN_SIZE <= p ==> r <= p
}

/// The bytes that are mapped for an allocation of `size` bytes: the least power
/// of two that holds them, at least [`MIN_SIZE`].
pub fn layout_size(size: usize) -> (r: usize)
    requires
        size <= isize::MAX,
    ensures
        is_layout_size(size as nat, r as nat),
{
    let mut r: usize = MIN_SIZE;
    let ghost mut k: nat = 4;
    proof {
        lemma2_to64();
    }
    while r < size
        invariant
            size <= isize::MAX,
            k >= 4,
            r == pow2(k),
            r >= MIN_SIZE,
            k > 4 ==> pow2((k - 1) as nat) < size,
            k == 4 ==> r == MIN_SIZE,
        decreases 2 * size - r,
    {
        proof {
            lemma_pow2_unfold(k + 1);
        }
        r = r * 2;
        proof {
            k = k + 1;
        }
    }
    proof {
        assert forall|p: nat|
            #[trigger] is_power_of_two(p) && size <= p && MIN_SIZE <= p implies r <= p by {
            let j = choose|j: nat| p == #[trigger] pow2(j);
            if j < k {
                if k > 4 && j < k - 1 {
                    lemma_pow2_strictly_increases(j, (k - 1) as nat);
                }
            } else if j > k {
                lemma_pow2_strictly_increases(k, j);
            }
        }
    }
    r
}

/// Every size has at most one allocation size, so that what was mapped for an
/// allocation is unmapped with it.
pub proof fn law_layout_size_unique(size: nat, a: nat, b: nat)
    requires
        is_layout_size(size, a),
        is_layout_size(size, b),
    ensures
        a == b,
{
}

/// Sixteen bytes are mapped for anything up to that size; for a power of two from
/// there on just that many, and for anything between two of them the larger one.
pub proof fn law_layout_sizes(size: nat, k: nat)
    ensures
        size <= 16 ==> is_layout_size(size, 16),
        k >= 4 && pow2(k) < size && size <= pow2(k + 1) ==> is_layout_size(size, pow2(k + 1)),
{
    lemma2_to64();
    assert(is_power_of_two(16)) by {
        assert(pow2(4) == 16);
    }
    assert(is_power_of_two(pow2(k + 1)));
    if k >= 4 && pow2(k) < size && size <= pow2(k + 1) {
        if k > 4 {
            lemma_pow2_strictly_increases(4, k);
        }
        lemma_pow2_strictly_increases(k, k + 1);
        assert forall|p: nat|
            #[trigger] is_power_of_two(p) && size <= p && MIN_SIZE <= p implies pow2(k + 1) <= p by {
            let j = choose|j: nat| p == #[trigger] pow2(j);
            if j < k {
                lemma_pow2_strictly_increases(j, k);
            } else if j > k + 1 {
                lemma_pow2_strictly_increases(k + 1, j);
            }
        }
    }
}

} // verus!
