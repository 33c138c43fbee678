//! Buffers for the renderer are pooled by size: each pool holds the buffers of one power of
//! two, from 16 bytes up.
use crate::texture::log2;
use vstd::prelude::*;

verus! {

/// `2` to the power `k`.
pub open spec fn two_to(k: nat) -> int
    decreases k,
{
    if k == 0 {
        1
    } else {
        2 * two_to((k - 1) as nat)
    }
}

/// Below `2` to the power `k`, `floor(log2(x))` is below `k`, and it is never negative.
proof fn lemma_log2_below(x: int, k: nat)
    requires
        1 <= x < two_to(k),
    ensures
        0 <= log2(x) < k,
    decreases k,
{
    if k == 0 {
    } else if x > 1 {
        lemma_log2_below(x / 2, (k - 1) as nat);
    }
}

/// `floor(log2(x))` of a 64-bit `x` is below 64.
proof fn lemma_log2_u64(x: int)
    requires
        1 <= x < 0x1_0000_0000_0000_0000,
    ensures
        0 <= log2(x) < 64,
{
    assert(two_to(64) == 0x1_0000_0000_0000_0000) by {
        reveal_with_fuel(two_to, 65);
    }
    lemma_log2_below(x, 64);
}

/// The pool of a buffer of `size` bytes: `floor(log2(size)) - 4`. Sizes start at 16 bytes.
pub fn bucket_for(size: u64) -> (r: usize)
    requires
        size >= 16,
    ensures
        r == log2(size as int) - 4,
{
    let mut x = size;
    let mut l: usize = 0;
    proof {
        lemma_log2_u64(size as int);
    }
    while x > 1
        invariant
            1 <= x <= size,
            l + log2(x as int) == log2(size as int),
            log2(size as int) < 64,
            0 <= log2(x as int),
        decreases x,
    {
        proof {
            lemma_log2_u64(x as int / 2);
        }
        x = x / 2;
        l += 1;
    }
    proof {
        assert(log2(16) == 4) by {
            reveal_with_fuel(log2, 5);
        }
        lemma_log2_monotone_u64(16, size as int);
    }
    l - 4
}

/// `floor(log2(x))` is not negative.
proof fn lemma_log2_nonneg(x: int)
    ensures
        0 <= log2(x),
    decreases x,
{
    if x > 1 {
        lemma_log2_nonneg(x / 2);
    }
}

/// `log2` does not decrease.
proof fn lemma_log2_monotone_u64(x: int, y: int)
    requires
        1 <= x <= y,
    ensures
        log2(x) <= log2(y),
    decreases y,
{
    if x > 1 {
        lemma_log2_monotone_u64(x / 2, y / 2);
    } else if y > 1 {
        lemma_log2_nonneg(y / 2);
    }
}

} // verus!
