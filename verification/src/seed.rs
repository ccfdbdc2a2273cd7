//! The mapping from signed seeds onto the generator's unsigned seed space.

use vstd::prelude::*;

verus! {

/// The unsigned seed that stands for the signed seed `seed`: non-negative
/// seeds take the even numbers, negative seeds the odd ones.
pub open spec fn normalized_seed(seed: int) -> int {
    if seed >= 0 {
        2 * seed
    } else {
        -2 * seed - 1
    }
}

/// The signed seed that `normalized_seed` sends to `unsigned`.
pub open spec fn signed_seed(unsigned: int) -> int {
    if unsigned % 2 == 0 {
        unsigned / 2
    } else {
        -(unsigned + 1) / 2
    }
}

/// Maps a signed seed to its unsigned seed. Every `i64` is accepted: the
/// result of `i64::MIN` is `u64::MAX`, and nothing overflows on the way.
pub fn normalize_seed(seed: i64) -> (unsigned: u64)
    ensures
        unsigned as int == normalized_seed(seed as int),
{
    if seed >= 0 {
        let half: u64 = seed as u64;
        2 * half
    } else {
        let half: u64 = (-(seed + 1)) as u64;
        2 * half + 1
    }
}

/// Every 64-bit signed seed has an unsigned seed of 64 bits.
pub proof fn lemma_normalized_seed_fits(seed: i64)
    ensures
        0 <= normalized_seed(seed as int) <= u64::MAX,
{
}

/// Distinct signed seeds never share an unsigned seed.
pub proof fn lemma_normalized_seed_injective(s1: i64, s2: i64)
    requires
        s1 != s2,
    ensures
        normalized_seed(s1 as int) != normalized_seed(s2 as int),
{
}

/// `signed_seed` undoes `normalized_seed`, and every unsigned 64-bit seed
/// stands for exactly one signed 64-bit seed: the mapping is a bijection.
pub proof fn lemma_normalized_seed_bijective(seed: i64, unsigned: u64)
    ensures
        signed_seed(normalized_seed(seed as int)) == seed,
        i64::MIN <= signed_seed(unsigned as int) <= i64::MAX,
        normalized_seed(signed_seed(unsigned as int)) == unsigned,
{
}

} // verus!
