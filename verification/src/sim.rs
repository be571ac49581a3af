//! The deterministic pseudo-random step behind the synthetic sensor
//! readings. The simulator's floating-point signal shaping and its timer
//! live outside the library; this is the one piece of its logic on plain
//! integers.
use vstd::prelude::*;

verus! {

/// One step of a 64-bit linear congruential generator (Knuth's MMIX
/// multiplier and increment), reduced modulo two to the sixty-fourth.
pub fn lcg_random(seed: u64) -> (r: u64)
    ensures
        r == (seed * 6364136223846793005 + 1442695040888963407) % 0x10000000000000000,
{
    proof {
        vstd::arithmetic::div_mod::lemma_add_mod_noop(
            seed as int * 6364136223846793005,
            1442695040888963407,
            0x10000000000000000,
        );
        vstd::arithmetic::div_mod::lemma_mod_bound(
            seed as int * 6364136223846793005,
            0x10000000000000000,
        );
        vstd::arithmetic::div_mod::lemma_small_mod(1442695040888963407nat, 0x10000000000000000nat);
    }
    seed.wrapping_mul(6364136223846793005).wrapping_add(1442695040888963407)
}

} // verus!
