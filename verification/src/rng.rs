//! The xorshift generator behind probabilistic faults.

use vstd::prelude::*;
use crate::types::PROBABILITY_SCALE;

verus! {

/// The seed that follows `seed` (a zero seed is first replaced by one).
pub open spec fn next_seed(seed: u64) -> u64 {
    let s: u64 = if seed == 0 { 1u64 } else { seed };
    let a: u64 = s ^ (s << 13u64);
    let b: u64 = a ^ (a >> 7u64);
    b ^ (b << 17u64)
}

/// The value in `0..PROBABILITY_SCALE` drawn when the generator stands at `seed`.
pub open spec fn draw_at(seed: u64) -> u64 {
    next_seed(seed) >> 11u64
}

/// Advances the generator and returns the value it draws, in
/// `0..PROBABILITY_SCALE`.
pub fn next_draw(seed: &mut u64) -> (draw: u64)
    ensures
        *final(seed) == next_seed(*old(seed)),
        draw == draw_at(*old(seed)),
        draw < PROBABILITY_SCALE,
{
    let mut next: u64 = *seed;
    if next == 0 {
        next = 1;
    }
    next = next ^ (next << 13u64);
    next = next ^ (next >> 7u64);
    next = next ^ (next << 17u64);
    *seed = next;
    let draw: u64 = next >> 11u64;
    assert(draw < 0x20_0000_0000_0000u64) by (bit_vector)
        requires
            draw == next >> 11u64,
    ;
    draw
}

} // verus!

verus! {

/// Every draw lies in `0..PROBABILITY_SCALE`.
pub proof fn lemma_draw_below_scale(seed: u64)
    ensures
        draw_at(seed) < PROBABILITY_SCALE,
{
    let n = next_seed(seed);
    assert(n >> 11u64 < 0x20_0000_0000_0000u64) by (bit_vector);
}

} // verus!
