//! The ChaCha8 generator behind the sampling, as far as the proofs know it.
//!
//! Nothing in this file is proved. The generator is an opaque value of the
//! `rand_chacha` crate; what the library relies on is written down here as
//! contracts on the two calls it makes, and is believed as stated.

use rand::Rng;
use rand::SeedableRng;
use rand_chacha::ChaCha8Rng;
use vstd::prelude::*;

verus! {

/// `rand_chacha::ChaCha8Rng`, carried through verified code as an opaque value.
#[verifier::external_type_specification]
#[verifier::external_body]
pub struct ExChaCha8Rng(ChaCha8Rng);

/// What a generator holds: its 32-byte key, its stream number and its word
/// position, in this order. `rand_chacha` compares generators by exactly
/// these three values, and everything a generator will yield depends on
/// nothing else.
pub uninterp spec fn stream_state(rng: ChaCha8Rng) -> (Seq<u8>, u64, u128);

/// The state of the generator that `ChaCha8Rng::seed_from_u64` builds from
/// `seed`.
pub uninterp spec fn seeded_state(seed: u64) -> (Seq<u8>, u64, u128);

/// The value that `Rng::gen_range(low..=high)` yields on a generator in state
/// `state`, paired with the state it leaves the generator in.
pub uninterp spec fn range_draw(state: (Seq<u8>, u64, u128), low: i32, high: i32) -> (
    i32,
    (Seq<u8>, u64, u128),
);

/// The state of a generator, as `stream_state` gives it.
pub type StreamState = (Seq<u8>, u64, u128);

/// Calls `ChaCha8Rng::seed_from_u64`. The contract claims that the state of
/// the new generator depends on `seed` alone.
#[verifier::external_body]
pub(crate) fn seeded_generator(seed: u64) -> (rng: ChaCha8Rng)
    ensures
        stream_state(rng) == seeded_state(seed),
{
    ChaCha8Rng::seed_from_u64(seed)
}

/// Calls `Rng::gen_range` with the inclusive range `low..=high`, which
/// panics on an empty range: hence the precondition. The contract claims
/// that the value lies in the range, and that the value and the state the
/// generator is left in depend only on the state it was in and on the range.
#[verifier::external_body]
pub(crate) fn draw_inclusive(rng: &mut ChaCha8Rng, low: i32, high: i32) -> (value: i32)
    requires
        low <= high,
    ensures
        low <= value <= high,
        (value, stream_state(*final(rng))) == range_draw(stream_state(*old(rng)), low, high),
{
    rng.gen_range(low..=high)
}

} // verus!
