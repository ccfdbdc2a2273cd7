//! Drawing the balls of a field from a seeded generator.
//!
//! One generator serves a whole field, and the order of the draws is part of
//! what a seed means: first the number of balls, then for each ball its
//! x-centre, its y-centre and its radius.

use crate::ball::{ball_at, MetaBall};
use crate::generator::{
    draw_inclusive, range_draw, seeded_generator, seeded_state, stream_state, StreamState,
};
use crate::seed::{normalize_seed, normalized_seed};
use rand_chacha::ChaCha8Rng;
use vstd::prelude::*;

verus! {

/// The three inclusive ranges that shape a field.
#[derive(Clone, Copy, Debug, PartialEq, Eq, Structural)]
pub enum Parameter {
    /// How many balls there may be.
    NumBalls,
    /// Where, on either axis, a ball's centre may lie.
    InnerRange,
    /// How large a ball's radius may be.
    BallSize,
}

/// Why a field was refused.
#[derive(Clone, Copy, Debug, PartialEq, Eq, Structural)]
pub enum BlobError {
    /// The named range has its upper end below its lower end.
    InvalidRange(Parameter),
}

/// The first of the three ranges, in the order count, position, radius, whose
/// upper end lies below its lower end.
pub open spec fn first_inverted(
    num_balls: (i32, i32),
    inner_range: (i32, i32),
    ball_size: (i32, i32),
) -> Option<Parameter> {
    if num_balls.1 < num_balls.0 {
        Some(Parameter::NumBalls)
    } else if inner_range.1 < inner_range.0 {
        Some(Parameter::InnerRange)
    } else if ball_size.1 < ball_size.0 {
        Some(Parameter::BallSize)
    } else {
        None
    }
}

/// The ball that three draws from a generator in state `state` make, and the
/// state the generator is left in.
pub open spec fn ball_draw(state: StreamState, inner_range: (i32, i32), ball_size: (i32, i32)) -> (
    MetaBall,
    StreamState,
) {
    let (x, after_x) = range_draw(state, inner_range.0, inner_range.1);
    let (y, after_y) = range_draw(after_x, inner_range.0, inner_range.1);
    let (r, after_r) = range_draw(after_y, ball_size.0, ball_size.1);
    (ball_at(x, y, r), after_r)
}

/// The state of a generator that started in `start` and has since yielded
/// `k` balls.
pub open spec fn state_after_balls(
    start: StreamState,
    k: nat,
    inner_range: (i32, i32),
    ball_size: (i32, i32),
) -> StreamState
    decreases k,
{
    if k == 0 {
        start
    } else {
        ball_draw(state_after_balls(start, (k - 1) as nat, inner_range, ball_size), inner_range, ball_size).1
    }
}

/// The first `n` balls that a generator in state `start` yields.
pub open spec fn drawn_balls(
    start: StreamState,
    n: nat,
    inner_range: (i32, i32),
    ball_size: (i32, i32),
) -> Seq<MetaBall> {
    Seq::new(
        n,
        |k: int| ball_draw(state_after_balls(start, k as nat, inner_range, ball_size), inner_range, ball_size).0,
    )
}

/// The number that the first draw of the generator seeded with `seed` gives
/// for the count of balls.
pub open spec fn sampled_count(seed: i64, num_balls: (i32, i32)) -> int {
    range_draw(seeded_state(normalized_seed(seed as int) as u64), num_balls.0, num_balls.1).0 as int
}

/// The balls of the field that `seed` and the three ranges stand for. A
/// count that is not positive gives no balls.
pub open spec fn sampled_balls(
    seed: i64,
    num_balls: (i32, i32),
    inner_range: (i32, i32),
    ball_size: (i32, i32),
) -> Seq<MetaBall> {
    let first = range_draw(seeded_state(normalized_seed(seed as int) as u64), num_balls.0, num_balls.1);
    let n: nat = if first.0 > 0 {
        first.0 as nat
    } else {
        0
    };
    drawn_balls(first.1, n, inner_range, ball_size)
}

/// Every centre lies within `inner_range` on both axes and every radius
/// within `ball_size`.
pub open spec fn balls_within(balls: Seq<MetaBall>, inner_range: (i32, i32), ball_size: (i32, i32)) -> bool {
    forall|i: int|
        0 <= i < balls.len() ==> {
            &&& inner_range.0 <= (#[trigger] balls[i]).center.x <= inner_range.1
            &&& inner_range.0 <= balls[i].center.y <= inner_range.1
            &&& ball_size.0 <= balls[i].radius <= ball_size.1
        }
}

/// Tells whether each of the three ranges has its ends in order, and names
/// the first that has not.
pub fn validate_ranges(num_balls: (i32, i32), inner_range: (i32, i32), ball_size: (i32, i32)) -> (r:
    Result<(), BlobError>)
    ensures
        r == match first_inverted(num_balls, inner_range, ball_size) {
            Some(which) => Err::<(), BlobError>(BlobError::InvalidRange(which)),
            None => Ok::<(), BlobError>(()),
        },
{
    if num_balls.1 < num_balls.0 {
        Err(BlobError::InvalidRange(Parameter::NumBalls))
    } else if inner_range.1 < inner_range.0 {
        Err(BlobError::InvalidRange(Parameter::InnerRange))
    } else if ball_size.1 < ball_size.0 {
        Err(BlobError::InvalidRange(Parameter::BallSize))
    } else {
        Ok(())
    }
}

/// Draws the next ball from `rng`: x-centre, y-centre, radius, in this order.
fn draw_ball(rng: &mut ChaCha8Rng, inner_range: (i32, i32), ball_size: (i32, i32)) -> (ball: MetaBall)
    requires
        inner_range.0 <= inner_range.1,
        ball_size.0 <= ball_size.1,
    ensures
        (ball, stream_state(*final(rng))) == ball_draw(stream_state(*old(rng)), inner_range, ball_size),
        inner_range.0 <= ball.center.x <= inner_range.1,
        inner_range.0 <= ball.center.y <= inner_range.1,
        ball_size.0 <= ball.radius <= ball_size.1,
{
    let x: i32 = draw_inclusive(rng, inner_range.0, inner_range.1);
    let y: i32 = draw_inclusive(rng, inner_range.0, inner_range.1);
    let r: i32 = draw_inclusive(rng, ball_size.0, ball_size.1);
    MetaBall::new(x, y, r)
}

/// Draws the balls of a field.
///
/// A range with its ends out of order is refused before anything is drawn.
/// Otherwise the generator is seeded with the unsigned seed of `seed`, the
/// count is drawn from `num_balls`, and that many balls follow; a count
/// below one gives none. The result depends on the arguments alone.
pub fn sample_balls(
    seed: i64,
    num_balls: (i32, i32),
    inner_range: (i32, i32),
    ball_size: (i32, i32),
) -> (r: Result<Vec<MetaBall>, BlobError>)
    ensures
        match first_inverted(num_balls, inner_range, ball_size) {
            Some(which) => r == Err::<Vec<MetaBall>, BlobError>(BlobError::InvalidRange(which)),
            None => {
                &&& r is Ok
                &&& r.unwrap()@ == sampled_balls(seed, num_balls, inner_range, ball_size)
                &&& num_balls.0 <= sampled_count(seed, num_balls) <= num_balls.1
                &&& r.unwrap()@.len() == if sampled_count(seed, num_balls) > 0 {
                    sampled_count(seed, num_balls)
                } else {
                    0
                }
                &&& 0 <= num_balls.0 ==> num_balls.0 <= r.unwrap()@.len() <= num_balls.1
                &&& balls_within(r.unwrap()@, inner_range, ball_size)
            },
        },
{
    match validate_ranges(num_balls, inner_range, ball_size) {
        Err(e) => {
            return Err(e);
        },
        Ok(_) => {},
    }
    let mut rng: ChaCha8Rng = seeded_generator(normalize_seed(seed));
    let count: i32 = draw_inclusive(&mut rng, num_balls.0, num_balls.1);
    let ghost start: StreamState = stream_state(rng);
    let mut balls: Vec<MetaBall> = Vec::new();
    let mut k: i32 = 0;
    while k < count
        invariant
            0 <= k,
            k <= count || k == 0,
            inner_range.0 <= inner_range.1,
            ball_size.0 <= ball_size.1,
            stream_state(rng) == state_after_balls(start, k as nat, inner_range, ball_size),
            balls@ == drawn_balls(start, k as nat, inner_range, ball_size),
            balls_within(balls@, inner_range, ball_size),
        decreases count - k,
    {
        let ball: MetaBall = draw_ball(&mut rng, inner_range, ball_size);
        balls.push(ball);
        k = k + 1;
    }
    Ok(balls)
}

} // verus!
