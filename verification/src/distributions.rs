//! The speed-factor source: draws a semitone step uniformly from a fixed
//! set and maps it to a playback-speed multiplier.
//!
//! The discrete variant is used: a step `s` in `[-4, 4]` stands for the
//! multiplier `2^(s / -12)`. Because the multiplier is irrational it is
//! carried as a Q20 fixed-point number (the value times `2^20`, rounded
//! down), which is exact enough to size sample windows and keeps all
//! window arithmetic in the integers.

use rand::seq::SliceRandom;
use vstd::prelude::*;

verus! {

/// The Q20 fixed-point representation of the multiplier 1.0.
pub const SPEED_ONE_Q20: u64 = 1048576;

/// A semitone step the augmentation may draw.
pub open spec fn valid_step(step: int) -> bool {
    -4 <= step <= 4
}

/// `2^(step / -12)` in Q20 fixed point, rounded down, for each step in the set.
pub open spec fn spec_speed_q20(step: int) -> u64 {
    if step == -4 {
        1321122
    } else if step == -3 {
        1246974
    } else if step == -2 {
        1176986
    } else if step == -1 {
        1110927
    } else if step == 0 {
        1048576
    } else if step == 1 {
        989723
    } else if step == 2 {
        934175
    } else if step == 3 {
        881743
    } else {
        832255
    }
}

/// The Q20 speed multiplier for a semitone step.
pub fn speed_q20(step: i32) -> (q: u64)
    requires
        valid_step(step as int),
    ensures
        q == spec_speed_q20(step as int),
{
    if step == -4 {
        1321122
    } else if step == -3 {
        1246974
    } else if step == -2 {
        1176986
    } else if step == -1 {
        1110927
    } else if step == 0 {
        1048576
    } else if step == 1 {
        989723
    } else if step == 2 {
        934175
    } else if step == 3 {
        881743
    } else {
        832255
    }
}

/// Every speed factor the source can hand out lies between the multipliers
/// of the two extreme steps: `2^(-4 / -12)` down to `2^(4 / -12)` in Q20,
/// that is within `[0.7937.., 1.2599..]`.
pub proof fn lemma_speed_factor_in_range(step: int)
    requires
        valid_step(step),
    ensures
        832255 <= spec_speed_q20(step) <= 1321122,
{
}

/// Relies on rand's `SliceRandom::choose` over `thread_rng`: returns one
/// element of the non-empty slice; which one depends on the calling
/// thread's generator, so only membership is stated.
#[verifier::external_body]
fn choose_from(options: &Vec<i32>) -> (r: i32)
    requires
        options@.len() > 0,
    ensures
        options@.contains(r),
{
    *options.choose(&mut rand::thread_rng()).unwrap()
}

/// Draws the semitone step for the next window, uniformly from the set
/// `{-4, ..., 4}`. Each call is independent; no state is shared between
/// callers, so decode threads may call this concurrently.
pub fn choose_random_step() -> (step: i32)
    ensures
        valid_step(step as int),
{
    let mut steps: Vec<i32> = Vec::new();
    steps.push(-4);
    steps.push(-3);
    steps.push(-2);
    steps.push(-1);
    steps.push(0);
    steps.push(1);
    steps.push(2);
    steps.push(3);
    steps.push(4);
    let step = choose_from(&steps);
    proof {
        assert(forall|i: int| 0 <= i < steps@.len() ==> valid_step(#[trigger] steps@[i] as int));
    }
    step
}

} // verus!
