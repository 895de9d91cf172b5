//! The seeded pseudo-random stream that drives crater size, placement and
//! depth. One 64-bit seed fixes the whole stream, so a fixed seed
//! reproduces the same draws in every run.

use vstd::prelude::*;

verus! {

/// Multiplier of the linear congruential step.
pub const STREAM_MUL: u64 = 6_364_136_223_846_793_005;

/// Increment of the linear congruential step.
pub const STREAM_INC: u64 = 1_442_695_040_888_963_407;

/// What one step of the stream is: the linear congruential update of the
/// state, modulo two to the sixty-fourth.
pub open spec fn stream_next_spec(state: u64) -> u64 {
    (((STREAM_MUL as int) * (state as int) + STREAM_INC as int) % 0x1_0000_0000_0000_0000) as u64
}

/// Advance the stream by one step.
pub fn stream_next(state: u64) -> (r: u64)
    ensures
        r == stream_next_spec(state),
{
    proof {
        let m = STREAM_MUL as int;
        let s = state as int;
        assert(0 <= m * s && m * s + STREAM_INC < 0x1_0000_0000_0000_0000_0000_0000_0000_0000)
            by (nonlinear_arith)
            requires
                0 <= m < 0x1_0000_0000_0000_0000,
                0 <= s < 0x1_0000_0000_0000_0000,
        ;
    }
    let wide: u128 = (STREAM_MUL as u128) * (state as u128) + (STREAM_INC as u128);
    proof {
        assert(wide as u64 == (wide % 0x1_0000_0000_0000_0000u128) as u64) by (bit_vector);
    }
    #[verifier::truncate] (wide as u64)
}

/// What drawing below `bound` from a state is: the next state's value
/// reduced modulo the bound.
pub open spec fn draw_below_spec(state: u64, bound: u64) -> u64 {
    (stream_next_spec(state) as int % bound as int) as u64
}

/// Advance the stream and reduce the new state into `[0, bound)`. Returns
/// the advanced state and the drawn value.
pub fn draw_below(state: u64, bound: u64) -> (r: (u64, u64))
    requires
        bound > 0,
    ensures
        r.0 == stream_next_spec(state),
        r.1 == draw_below_spec(state, bound),
        r.1 < bound,
{
    let next: u64 = stream_next(state);
    (next, next % bound)
}

} // verus!
