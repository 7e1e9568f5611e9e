//! The integer side of the noise source: a xorshift64 generator.
use vstd::prelude::*;

verus! {

/// The seed of the noise generator; fixed so that a parameter file always
/// gives the same sound.
pub const NOISE_SEED: u64 = 42;

/// One xorshift64 step (shifts 13, 7, 17).
pub open spec fn spec_xorshift64(x: u64) -> u64 {
    let a = x ^ (x << 13u64);
    let b = a ^ (a >> 7u64);
    b ^ (b << 17u64)
}

/// Advances the noise generator by one step and returns the new state.
pub fn xorshift64(state: u64) -> (r: u64)
    ensures
        r == spec_xorshift64(state),
        state != 0 ==> r != state && r != 0,
        ({
            let a = state ^ (state << 13u64);
            let b = a ^ (a >> 7u64);
            r == b ^ (b << 17u64)
        }),
{
    proof {
        if state != 0 {
            lemma_step_moves(state);
            lemma_step_keeps_nonzero(state);
        }
    }
    let mut x = state;
    x ^= x << 13u64;
    x ^= x >> 7u64;
    x ^= x << 17u64;
    x
}

/// The state of the generator after `n` steps from `seed`.
pub open spec fn state_after(seed: u64, n: nat) -> u64
    decreases n,
{
    if n == 0 {
        seed
    } else {
        spec_xorshift64(state_after(seed, (n - 1) as nat))
    }
}

/// A step never leaves a nonzero state where it is: the generator has no
/// nonzero fixed point, so its output never freezes at one value.
pub proof fn lemma_step_moves(x: u64)
    requires
        x != 0,
    ensures
        spec_xorshift64(x) != x,
{
    assert(x != 0 ==> ((x ^ (x << 13u64)) ^ ((x ^ (x << 13u64)) >> 7u64)) ^ (((x ^ (x << 13u64)) ^ ((x
        ^ (x << 13u64)) >> 7u64)) << 17u64) != x) by (bit_vector);
}

/// Different states step to different states: the step loses no state, so
/// every state has exactly one predecessor.
pub proof fn lemma_step_injective(x: u64, y: u64)
    requires
        spec_xorshift64(x) == spec_xorshift64(y),
    ensures
        x == y,
{
    let ax = x ^ (x << 13u64);
    let ay = y ^ (y << 13u64);
    let bx = ax ^ (ax >> 7u64);
    let by_ = ay ^ (ay >> 7u64);
    assert(bx ^ (bx << 17u64) == by_ ^ (by_ << 17u64) ==> bx == by_) by (bit_vector);
    assert(ax ^ (ax >> 7u64) == ay ^ (ay >> 7u64) ==> ax == ay) by (bit_vector);
    assert(x ^ (x << 13u64) == y ^ (y << 13u64) ==> x == y) by (bit_vector);
}

/// A step never turns a nonzero state into zero.
pub proof fn lemma_step_keeps_nonzero(x: u64)
    requires
        x != 0,
    ensures
        spec_xorshift64(x) != 0,
{
    let a = x ^ (x << 13u64);
    let b = a ^ (a >> 7u64);
    assert(x != 0 ==> x ^ (x << 13u64) != 0) by (bit_vector);
    assert(a != 0 ==> a ^ (a >> 7u64) != 0) by (bit_vector);
    assert(b != 0 ==> b ^ (b << 17u64) != 0) by (bit_vector);
}

/// From a nonzero seed the generator never reaches the all-zero state, in
/// which it would stay for good and the noise would be constant.
pub proof fn lemma_never_stuck_at_zero(seed: u64, n: nat)
    requires
        seed != 0,
    ensures
        state_after(seed, n) != 0,
    decreases n,
{
    if n > 0 {
        lemma_never_stuck_at_zero(seed, (n - 1) as nat);
        lemma_step_keeps_nonzero(state_after(seed, (n - 1) as nat));
    }
}

} // verus!
