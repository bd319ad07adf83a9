//! A deliberately simple linear congruential pseudo-random generator.
//!
//! The renderer draws jitter for antialiasing and scene placement from it.
//! The step is a pure function of the state, so a render that starts from the
//! default seed and draws in a fixed order is reproducible bit for bit.

use vstd::prelude::*;

verus! {

use vstd::arithmetic::div_mod::{lemma_add_mod_noop_right, lemma_mod_bound, lemma_mod_sub_multiples_vanish, lemma_small_mod};

/// Multiplier of the linear congruential step.
pub const LCG_MUL: u64 = 2862933555777941757;
/// Increment of the linear congruential step.
pub const LCG_INC: u64 = 3037000493;
/// State the generator starts from.
pub const LCG_SEED: u64 = 0x123456789abcdef0;
/// Resolution of the jitter fractions drawn from the generator: a draw is a
/// tick count in `0 ..= RES`, meant to be read as the fraction ticks / `RES`.
pub const RES: u64 = 100_000;

/// The next generator state: the linear congruential step applied to `s`.
pub open spec fn lcg_next(s: u64) -> u64 {
    ((s * LCG_MUL + LCG_INC) % 0x1_0000_0000_0000_0000) as u64
}

/// Advance the generator state once and return the new state.
pub fn random(state: &mut u64) -> (r: u64)
    ensures
        *final(state) == lcg_next(*old(state)),
        r == lcg_next(*old(state)),
{
    let s: u64 = *state;
    let stepped = s.wrapping_mul(LCG_MUL);
    let next = stepped.wrapping_add(LCG_INC);
    proof {
        lemma_lcg_step_wraps(s, stepped, next);
    }
    *state = next;
    next
}

/// The two wrapping operations of the step compute the step's product-sum
/// modulo 2^64 exactly.
proof fn lemma_lcg_step_wraps(s: u64, stepped: u64, next: u64)
    requires
        stepped == (s * LCG_MUL) % 0x1_0000_0000_0000_0000,
        next == if stepped + LCG_INC > u64::MAX {
            (stepped + LCG_INC - 0x1_0000_0000_0000_0000) as u64
        } else {
            (stepped + LCG_INC) as u64
        },
    ensures
        next == lcg_next(s),
{
    let r = 0x1_0000_0000_0000_0000int;
    let a = s * LCG_MUL;
    lemma_add_mod_noop_right(LCG_INC as int, a, r);
    assert((LCG_INC + a % r) % r == (LCG_INC + a) % r);
    lemma_mod_bound(a, r);
    if stepped + LCG_INC > u64::MAX {
        lemma_mod_sub_multiples_vanish(stepped + LCG_INC, r);
        lemma_small_mod((stepped + LCG_INC - r) as nat, r as nat);
    } else {
        lemma_small_mod((stepped + LCG_INC) as nat, r as nat);
    }
}

/// Draw one jitter tick count: advance the generator and fold the new state
/// to the range `0 ..= RES`, dropping the weakest three bits first.
pub fn frandom_ticks(state: &mut u64) -> (r: u64)
    ensures
        *final(state) == lcg_next(*old(state)),
        r == (lcg_next(*old(state)) as int / 8) % (RES as int + 1),
        r <= RES,
{
    let n = random(state);
    let folded = n >> 3;
    proof {
        assert(n >> 3u64 == n / 8) by (bit_vector);
        lemma_mod_bound((n / 8) as int, (RES + 1) as int);
    }
    folded % (RES + 1)
}

} // verus!
