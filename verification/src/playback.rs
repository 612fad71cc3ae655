//! Timeline playback controls: scrubbing by a signed number of loops and
//! cycling the playback speed.

use vstd::prelude::*;

verus! {

/// Playback speeds, in cycle order.
pub const SPEEDS: [u8; 4] = [1, 2, 4, 8];

/// `v` clamped to `[lo, hi]`.
pub open spec fn clamp_spec(v: int, lo: int, hi: int) -> int {
    if v < lo {
        lo
    } else if v > hi {
        hi
    } else {
        v
    }
}

/// Moves the playback position by `delta` loops, kept inside
/// `[0, max_loop]`.
pub fn apply_delta(current_loop: &mut u32, delta: i64, max_loop: u32)
    requires
        i64::MIN <= *old(current_loop) + delta <= i64::MAX,
    ensures
        *final(current_loop) == clamp_spec(*old(current_loop) + delta, 0, max_loop as int),
        *final(current_loop) <= max_loop,
{
    let v: i64 = *current_loop as i64 + delta;
    *current_loop = if v < 0 {
        0
    } else if v > max_loop as i64 {
        max_loop
    } else {
        v as u32
    };
}

/// The speed after `current` in the cycle 1, 2, 4, 8; unknown speeds
/// count as the first.
pub open spec fn next_speed_spec(current: u8) -> u8 {
    if current == 1 {
        2
    } else if current == 2 {
        4
    } else if current == 4 {
        8
    } else if current == 8 {
        1
    } else {
        2
    }
}

/// Next playback speed in the cycle of `SPEEDS`.
pub fn next_speed(current: u8) -> (r: u8)
    ensures
        r == next_speed_spec(current),
{
    let mut idx: usize = 0;
    let mut found = false;
    let mut k: usize = 0;
    while k < 4
        invariant
            k <= 4,
            SPEEDS@ == seq![1u8, 2u8, 4u8, 8u8],
            found ==> idx < k && SPEEDS@[idx as int] == current,
            !found ==> idx == 0 && forall|m: int| 0 <= m < k ==> SPEEDS@[m] != current,
        decreases 4 - k,
    {
        if !found && SPEEDS[k] == current {
            idx = k;
            found = true;
        }
        k = k + 1;
    }
    SPEEDS[(idx + 1) % 4]
}


/// The speed cycle: from any speed of `SPEEDS` the next one is again in
/// `SPEEDS`, and four steps come back to the start.
pub proof fn lemma_next_speed_cycle(s: u8)
    requires
        s == 1 || s == 2 || s == 4 || s == 8,
    ensures
        next_speed_spec(s) == 1 || next_speed_spec(s) == 2 || next_speed_spec(s) == 4 || next_speed_spec(s)
            == 8,
        next_speed_spec(next_speed_spec(next_speed_spec(next_speed_spec(s)))) == s,
{
}

} // verus!
