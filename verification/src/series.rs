//! Lookups in loop-ordered series: the last sample at or before a loop,
//! found by binary search.

use vstd::prelude::*;

use crate::replay::{ArmySnapshot, StatsSnapshot};

verus! {

/// Index of the last key at or before `t`, or -1 when every key is later.
pub open spec fn last_le(keys: Seq<u32>, t: u32) -> int
    decreases keys.len(),
{
    if keys.len() == 0 {
        -1
    } else if keys.last() <= t {
        keys.len() - 1
    } else {
        last_le(keys.drop_last(), t)
    }
}

/// The keys never decrease.
pub open spec fn keys_sorted(keys: Seq<u32>) -> bool {
    forall|i: int, j: int| 0 <= i <= j < keys.len() ==> keys[i] <= keys[j]
}

/// Loops of a stats series.
pub open spec fn stats_loops(s: Seq<StatsSnapshot>) -> Seq<u32> {
    Seq::new(s.len(), |i: int| s[i].game_loop)
}

/// Loops of a `(loop, count)` series.
pub open spec fn pair_loops(s: Seq<(u32, i32)>) -> Seq<u32> {
    Seq::new(s.len(), |i: int| s[i].0)
}

/// Loops of an army-value series.
pub open spec fn army_loops(s: Seq<ArmySnapshot>) -> Seq<u32> {
    Seq::new(s.len(), |i: int| s[i].game_loop)
}

/// When the keys before `p` are at or before `t` and the rest are later,
/// the last one at or before `t` is `p - 1`.
pub proof fn lemma_last_le_split(keys: Seq<u32>, t: u32, p: int)
    requires
        0 <= p <= keys.len(),
        forall|i: int| 0 <= i < p ==> keys[i] <= t,
        forall|i: int| p <= i < keys.len() ==> keys[i] > t,
    ensures
        last_le(keys, t) == p - 1,
    decreases keys.len(),
{
    if keys.len() > p {
        let d = keys.drop_last();
        assert forall|i: int| p <= i < d.len() implies d[i] > t by {
            assert(d[i] == keys[i]);
        }
        lemma_last_le_split(d, t, p);
    }
}

/// `last_le` is -1 or a valid index.
pub proof fn lemma_last_le_range(keys: Seq<u32>, t: u32)
    ensures
        -1 <= last_le(keys, t) < keys.len(),
    decreases keys.len(),
{
    if keys.len() > 0 {
        lemma_last_le_range(keys.drop_last(), t);
    }
}

/// The last stats snapshot at or before `t`, by binary search.
pub fn last_stats_at(stats: &[StatsSnapshot], t: u32) -> (r: Option<usize>)
    requires
        keys_sorted(stats_loops(stats@)),
    ensures
        match r {
            Some(i) => i < stats@.len() && i == last_le(stats_loops(stats@), t),
            None => last_le(stats_loops(stats@), t) == -1,
        },
{
    let ghost keys = stats_loops(stats@);
    let mut lo: usize = 0;
    let mut hi: usize = stats.len();
    while lo < hi
        invariant
            lo <= hi <= stats@.len(),
            keys == stats_loops(stats@),
            keys_sorted(keys),
            forall|i: int| 0 <= i < lo ==> keys[i] <= t,
            forall|i: int| hi <= i < keys.len() ==> keys[i] > t,
        decreases hi - lo,
    {
        let mid = lo + (hi - lo) / 2;
        if stats[mid].game_loop <= t {
            assert forall|i: int| 0 <= i < mid + 1 implies keys[i] <= t by {
                assert(keys[i] <= keys[mid as int]);
            }
            lo = mid + 1;
        } else {
            assert forall|i: int| mid <= i < keys.len() implies keys[i] > t by {
                assert(keys[mid as int] <= keys[i]);
            }
            hi = mid;
        }
    }
    proof {
        lemma_last_le_split(keys, t, lo as int);
    }
    if lo == 0 {
        None
    } else {
        Some(lo - 1)
    }
}

/// The last `(loop, count)` sample at or before `t`, by binary search.
pub fn last_pair_at(series: &[(u32, i32)], t: u32) -> (r: Option<usize>)
    requires
        keys_sorted(pair_loops(series@)),
    ensures
        match r {
            Some(i) => i < series@.len() && i == last_le(pair_loops(series@), t),
            None => last_le(pair_loops(series@), t) == -1,
        },
{
    let ghost keys = pair_loops(series@);
    let mut lo: usize = 0;
    let mut hi: usize = series.len();
    while lo < hi
        invariant
            lo <= hi <= series@.len(),
            keys == pair_loops(series@),
            keys_sorted(keys),
            forall|i: int| 0 <= i < lo ==> keys[i] <= t,
            forall|i: int| hi <= i < keys.len() ==> keys[i] > t,
        decreases hi - lo,
    {
        let mid = lo + (hi - lo) / 2;
        if series[mid].0 <= t {
            assert forall|i: int| 0 <= i < mid + 1 implies keys[i] <= t by {
                assert(keys[i] <= keys[mid as int]);
            }
            lo = mid + 1;
        } else {
            assert forall|i: int| mid <= i < keys.len() implies keys[i] > t by {
                assert(keys[mid as int] <= keys[i]);
            }
            hi = mid;
        }
    }
    proof {
        lemma_last_le_split(keys, t, lo as int);
    }
    if lo == 0 {
        None
    } else {
        Some(lo - 1)
    }
}

/// The last army-value snapshot at or before `t`, by binary search.
pub fn last_army_at(snaps: &[ArmySnapshot], t: u32) -> (r: Option<usize>)
    requires
        keys_sorted(army_loops(snaps@)),
    ensures
        match r {
            Some(i) => i < snaps@.len() && i == last_le(army_loops(snaps@), t),
            None => last_le(army_loops(snaps@), t) == -1,
        },
{
    let ghost keys = army_loops(snaps@);
    let mut lo: usize = 0;
    let mut hi: usize = snaps.len();
    while lo < hi
        invariant
            lo <= hi <= snaps@.len(),
            keys == army_loops(snaps@),
            keys_sorted(keys),
            forall|i: int| 0 <= i < lo ==> keys[i] <= t,
            forall|i: int| hi <= i < keys.len() ==> keys[i] > t,
        decreases hi - lo,
    {
        let mid = lo + (hi - lo) / 2;
        if snaps[mid].game_loop <= t {
            assert forall|i: int| 0 <= i < mid + 1 implies keys[i] <= t by {
                assert(keys[i] <= keys[mid as int]);
            }
            lo = mid + 1;
        } else {
            assert forall|i: int| mid <= i < keys.len() implies keys[i] > t by {
                assert(keys[mid as int] <= keys[i]);
            }
            hi = mid;
        }
    }
    proof {
        lemma_last_le_split(keys, t, lo as int);
    }
    if lo == 0 {
        None
    } else {
        Some(lo - 1)
    }
}

} // verus!
