//! The bucketed sweep: events are ordered by loop (ties by kind), the
//! capacity/busy state they drive is integrated over every game loop, and
//! one sample is emitted per bucket of `bucket_loops` loops.

use vstd::prelude::*;

use super::types::{order_spec, EfficiencySample, EvKind, INJECT_EXTRA_SLOTS};
use crate::sorting::{insert_pos, sort_by_key_spec, sorted_by_key};

verus! {

/// Sort key of events: loop first, then the kind's tie-break order.
pub open spec fn by_event_key() -> spec_fn((u32, EvKind)) -> int {
    |e: (u32, EvKind)| e.0 * 8 + order_spec(e.1)
}

/// Sweep state: `(capacity, active, supply_high)`.
pub type SweepState = (int, int, bool);

/// Effect of one event on the sweep state. Decrements stop at zero.
pub open spec fn apply_event(st: SweepState, k: EvKind) -> SweepState {
    match k {
        EvKind::CapacityUp => (st.0 + 1, st.1, st.2),
        EvKind::CapacityDown => (if st.0 - 1 > 0 { st.0 - 1 } else { 0 }, st.1, st.2),
        EvKind::InjectOn => (st.0 + INJECT_EXTRA_SLOTS, st.1, st.2),
        EvKind::InjectOff => (
            if st.0 - INJECT_EXTRA_SLOTS > 0 {
                st.0 - INJECT_EXTRA_SLOTS
            } else {
                0
            },
            st.1,
            st.2,
        ),
        EvKind::ProdStart => (st.0, st.1 + 1, st.2),
        EvKind::ProdEnd => (st.0, if st.1 - 1 > 0 { st.1 - 1 } else { 0 }, st.2),
        EvKind::SupplyMaxedOn => (st.0, st.1, true),
        EvKind::SupplyMaxedOff => (st.0, st.1, false),
    }
}

/// State after applying the events in order from the empty state.
pub open spec fn fold_events(evs: Seq<(u32, EvKind)>) -> SweepState
    decreases evs.len(),
{
    if evs.len() == 0 {
        (0, 0, false)
    } else {
        apply_event(fold_events(evs.drop_last()), evs.last().1)
    }
}

/// Number of leading events strictly before loop `u`.
pub open spec fn count_before(evs: Seq<(u32, EvKind)>, u: int) -> nat
    decreases evs.len(),
{
    if evs.len() == 0 || evs[0].0 >= u {
        0
    } else {
        1 + count_before(evs.drop_first(), u)
    }
}

/// State during game loop `t`: every event at or before `t` applied.
pub open spec fn state_at(evs: Seq<(u32, EvKind)>, t: int) -> SweepState {
    fold_events(evs.subrange(0, count_before(evs, t + 1) as int))
}

/// Capacity counted for a state (never negative).
pub open spec fn cap_of(st: SweepState) -> int {
    if st.0 > 0 {
        st.0
    } else {
        0
    }
}

/// Active count of a state clamped to `[0, capacity]`.
pub open spec fn active_clamped(st: SweepState) -> int {
    if st.1 < 0 {
        0
    } else if st.1 > cap_of(st) {
        cap_of(st)
    } else {
        st.1
    }
}

/// Busy capacity counted for a state: all of it while supply is maxed,
/// else the active count clamped to `[0, capacity]`.
pub open spec fn act_of(st: SweepState) -> int {
    if st.2 {
        cap_of(st)
    } else {
        active_clamped(st)
    }
}

/// Sum of the capacity over game loops `a..b`.
pub open spec fn cap_sum(evs: Seq<(u32, EvKind)>, a: int, b: int) -> int
    decreases b - a,
{
    if b <= a {
        0
    } else {
        cap_sum(evs, a, b - 1) + cap_of(state_at(evs, b - 1))
    }
}

/// Sum of the busy capacity over game loops `a..b`.
pub open spec fn act_sum(evs: Seq<(u32, EvKind)>, a: int, b: int) -> int
    decreases b - a,
{
    if b <= a {
        0
    } else {
        act_sum(evs, a, b - 1) + act_of(state_at(evs, b - 1))
    }
}

/// End of the bucket starting at `start`.
pub open spec fn bucket_end(start: int, bucket_loops: int, game_end: int) -> int {
    if start + bucket_loops < game_end {
        start + bucket_loops
    } else {
        game_end
    }
}

/// The sample of bucket `[start, end)` over the ordered events.
pub open spec fn sample_of(evs: Seq<(u32, EvKind)>, start: int, end: int, s: EfficiencySample) -> bool {
    &&& s.game_loop == end
    &&& s.capacity == cap_of(state_at(evs, end - 1))
    &&& s.active == active_clamped(state_at(evs, end - 1))
    &&& s.capacity_integral == cap_sum(evs, start, end)
    &&& s.active_integral == act_sum(evs, start, end)
}

/// No capacity or active count reached by events before `game_end`
/// exceeds `i32`.
pub open spec fn counts_fit(evs: Seq<(u32, EvKind)>, game_end: u32) -> bool {
    forall|k: int|
        0 <= k <= evs.len() && (k == 0 || evs[k - 1].0 < game_end) ==> #[trigger] fold_events(
            evs.subrange(0, k),
        ).0 <= i32::MAX && fold_events(evs.subrange(0, k)).1 <= i32::MAX
}

/// Every bucket end `start + bucket_loops` is representable.
pub open spec fn buckets_fit(game_end: u32, bucket_loops: u32) -> bool {
    forall|k: int|
        0 <= k && #[trigger] (k * bucket_loops) < game_end ==> k * bucket_loops + bucket_loops
            <= u32::MAX
}

/// The sweep's output for the (unordered) events: one sample per bucket.
pub open spec fn sweep_output(
    events: Seq<(u32, EvKind)>,
    game_end: u32,
    bucket_loops: u32,
    r: Seq<EfficiencySample>,
) -> bool {
    let evs = sort_by_key_spec(events, by_event_key());
    if game_end == 0 || bucket_loops == 0 {
        r.len() == 0
    } else {
        &&& r.len() * bucket_loops >= game_end
        &&& (r.len() - 1) * bucket_loops < game_end
        &&& forall|k: int|
            0 <= k < r.len() ==> sample_of(
                evs,
                k * bucket_loops,
                bucket_end(k * bucket_loops, bucket_loops as int, game_end as int),
                #[trigger] r[k],
            )
    }
}

/// The fold never drives capacity or the active count below zero.
proof fn lemma_fold_nonneg(evs: Seq<(u32, EvKind)>)
    ensures
        fold_events(evs).0 >= 0,
        fold_events(evs).1 >= 0,
    decreases evs.len(),
{
    if evs.len() > 0 {
        lemma_fold_nonneg(evs.drop_last());
    }
}

/// In a loop-ordered list, the events before `u` are exactly the first `i`
/// when `i` separates loops `< u` from loops `>= u`.
proof fn lemma_count_before(evs: Seq<(u32, EvKind)>, u: int, i: int)
    requires
        sorted_by_key(evs, by_event_key()),
        0 <= i <= evs.len(),
        i == 0 || evs[i - 1].0 < u,
        i == evs.len() || evs[i].0 >= u,
    ensures
        count_before(evs, u) == i,
    decreases evs.len(),
{
    if evs.len() > 0 && evs[0].0 < u {
        let d = evs.drop_first();
        assert(sorted_by_key(d, by_event_key())) by {
            assert forall|a: int, b: int| 0 <= a <= b < d.len() implies by_event_key()(d[a])
                <= by_event_key()(d[b]) by {
                assert(d[a] == evs[a + 1] && d[b] == evs[b + 1]);
            }
        }
        if i == 0 {
            assert(false);
        }
        lemma_count_before(d, u, i - 1);
    } else if evs.len() > 0 {
        if i > 0 {
            let a = by_event_key()(evs[0]);
            let b = by_event_key()(evs[i - 1]);
            assert(a <= b);
            assert(evs[0].0 <= evs[i - 1].0);
        }
    }
}

/// Loop order follows key order.
proof fn lemma_sorted_loops(evs: Seq<(u32, EvKind)>, a: int, b: int)
    requires
        sorted_by_key(evs, by_event_key()),
        0 <= a <= b < evs.len(),
    ensures
        evs[a].0 <= evs[b].0,
{
    assert(by_event_key()(evs[a]) <= by_event_key()(evs[b]));
}

/// Over loops where the applied prefix stays the first `i` events, the sums
/// grow linearly.
proof fn lemma_sums_constant(evs: Seq<(u32, EvKind)>, i: int, a: int, b: int)
    requires
        sorted_by_key(evs, by_event_key()),
        0 <= i <= evs.len(),
        a <= b,
        i == 0 || evs[i - 1].0 <= a,
        i == evs.len() || evs[i].0 >= b,
    ensures
        cap_sum(evs, a, b) == cap_sum(evs, a, a) + (b - a) * cap_of(fold_events(evs.subrange(0, i))),
        act_sum(evs, a, b) == act_sum(evs, a, a) + (b - a) * act_of(fold_events(evs.subrange(0, i))),
    decreases b - a,
{
    let st = fold_events(evs.subrange(0, i));
    let c = cap_of(st);
    let x = act_of(st);
    if b > a {
        lemma_sums_constant(evs, i, a, b - 1);
        lemma_count_before(evs, b, i);
        assert(state_at(evs, b - 1) == st);
        assert((b - a) * c == (b - 1 - a) * c + c) by (nonlinear_arith);
        assert((b - a) * x == (b - 1 - a) * x + x) by (nonlinear_arith);
    } else {
        assert((b - a) * c == 0) by (nonlinear_arith)
            requires
                b == a,
        ;
        assert((b - a) * x == 0) by (nonlinear_arith)
            requires
                b == a,
        ;
    }
}

/// Events ordered by loop, then kind order (insertion sort; stable).
fn sort_events(v: Vec<(u32, EvKind)>) -> (r: Vec<(u32, EvKind)>)
    ensures
        r@ == sort_by_key_spec(v@, by_event_key()),
{
    let n = v.len();
    let mut out: Vec<(u32, EvKind)> = Vec::new();
    let mut i: usize = 0;
    while i < n
        invariant
            i <= n,
            n == v@.len(),
            out@ == sort_by_key_spec(v@.subrange(0, i as int), by_event_key()),
        decreases n - i,
    {
        let x = v[i];
        let k: u64 = x.0 as u64 * 8 + x.1.order() as u64;
        let mut j: usize = out.len();
        assert(out@.subrange(0, j as int) =~= out@);
        while j > 0 && (out[j - 1].0 as u64 * 8 + out[j - 1].1.order() as u64) > k
            invariant
                j <= out@.len(),
                k == by_event_key()(x),
                insert_pos(out@, by_event_key(), k as int) == insert_pos(
                    out@.subrange(0, j as int),
                    by_event_key(),
                    k as int,
                ),
            decreases j,
        {
            assert(out@.subrange(0, j as int).drop_last() =~= out@.subrange(0, j - 1));
            j = j - 1;
        }
        assert(out@.subrange(0, 0) =~= Seq::<(u32, EvKind)>::empty());
        assert(insert_pos(out@, by_event_key(), k as int) == j);
        assert(v@.subrange(0, i + 1).drop_last() =~= v@.subrange(0, i as int));
        assert(v@.subrange(0, i + 1).last() == x);
        out.insert(j, x);
        i = i + 1;
    }
    assert(v@.subrange(0, n as int) =~= v@);
    out
}

/// Emits one sample per bucket of `bucket_loops` loops over `[0, game_end)`,
/// after ordering the events by loop (ties by [`EvKind::order`]). Each
/// sample integrates, loop by loop, the capacity and the busy capacity
/// (all of it while supply is maxed, else the active count clamped to the
/// capacity); the last bucket may be shorter. No samples when `game_end`
/// or `bucket_loops` is zero.
pub fn sweep(events: Vec<(u32, EvKind)>, game_end: u32, bucket_loops: u32) -> (r: Vec<EfficiencySample>)
    requires
        counts_fit(sort_by_key_spec(events@, by_event_key()), game_end),
        buckets_fit(game_end, bucket_loops),
    ensures
        sweep_output(events@, game_end, bucket_loops, r@),
{
    let ghost input = events@;
    let events = sort_events(events);
    let ghost evs = events@;
    proof {
        crate::sorting::lemma_sort_by_key_sorted(input, by_event_key());
    }
    if game_end == 0 || bucket_loops == 0 {
        return Vec::new();
    }
    let n = events.len();
    let mut samples: Vec<EfficiencySample> = Vec::new();
    let mut capacity: i32 = 0;
    let mut active: i32 = 0;
    let mut supply_high: bool = false;
    let mut i: usize = 0;
    let mut bucket_start: u32 = 0;
    assert(evs.subrange(0, 0) =~= Seq::<(u32, EvKind)>::empty());
    assert(samples@.len() * bucket_loops == 0) by (nonlinear_arith)
        requires
            samples@.len() == 0,
    ;
    while bucket_start < game_end
        invariant
            evs == events@,
            n == evs.len(),
            evs == sort_by_key_spec(input, by_event_key()),
            sorted_by_key(evs, by_event_key()),
            counts_fit(evs, game_end),
            buckets_fit(game_end, bucket_loops),
            game_end > 0,
            bucket_loops > 0,
            bucket_start < game_end ==> bucket_start == samples@.len() * bucket_loops,
            samples@.len() * bucket_loops >= bucket_start,
            bucket_start <= game_end,
            samples@.len() == 0 || (samples@.len() - 1) * bucket_loops < game_end,
            i <= n,
            i == 0 || evs[i - 1].0 < bucket_start,
            i == n || evs[i as int].0 >= bucket_start,
            (capacity as int, active as int, supply_high) == fold_events(evs.subrange(0, i as int)),
            forall|k: int|
                0 <= k < samples@.len() ==> sample_of(
                    evs,
                    k * bucket_loops,
                    bucket_end(k * bucket_loops, bucket_loops as int, game_end as int),
                    #[trigger] samples@[k],
                ),
        decreases game_end - bucket_start,
    {
        let ghost k = samples@.len() as int;
        assert(k * bucket_loops + bucket_loops <= u32::MAX);
        let end: u32 = if bucket_start + bucket_loops < game_end {
            bucket_start + bucket_loops
        } else {
            game_end
        };
        let mut cap_integral: u64 = 0;
        let mut act_integral: u64 = 0;
        let mut cursor: u32 = bucket_start;
        while i < n && events[i].0 < end
            invariant
                evs == events@,
                n == evs.len(),
                sorted_by_key(evs, by_event_key()),
                counts_fit(evs, game_end),
                bucket_start <= cursor <= end <= game_end,
                end - bucket_start <= u32::MAX,
                i <= n,
                i == 0 || evs[i - 1].0 <= cursor,
                i == n || evs[i as int].0 >= cursor,
                i > 0 && cursor > bucket_start ==> evs[i - 1].0 < end,
                i > 0 ==> evs[i - 1].0 < end,
                (capacity as int, active as int, supply_high) == fold_events(
                    evs.subrange(0, i as int),
                ),
                cap_integral == cap_sum(evs, bucket_start as int, cursor as int),
                act_integral == act_sum(evs, bucket_start as int, cursor as int),
                cap_integral <= (cursor - bucket_start) * 0x7fff_ffff,
                act_integral <= cap_integral,
            decreases n - i,
        {
            let ev_gl = events[i].0;
            proof {
                lemma_fold_nonneg(evs.subrange(0, i as int));
                assert(capacity <= i32::MAX);
            }
            if ev_gl > cursor {
                let dt: u64 = (ev_gl - cursor) as u64;
                let cap: u64 = if capacity > 0 {
                    capacity as u64
                } else {
                    0
                };
                let act: u64 = if supply_high {
                    cap
                } else if active < 0 {
                    0
                } else if active as u64 > cap {
                    cap
                } else {
                    active as u64
                };
                proof {
                    lemma_sums_constant(evs, i as int, cursor as int, ev_gl as int);
                    assert(cap_sum(evs, cursor as int, cursor as int) == 0);
                    assert(act_sum(evs, cursor as int, cursor as int) == 0);
                    lemma_sum_split(evs, bucket_start as int, cursor as int, ev_gl as int);
                    let st = fold_events(evs.subrange(0, i as int));
                    assert((ev_gl - cursor) * cap_of(st) == cap * dt) by (nonlinear_arith)
                        requires
                            cap == cap_of(st),
                            dt == ev_gl - cursor,
                    ;
                    assert((ev_gl - cursor) * act_of(st) == act * dt) by (nonlinear_arith)
                        requires
                            act == act_of(st),
                            dt == ev_gl - cursor,
                    ;
                    assert(cap * dt <= 0x7fff_ffff * dt) by (nonlinear_arith)
                        requires
                            cap <= 0x7fff_ffff,
                    ;
                    assert(act * dt <= cap * dt) by (nonlinear_arith)
                        requires
                            act <= cap,
                    ;
                    assert((cursor - bucket_start) * 0x7fff_ffff + 0x7fff_ffff * dt == (ev_gl
                        - bucket_start) * 0x7fff_ffff) by (nonlinear_arith)
                        requires
                            dt == ev_gl - cursor,
                    ;
                    assert((ev_gl - bucket_start) * 0x7fff_ffff <= 0xffff_ffff * 0x7fff_ffff)
                        by (nonlinear_arith)
                        requires
                            ev_gl - bucket_start <= 0xffff_ffff,
                            bucket_start <= ev_gl,
                    ;
                }
                cap_integral = cap_integral + cap * dt;
                act_integral = act_integral + act * dt;
            }
            let ghost i_start = i;
            while i < n && events[i].0 == ev_gl
                invariant
                    evs == events@,
                    n == evs.len(),
                    sorted_by_key(evs, by_event_key()),
                    counts_fit(evs, game_end),
                    ev_gl < end <= game_end,
                    i_start <= i <= n,
                    i_start < n && evs[i_start as int].0 == ev_gl,
                    i > i_start ==> evs[i - 1].0 == ev_gl,
                    (capacity as int, active as int, supply_high) == fold_events(
                        evs.subrange(0, i as int),
                    ),
                decreases n - i,
            {
                let ghost pre = evs.subrange(0, i as int);
                assert(evs.subrange(0, i + 1).drop_last() =~= pre);
                assert(evs.subrange(0, i + 1).last() == evs[i as int]);
                proof {
                    lemma_fold_nonneg(pre);
                    assert(fold_events(evs.subrange(0, i + 1)).0 <= i32::MAX);
                    assert(fold_events(evs.subrange(0, i + 1)).1 <= i32::MAX);
                }
                match events[i].1 {
                    EvKind::CapacityUp => capacity = capacity + 1,
                    EvKind::CapacityDown => capacity = if capacity - 1 > 0 {
                        capacity - 1
                    } else {
                        0
                    },
                    EvKind::InjectOn => capacity = capacity + INJECT_EXTRA_SLOTS,
                    EvKind::InjectOff => capacity = if capacity - INJECT_EXTRA_SLOTS > 0 {
                        capacity - INJECT_EXTRA_SLOTS
                    } else {
                        0
                    },
                    EvKind::ProdStart => active = active + 1,
                    EvKind::ProdEnd => active = if active - 1 > 0 {
                        active - 1
                    } else {
                        0
                    },
                    EvKind::SupplyMaxedOn => supply_high = true,
                    EvKind::SupplyMaxedOff => supply_high = false,
                }
                i = i + 1;
            }
            proof {
                if i < n {
                    lemma_sorted_loops(evs, i_start as int, i as int);
                }
            }
            cursor = ev_gl;
        }
        // Tail of the bucket with the current state.
        proof {
            lemma_fold_nonneg(evs.subrange(0, i as int));
        }
        if end > cursor {
            let dt: u64 = (end - cursor) as u64;
            let cap: u64 = if capacity > 0 {
                capacity as u64
            } else {
                0
            };
            let act: u64 = if supply_high {
                cap
            } else if active < 0 {
                0
            } else if active as u64 > cap {
                cap
            } else {
                active as u64
            };
            proof {
                lemma_sums_constant(evs, i as int, cursor as int, end as int);
                lemma_sum_split(evs, bucket_start as int, cursor as int, end as int);
                assert(cap_sum(evs, cursor as int, cursor as int) == 0);
                assert(act_sum(evs, cursor as int, cursor as int) == 0);
                let st = fold_events(evs.subrange(0, i as int));
                assert((end - cursor) * cap_of(st) == cap * dt) by (nonlinear_arith)
                    requires
                        cap == cap_of(st),
                        dt == end - cursor,
                ;
                assert((end - cursor) * act_of(st) == act * dt) by (nonlinear_arith)
                    requires
                        act == act_of(st),
                        dt == end - cursor,
                ;
                assert(cap * dt <= 0x7fff_ffff * dt) by (nonlinear_arith)
                    requires
                        cap <= 0x7fff_ffff,
                ;
                assert(act * dt <= cap * dt) by (nonlinear_arith)
                    requires
                        act <= cap,
                ;
                assert((cursor - bucket_start) * 0x7fff_ffff + 0x7fff_ffff * dt == (end
                    - bucket_start) * 0x7fff_ffff) by (nonlinear_arith)
                    requires
                        dt == end - cursor,
                ;
                assert((end - bucket_start) * 0x7fff_ffff <= 0xffff_ffff * 0x7fff_ffff)
                    by (nonlinear_arith)
                    requires
                        end - bucket_start <= 0xffff_ffff,
                        bucket_start <= end,
                ;
            }
            cap_integral = cap_integral + cap * dt;
            act_integral = act_integral + act * dt;
            cursor = end;
        }
        let cap_now: u32 = if capacity > 0 {
            capacity as u32
        } else {
            0
        };
        let act_now: u32 = if active < 0 {
            0
        } else if active as u32 > cap_now {
            cap_now
        } else {
            active as u32
        };
        proof {
            lemma_count_before(evs, end as int, i as int);
        }
        let sample = EfficiencySample {
            game_loop: end,
            capacity: cap_now,
            active: act_now,
            capacity_integral: cap_integral,
            active_integral: act_integral,
        };
        assert(sample_of(evs, bucket_start as int, end as int, sample));
        samples.push(sample);
        proof {
            assert((k + 1) * bucket_loops == k * bucket_loops + bucket_loops) by (nonlinear_arith);
            assert forall|j: int| 0 <= j < samples@.len() implies sample_of(
                evs,
                j * bucket_loops,
                bucket_end(j * bucket_loops, bucket_loops as int, game_end as int),
                #[trigger] samples@[j],
            ) by {
                if j == k {
                    assert(samples@[j] == sample);
                }
            }
        }
        bucket_start = end;
    }
    samples
}

/// Sums split at an inner point.
proof fn lemma_sum_split(evs: Seq<(u32, EvKind)>, a: int, b: int, c: int)
    requires
        a <= b <= c,
    ensures
        cap_sum(evs, a, c) == cap_sum(evs, a, b) + cap_sum(evs, b, c),
        act_sum(evs, a, c) == act_sum(evs, a, b) + act_sum(evs, b, c),
    decreases c - b,
{
    if c > b {
        lemma_sum_split(evs, a, b, c - 1);
    }
}


/// The busy sum never exceeds the capacity sum.
proof fn lemma_act_sum_le(evs: Seq<(u32, EvKind)>, a: int, b: int)
    ensures
        0 <= act_sum(evs, a, b) <= cap_sum(evs, a, b),
    decreases b - a,
{
    if b > a {
        lemma_act_sum_le(evs, a, b - 1);
    }
}

/// Law of the sweep: in every sample the busy capacity is at most the
/// capacity, at the bucket's end and integrated over the bucket (the
/// efficiency never exceeds 100%); the buckets follow each other every
/// `bucket_loops` loops and the last one ends at `game_end`.
pub proof fn lemma_sweep_output_bounds(
    events: Seq<(u32, EvKind)>,
    game_end: u32,
    bucket_loops: u32,
    r: Seq<EfficiencySample>,
)
    requires
        sweep_output(events, game_end, bucket_loops, r),
    ensures
        forall|k: int|
            0 <= k < r.len() ==> (#[trigger] r[k]).active <= r[k].capacity && r[k].active_integral
                <= r[k].capacity_integral,
        forall|k: int| 0 <= k < r.len() - 1 ==> (#[trigger] r[k]).game_loop == (k + 1) * bucket_loops,
        r.len() > 0 ==> r.last().game_loop == game_end,
{
    let evs = sort_by_key_spec(events, by_event_key());
    if game_end > 0 && bucket_loops > 0 {
        assert forall|k: int| 0 <= k < r.len() implies (#[trigger] r[k]).active <= r[k].capacity
            && r[k].active_integral <= r[k].capacity_integral by {
            let start = k * bucket_loops;
            let end = bucket_end(start, bucket_loops as int, game_end as int);
            assert(sample_of(evs, start, end, r[k]));
            lemma_act_sum_le(evs, start, end);
        }
        assert forall|k: int| 0 <= k < r.len() - 1 implies (#[trigger] r[k]).game_loop == (k + 1)
            * bucket_loops by {
            let start = k * bucket_loops;
            assert(sample_of(evs, start, bucket_end(start, bucket_loops as int, game_end as int), r[k]));
            assert((k + 1) * bucket_loops <= (r.len() - 1) * bucket_loops) by (nonlinear_arith)
                requires
                    k + 1 <= r.len() - 1,
                    bucket_loops > 0,
            ;
            assert(start + bucket_loops == (k + 1) * bucket_loops) by (nonlinear_arith)
                requires
                    start == k * bucket_loops,
            ;
        }
        if r.len() > 0 {
            let k = r.len() - 1;
            let start = k * bucket_loops;
            assert(sample_of(evs, start, bucket_end(start, bucket_loops as int, game_end as int), r[k]));
            assert(start + bucket_loops == r.len() * bucket_loops) by (nonlinear_arith)
                requires
                    k == r.len() - 1,
                    start == k * bucket_loops,
            ;
        }
    }
}


/// Net capacity of a run of events: one slot per `CapacityUp` less one per
/// `CapacityDown`, four per `InjectOn` less four per `InjectOff`.
pub open spec fn capacity_net(evs: Seq<(u32, EvKind)>) -> int
    decreases evs.len(),
{
    if evs.len() == 0 {
        0
    } else {
        capacity_net(evs.drop_last()) + match evs.last().1 {
            EvKind::CapacityUp => 1int,
            EvKind::CapacityDown => -1int,
            EvKind::InjectOn => 4int,
            EvKind::InjectOff => -4int,
            _ => 0int,
        }
    }
}

/// Net productions of a run of events: starts less ends.
pub open spec fn active_net(evs: Seq<(u32, EvKind)>) -> int
    decreases evs.len(),
{
    if evs.len() == 0 {
        0
    } else {
        active_net(evs.drop_last()) + match evs.last().1 {
            EvKind::ProdStart => 1int,
            EvKind::ProdEnd => -1int,
            _ => 0int,
        }
    }
}

/// The sweep counts slots and productions: as long as no prefix of the
/// events removes more capacity than it added, the capacity after them is
/// the net count of townhall/producer slots plus four per open inject
/// window; likewise the active count is started less ended productions
/// while those never go below zero.
pub proof fn lemma_state_is_net_count(evs: Seq<(u32, EvKind)>)
    ensures
        (forall|k: int| 0 <= k <= evs.len() ==> #[trigger] capacity_net(evs.subrange(0, k)) >= 0)
            ==> fold_events(evs).0 == capacity_net(evs),
        (forall|k: int| 0 <= k <= evs.len() ==> #[trigger] active_net(evs.subrange(0, k)) >= 0)
            ==> fold_events(evs).1 == active_net(evs),
    decreases evs.len(),
{
    if evs.len() > 0 {
        let d = evs.drop_last();
        lemma_state_is_net_count(d);
        assert(evs.subrange(0, evs.len() as int) =~= evs);
        if forall|k: int| 0 <= k <= evs.len() ==> #[trigger] capacity_net(evs.subrange(0, k)) >= 0 {
            assert forall|k: int| 0 <= k <= d.len() implies #[trigger] capacity_net(d.subrange(0, k))
                >= 0 by {
                assert(d.subrange(0, k) =~= evs.subrange(0, k));
            }
            assert(capacity_net(evs.subrange(0, evs.len() as int)) >= 0);
        }
        if forall|k: int| 0 <= k <= evs.len() ==> #[trigger] active_net(evs.subrange(0, k)) >= 0 {
            assert forall|k: int| 0 <= k <= d.len() implies #[trigger] active_net(d.subrange(0, k)) >= 0 by {
                assert(d.subrange(0, k) =~= evs.subrange(0, k));
            }
            assert(active_net(evs.subrange(0, evs.len() as int)) >= 0);
        }
    }
}

} // verus!
