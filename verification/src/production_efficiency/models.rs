//! Event streams of the production-efficiency models: worker capacity and
//! births (all races), army capacity and unit production with warp-gate
//! cycles and supply-maxed overrides, and the Zerg larva-bandwidth model.

use vstd::prelude::*;

use super::sweep::{buckets_fit, by_event_key, counts_fit, sweep, sweep_output};
use super::types::{
    is_drone, is_warp_gate_unit, is_warp_gate_unit_spec, EfficiencySample, EfficiencyTarget, EvKind,
    ARMY_SUPPLY_MAXED_THRESHOLD, DRONE_BUILD_LOOPS, INJECT_WINDOW_LOOPS, WARP_GATE_CYCLE_LOOPS,
    WORKER_BUILD_TIME,
};
use crate::replay::{
    EntityCategory, EntityEvent, EntityEventKind, InjectCmd, PlayerTimeline, StatsSnapshot, UpgradeEntry,
};
use crate::text::str_eq;
use crate::sorting::sort_by_key_spec;

verus! {

/// `+1`/`-1` capacity changes as capacity events.
pub open spec fn capacity_events(changes: Seq<(u32, i32)>) -> Seq<(u32, EvKind)>
    decreases changes.len(),
{
    if changes.len() == 0 {
        Seq::empty()
    } else {
        let c = changes.last();
        capacity_events(changes.drop_last()).push(
            (c.0, if c.1 > 0 { EvKind::CapacityUp } else { EvKind::CapacityDown }),
        )
    }
}

/// `a - b`, floored at zero, for loops.
pub open spec fn loop_sub(a: u32, b: u32) -> u32 {
    if a > b {
        (a - b) as u32
    } else {
        0
    }
}

/// Each worker birth is a production from `birth - WORKER_BUILD_TIME`
/// (floored at 0) to `birth`.
pub open spec fn birth_events(births: Seq<u32>) -> Seq<(u32, EvKind)>
    decreases births.len(),
{
    if births.len() == 0 {
        Seq::empty()
    } else {
        let b = births.last();
        birth_events(births.drop_last()).push((loop_sub(b, WORKER_BUILD_TIME), EvKind::ProdStart)).push(
            (b, EvKind::ProdEnd),
        )
    }
}

/// Events of the worker model of a non-Zerg player.
pub open spec fn worker_events(p: PlayerTimeline) -> Seq<(u32, EvKind)> {
    capacity_events(p.worker_capacity@) + birth_events(p.worker_births@)
}

/// Appends the capacity events of `changes`.
fn push_capacity_events(evs: &mut Vec<(u32, EvKind)>, changes: &Vec<(u32, i32)>)
    ensures
        final(evs)@ == old(evs)@ + capacity_events(changes@),
{
    let ghost start = evs@;
    let mut i: usize = 0;
    while i < changes.len()
        invariant
            i <= changes@.len(),
            evs@ == start + capacity_events(changes@.subrange(0, i as int)),
        decreases changes@.len() - i,
    {
        let (gl, delta) = changes[i];
        assert(changes@.subrange(0, i + 1).drop_last() =~= changes@.subrange(0, i as int));
        assert(changes@.subrange(0, i + 1).last() == changes@[i as int]);
        evs.push((gl, if delta > 0 { EvKind::CapacityUp } else { EvKind::CapacityDown }));
        i = i + 1;
        assert(evs@ =~= start + capacity_events(changes@.subrange(0, i as int)));
    }
    assert(changes@.subrange(0, changes@.len() as int) =~= changes@);
}

/// Worker production efficiency of a non-Zerg player: capacity from the
/// worker-capacity changes, one production per worker birth (started
/// `WORKER_BUILD_TIME` loops earlier, floored at 0), swept over
/// `[0, game_end)` in buckets of `bucket_loops`.
pub fn compute_series_workers(player: &PlayerTimeline, game_end: u32, bucket_loops: u32) -> (r: Vec<
    EfficiencySample,
>)
    requires
        counts_fit(sort_by_key_spec(worker_events(*player), by_event_key()), game_end),
        buckets_fit(game_end, bucket_loops),
    ensures
        sweep_output(worker_events(*player), game_end, bucket_loops, r@),
{
    let mut evs: Vec<(u32, EvKind)> = Vec::new();
    push_capacity_events(&mut evs, &player.worker_capacity);
    let ghost after_cap = evs@;
    let births = &player.worker_births;
    let mut i: usize = 0;
    while i < births.len()
        invariant
            i <= births@.len(),
            evs@ == after_cap + birth_events(births@.subrange(0, i as int)),
        decreases births@.len() - i,
    {
        let birth = births[i];
        assert(births@.subrange(0, i + 1).drop_last() =~= births@.subrange(0, i as int));
        assert(births@.subrange(0, i + 1).last() == birth);
        let start = if birth > WORKER_BUILD_TIME {
            birth - WORKER_BUILD_TIME
        } else {
            0
        };
        evs.push((start, EvKind::ProdStart));
        evs.push((birth, EvKind::ProdEnd));
        i = i + 1;
        assert(evs@ =~= after_cap + birth_events(births@.subrange(0, i as int)));
    }
    assert(births@.subrange(0, births@.len() as int) =~= births@);
    assert(evs@ =~= worker_events(*player));
    sweep(evs, game_end, bucket_loops)
}

/// The value the (deterministic) build-time lookup `f` gives for `name`.
pub open spec fn build_time_of<F: Fn(&String, u32) -> u32>(f: F, name: String, base_build: u32) -> u32 {
    choose|r: u32| call_ensures(f, (&name, base_build), r)
}

/// The lookup can be called on anything and gives one answer per input.
pub open spec fn lookup_ok<F: Fn(&String, u32) -> u32>(f: F) -> bool {
    &&& forall|s: &String, b: u32| #[trigger] f.requires((s, b))
    &&& forall|s: &String, b: u32, r1: u32, r2: u32|
        #[trigger] call_ensures(f, (s, b), r1) && #[trigger] call_ensures(f, (s, b), r2) ==> r1 == r2
}

/// An open production: `(tag, start loop, entity type)`.
pub type OpenStart = (i64, u32, String);

/// A closed production: `(start loop as recorded, finish loop, entity type)`.
pub type Closed = (u32, u32, String);

/// Index of the first open production with `tag`, or -1.
pub open spec fn find_open(open: Seq<OpenStart>, tag: i64) -> int
    decreases open.len(),
{
    if open.len() == 0 {
        -1
    } else if find_open(open.drop_last(), tag) >= 0 {
        find_open(open.drop_last(), tag)
    } else if open.last().0 == tag {
        open.len() - 1
    } else {
        -1
    }
}

/// Pairs production starts with their finish or cancel by tag, over the
/// accepted events: the first start of a tag opens it, a finish or cancel
/// closes it. Returns the still-open starts (in opening order) and the
/// closed productions (in closing order).
pub open spec fn pair_productions(evs: Seq<EntityEvent>, accept: spec_fn(EntityEvent) -> bool) -> (
    Seq<OpenStart>,
    Seq<Closed>,
)
    decreases evs.len(),
{
    if evs.len() == 0 {
        (Seq::empty(), Seq::empty())
    } else {
        let prev = pair_productions(evs.drop_last(), accept);
        let e = evs.last();
        let j = find_open(prev.0, e.tag);
        if !accept(e) {
            prev
        } else if e.kind == EntityEventKind::ProductionStarted {
            if j >= 0 {
                prev
            } else {
                (prev.0.push((e.tag, e.game_loop, e.entity_type)), prev.1)
            }
        } else if e.kind == EntityEventKind::ProductionFinished || e.kind
            == EntityEventKind::ProductionCancelled {
            if j >= 0 {
                (prev.0.remove(j), prev.1.push((prev.0[j].1, e.game_loop, prev.0[j].2)))
            } else {
                prev
            }
        } else {
            prev
        }
    }
}

/// Loop of the first upgrade named `name`, if any.
pub open spec fn first_upgrade_loop(ups: Seq<UpgradeEntry>, name: Seq<char>) -> Option<u32>
    decreases ups.len(),
{
    if ups.len() == 0 {
        None
    } else {
        match first_upgrade_loop(ups.drop_last(), name) {
            Some(l) => Some(l),
            None => if ups.last().name@ == name {
                Some(ups.last().game_loop)
            } else {
                None
            },
        }
    }
}

/// Supply-maxed transitions derived from the stats snapshots.
pub open spec fn supply_events(stats: Seq<StatsSnapshot>) -> Seq<(u32, EvKind)>
    decreases stats.len(),
{
    if stats.len() == 0 {
        Seq::empty()
    } else {
        let prev = supply_events(stats.drop_last());
        let was = stats.len() > 1 && stats[stats.len() - 2].supply_used > ARMY_SUPPLY_MAXED_THRESHOLD;
        let now = stats.last().supply_used > ARMY_SUPPLY_MAXED_THRESHOLD;
        if now != was {
            prev.push((stats.last().game_loop, if now { EvKind::SupplyMaxedOn } else { EvKind::SupplyMaxedOff }))
        } else {
            prev
        }
    }
}

/// Start of a closed production: when started and finished at the same
/// loop (or later), back-dated from the finish by `bt`, floored at 0.
pub open spec fn backdated_start(c: Closed, bt: u32) -> u32 {
    if c.0 >= c.1 {
        loop_sub(c.1, bt)
    } else {
        c.0
    }
}

/// A closed army production counts as a warp-in: WarpGate research done,
/// started at or after it, and a warpable unit.
pub open spec fn is_warp_in(start: u32, name: Seq<char>, research: Option<u32>) -> bool {
    research matches Some(r) && start >= r && is_warp_gate_unit_spec(name)
}

/// Army events of the closed productions: warp-ins stay busy for the whole
/// WarpGate cycle (capped at `game_end`), others until their finish.
pub open spec fn army_closed_events<F: Fn(&String, u32) -> u32>(
    closed: Seq<Closed>,
    f: F,
    base_build: u32,
    research: Option<u32>,
    game_end: u32,
) -> Seq<(u32, EvKind)>
    decreases closed.len(),
{
    if closed.len() == 0 {
        Seq::empty()
    } else {
        let c = closed.last();
        let start = backdated_start(c, build_time_of(f, c.2, base_build));
        let end: u32 = if is_warp_in(start, c.2@, research) {
            if start + WARP_GATE_CYCLE_LOOPS < game_end {
                (start + WARP_GATE_CYCLE_LOOPS) as u32
            } else {
                game_end
            }
        } else {
            c.1
        };
        army_closed_events(closed.drop_last(), f, base_build, research, game_end).push(
            (start, EvKind::ProdStart),
        ).push((end, EvKind::ProdEnd))
    }
}

/// Orphan starts (never finished) stay busy until `game_end`.
pub open spec fn orphan_events(open: Seq<OpenStart>, game_end: u32) -> Seq<(u32, EvKind)>
    decreases open.len(),
{
    if open.len() == 0 {
        Seq::empty()
    } else {
        orphan_events(open.drop_last(), game_end).push((open.last().1, EvKind::ProdStart)).push(
            (game_end, EvKind::ProdEnd),
        )
    }
}

/// Accepted events of the army model: units.
pub open spec fn army_accept() -> spec_fn(EntityEvent) -> bool {
    |e: EntityEvent| e.category == EntityCategory::Unit
}

/// Events of the army model of a non-Zerg player.
pub open spec fn army_events<F: Fn(&String, u32) -> u32>(
    p: PlayerTimeline,
    f: F,
    base_build: u32,
    game_end: u32,
) -> Seq<(u32, EvKind)> {
    let pairs = pair_productions(p.entity_events@, army_accept());
    let research = first_upgrade_loop(p.upgrades@, "WarpGateResearch"@);
    capacity_events(p.army_capacity@) + army_closed_events(pairs.1, f, base_build, research, game_end)
        + orphan_events(pairs.0, game_end) + supply_events(p.stats@)
}


/// `find_open` is the first index holding `tag`, or -1 when none does.
proof fn lemma_find_open(open: Seq<OpenStart>, tag: i64)
    ensures
        -1 <= find_open(open, tag) < open.len(),
        find_open(open, tag) >= 0 ==> open[find_open(open, tag)].0 == tag,
        forall|k: int| 0 <= k < open.len() && (find_open(open, tag) == -1 || k < find_open(open, tag))
            ==> open[k].0 != tag,
    decreases open.len(),
{
    if open.len() > 0 {
        let pre = open.drop_last();
        lemma_find_open(pre, tag);
        assert forall|k: int|
            0 <= k < open.len() && (find_open(open, tag) == -1 || k < find_open(open, tag)) implies open[k].0
            != tag by {
            if k < open.len() - 1 {
                assert(pre[k] == open[k]);
            }
        }
    }
}

/// Index of the first open production with `tag`.
fn find_open_index(open: &Vec<OpenStart>, tag: i64) -> (r: Option<usize>)
    ensures
        match r {
            Some(j) => j < open@.len() && find_open(open@, tag) == j,
            None => find_open(open@, tag) == -1,
        },
{
    proof {
        lemma_find_open(open@, tag);
    }
    let mut k: usize = 0;
    while k < open.len()
        invariant
            k <= open@.len(),
            forall|m: int| 0 <= m < k ==> open@[m].0 != tag,
            -1 <= find_open(open@, tag) < open@.len(),
            find_open(open@, tag) >= 0 ==> open@[find_open(open@, tag)].0 == tag,
            forall|m: int|
                0 <= m < open@.len() && (find_open(open@, tag) == -1 || m < find_open(open@, tag))
                    ==> open@[m].0 != tag,
        decreases open@.len() - k,
    {
        if open[k].0 == tag {
            return Some(k);
        }
        k = k + 1;
    }
    None
}

/// Pairs production starts with their finish or cancel, by tag, over the
/// events that `accept` lets through.
fn pair_events<A: Fn(&EntityEvent) -> bool>(
    events: &Vec<EntityEvent>,
    accept: &A,
    Ghost(acc): Ghost<spec_fn(EntityEvent) -> bool>,
) -> (r: (Vec<OpenStart>, Vec<Closed>))
    requires
        forall|e: &EntityEvent| #[trigger] accept.requires((e,)),
        forall|e: &EntityEvent, b: bool| #[trigger] call_ensures(accept, (e,), b) ==> b == acc(*e),
    ensures
        r.0@ == pair_productions(events@, acc).0,
        r.1@ == pair_productions(events@, acc).1,
{
    let mut open: Vec<OpenStart> = Vec::new();
    let mut closed: Vec<Closed> = Vec::new();
    let mut i: usize = 0;
    while i < events.len()
        invariant
            i <= events@.len(),
            forall|e: &EntityEvent| #[trigger] accept.requires((e,)),
            forall|e: &EntityEvent, b: bool| #[trigger] call_ensures(accept, (e,), b) ==> b == acc(*e),
            open@ == pair_productions(events@.subrange(0, i as int), acc).0,
            closed@ == pair_productions(events@.subrange(0, i as int), acc).1,
        decreases events@.len() - i,
    {
        let e = &events[i];
        let ghost sub = events@.subrange(0, i + 1);
        assert(sub.drop_last() =~= events@.subrange(0, i as int));
        assert(sub.last() == events@[i as int]);
        let ok = accept(e);
        if ok {
            let j = find_open_index(&open, e.tag);
            match e.kind {
                EntityEventKind::ProductionStarted => {
                    if j.is_none() {
                        open.push((e.tag, e.game_loop, e.entity_type.clone()));
                    }
                },
                EntityEventKind::ProductionFinished | EntityEventKind::ProductionCancelled => {
                    if let Some(j) = j {
                        let o = open.remove(j);
                        closed.push((o.1, e.game_loop, o.2));
                    }
                },
                EntityEventKind::Died => {},
            }
        }
        i = i + 1;
    }
    assert(events@.subrange(0, events@.len() as int) =~= events@);
    (open, closed)
}

/// Loop of the first upgrade named `name`, if any.
pub fn first_upgrade(ups: &Vec<UpgradeEntry>, name: &str) -> (r: Option<u32>)
    ensures
        r == first_upgrade_loop(ups@, name@),
{
    let mut found: Option<u32> = None;
    let mut i: usize = 0;
    while i < ups.len()
        invariant
            i <= ups@.len(),
            found == first_upgrade_loop(ups@.subrange(0, i as int), name@),
        decreases ups@.len() - i,
    {
        assert(ups@.subrange(0, i + 1).drop_last() =~= ups@.subrange(0, i as int));
        if found.is_none() && str_eq(ups[i].name.as_str(), name) {
            found = Some(ups[i].game_loop);
        }
        i = i + 1;
    }
    assert(ups@.subrange(0, ups@.len() as int) =~= ups@);
    found
}

/// Appends the supply-maxed transitions of the snapshots.
fn push_supply_events(evs: &mut Vec<(u32, EvKind)>, stats: &Vec<StatsSnapshot>)
    ensures
        final(evs)@ == old(evs)@ + supply_events(stats@),
{
    let ghost start = evs@;
    let mut was_high = false;
    let mut i: usize = 0;
    while i < stats.len()
        invariant
            i <= stats@.len(),
            evs@ == start + supply_events(stats@.subrange(0, i as int)),
            was_high == (i > 0 && stats@[i - 1].supply_used > ARMY_SUPPLY_MAXED_THRESHOLD),
        decreases stats@.len() - i,
    {
        let ghost sub = stats@.subrange(0, i + 1);
        assert(sub.drop_last() =~= stats@.subrange(0, i as int));
        let s = stats[i];
        let now_high = s.supply_used > ARMY_SUPPLY_MAXED_THRESHOLD;
        if now_high != was_high {
            evs.push((s.game_loop, if now_high { EvKind::SupplyMaxedOn } else { EvKind::SupplyMaxedOff }));
            was_high = now_high;
        }
        i = i + 1;
        assert(evs@ =~= start + supply_events(stats@.subrange(0, i as int)));
    }
    assert(stats@.subrange(0, stats@.len() as int) =~= stats@);
}

/// Appends the events of the productions that never finished.
fn push_orphan_events(evs: &mut Vec<(u32, EvKind)>, open: &Vec<OpenStart>, game_end: u32)
    ensures
        final(evs)@ == old(evs)@ + orphan_events(open@, game_end),
{
    let ghost start = evs@;
    let mut i: usize = 0;
    while i < open.len()
        invariant
            i <= open@.len(),
            evs@ == start + orphan_events(open@.subrange(0, i as int), game_end),
        decreases open@.len() - i,
    {
        assert(open@.subrange(0, i + 1).drop_last() =~= open@.subrange(0, i as int));
        evs.push((open[i].1, EvKind::ProdStart));
        evs.push((game_end, EvKind::ProdEnd));
        i = i + 1;
        assert(evs@ =~= start + orphan_events(open@.subrange(0, i as int), game_end));
    }
    assert(open@.subrange(0, open@.len() as int) =~= open@);
}

/// Army production efficiency of a non-Zerg player: capacity from the
/// army-capacity changes; each unit production paired by tag is busy from
/// its start (back-dated by its build time from `build_time` when it was
/// recorded at its finish) to its finish, or for a whole WarpGate cycle
/// when it is a warp-in; unfinished ones stay busy until `game_end`; the
/// supply-maxed transitions force full efficiency.
pub fn compute_series_army<F: Fn(&String, u32) -> u32>(
    player: &PlayerTimeline,
    game_end: u32,
    base_build: u32,
    bucket_loops: u32,
    build_time: &F,
) -> (r: Vec<EfficiencySample>)
    requires
        lookup_ok(*build_time),
        counts_fit(sort_by_key_spec(army_events(*player, *build_time, base_build, game_end), by_event_key()), game_end),
        buckets_fit(game_end, bucket_loops),
    ensures
        sweep_output(army_events(*player, *build_time, base_build, game_end), game_end, bucket_loops, r@),
{
    let mut evs: Vec<(u32, EvKind)> = Vec::new();
    push_capacity_events(&mut evs, &player.army_capacity);
    let research = first_upgrade(&player.upgrades, "WarpGateResearch");
    let is_unit = |e: &EntityEvent| -> (b: bool)
        ensures
            b == (e.category == EntityCategory::Unit),
        { e.category == EntityCategory::Unit };
    let (open, closed) = pair_events(&player.entity_events, &is_unit, Ghost(army_accept()));
    let ghost base = evs@;
    let mut i: usize = 0;
    while i < closed.len()
        invariant
            i <= closed@.len(),
            lookup_ok(*build_time),
            research == first_upgrade_loop(player.upgrades@, "WarpGateResearch"@),
            evs@ == base + army_closed_events(closed@.subrange(0, i as int), *build_time, base_build, research, game_end),
        decreases closed@.len() - i,
    {
        assert(closed@.subrange(0, i + 1).drop_last() =~= closed@.subrange(0, i as int));
        let c = &closed[i];
        let start = if c.0 >= c.1 {
            let bt = build_time(&c.2, base_build);
            if c.1 > bt {
                c.1 - bt
            } else {
                0
            }
        } else {
            c.0
        };
        let warp = match research {
            Some(r) => start >= r && is_warp_gate_unit(c.2.as_str()),
            None => false,
        };
        let end = if warp {
            let e: u64 = start as u64 + WARP_GATE_CYCLE_LOOPS as u64;
            if e < game_end as u64 {
                e as u32
            } else {
                game_end
            }
        } else {
            c.1
        };
        evs.push((start, EvKind::ProdStart));
        evs.push((end, EvKind::ProdEnd));
        i = i + 1;
        assert(evs@ =~= base + army_closed_events(closed@.subrange(0, i as int), *build_time, base_build, research, game_end));
    }
    assert(closed@.subrange(0, closed@.len() as int) =~= closed@);
    push_orphan_events(&mut evs, &open, game_end);
    push_supply_events(&mut evs, &player.stats);
    assert(evs@ =~= army_events(*player, *build_time, base_build, game_end));
    sweep(evs, game_end, bucket_loops)
}


/// Zerg townhalls: each living one is one slot of larva bandwidth.
pub open spec fn is_zerg_hatch_spec(name: Seq<char>) -> bool {
    name == "Hatchery"@ || name == "Lair"@ || name == "Hive"@
}

/// Zerg townhalls: Hatchery, Lair and Hive.
pub fn is_zerg_hatch(name: &str) -> (r: bool)
    ensures
        r == is_zerg_hatch_spec(name@),
{
    str_eq(name, "Hatchery") || str_eq(name, "Lair") || str_eq(name, "Hive")
}

/// Capacity events of the townhalls: +1 when one finishes, -1 when one
/// dies (a morph to Lair or Hive is a death and a finish at one loop).
pub open spec fn hatch_events(evs: Seq<EntityEvent>) -> Seq<(u32, EvKind)>
    decreases evs.len(),
{
    if evs.len() == 0 {
        Seq::empty()
    } else {
        let prev = hatch_events(evs.drop_last());
        let e = evs.last();
        if e.category == EntityCategory::Structure && is_zerg_hatch_spec(e.entity_type@) {
            if e.kind == EntityEventKind::ProductionFinished {
                prev.push((e.game_loop, EvKind::CapacityUp))
            } else if e.kind == EntityEventKind::Died {
                prev.push((e.game_loop, EvKind::CapacityDown))
            } else {
                prev
            }
        } else {
            prev
        }
    }
}

/// End of an inject window started at `gl`: `INJECT_WINDOW_LOOPS` later,
/// capped at `game_end`.
pub open spec fn inject_end(gl: u32, game_end: u32) -> u32 {
    if gl + INJECT_WINDOW_LOOPS < game_end {
        (gl + INJECT_WINDOW_LOOPS) as u32
    } else {
        game_end
    }
}

/// Inject windows: extra larva capacity from each inject command.
pub open spec fn inject_events(cmds: Seq<InjectCmd>, game_end: u32) -> Seq<(u32, EvKind)>
    decreases cmds.len(),
{
    if cmds.len() == 0 {
        Seq::empty()
    } else {
        let gl = cmds.last().game_loop;
        inject_events(cmds.drop_last(), game_end).push((gl, EvKind::InjectOn)).push(
            (inject_end(gl, game_end), EvKind::InjectOff),
        )
    }
}

/// What the (deterministic) target predicate `t` says of `name`.
pub open spec fn target_of<T: Fn(&String) -> bool>(t: &T, name: String) -> bool {
    choose|b: bool| call_ensures(t, (&name,), b)
}

/// The predicate can be called on anything and gives one answer per input.
pub open spec fn predicate_ok<T: Fn(&String) -> bool>(t: &T) -> bool {
    &&& forall|s: &String| #[trigger] t.requires((s,))
    &&& forall|s: &String, b1: bool, b2: bool|
        #[trigger] call_ensures(t, (s,), b1) && #[trigger] call_ensures(t, (s,), b2) ==> b1 == b2
}

/// The morphs a Zerg series counts: Drones for the worker series, the
/// larva-born army types (as `t` says) for the army series.
pub open spec fn zerg_target<T: Fn(&String) -> bool>(target: EfficiencyTarget, t: &T, name: String) -> bool {
    match target {
        EfficiencyTarget::Workers => name@ == "Drone"@,
        EfficiencyTarget::Army => target_of(t, name),
    }
}

/// Accepted events of the Zerg model: larva morphs (units or workers) of
/// the target.
pub open spec fn zerg_accept<T: Fn(&String) -> bool>(target: EfficiencyTarget, t: &T) -> spec_fn(
    EntityEvent,
) -> bool {
    |e: EntityEvent|
        (e.category == EntityCategory::Unit || e.category == EntityCategory::Worker) && zerg_target(
            target,
            t,
            e.entity_type,
        )
}

/// Morph time used to back-date a Zerg production: the Drone's own, else
/// the lookup.
pub open spec fn zerg_build_time<F: Fn(&String, u32) -> u32>(f: F, name: String, base_build: u32) -> u32 {
    if name@ == "Drone"@ {
        DRONE_BUILD_LOOPS
    } else {
        build_time_of(f, name, base_build)
    }
}

/// Events of the closed Zerg morphs: busy from the (back-dated) start to
/// the finish.
pub open spec fn zerg_closed_events<F: Fn(&String, u32) -> u32>(
    closed: Seq<Closed>,
    f: F,
    base_build: u32,
) -> Seq<(u32, EvKind)>
    decreases closed.len(),
{
    if closed.len() == 0 {
        Seq::empty()
    } else {
        let c = closed.last();
        zerg_closed_events(closed.drop_last(), f, base_build).push(
            (backdated_start(c, zerg_build_time(f, c.2, base_build)), EvKind::ProdStart),
        ).push((c.1, EvKind::ProdEnd))
    }
}

/// Events of the Zerg larva-bandwidth model.
pub open spec fn zerg_events<F: Fn(&String, u32) -> u32, T: Fn(&String) -> bool>(
    p: PlayerTimeline,
    f: F,
    target: EfficiencyTarget,
    t: &T,
    base_build: u32,
    game_end: u32,
    supply_override: bool,
) -> Seq<(u32, EvKind)> {
    let pairs = pair_productions(p.entity_events@, zerg_accept(target, t));
    hatch_events(p.entity_events@) + inject_events(p.inject_cmds@, game_end) + zerg_closed_events(
        pairs.1,
        f,
        base_build,
    ) + orphan_events(pairs.0, game_end) + if supply_override {
        supply_events(p.stats@)
    } else {
        Seq::empty()
    }
}

/// Zerg production efficiency (larva bandwidth): each living townhall is
/// one slot, each inject adds `INJECT_EXTRA_SLOTS` for
/// `INJECT_WINDOW_LOOPS`; busy are the morphs of the target (Drones, or
/// the larva-born army types that `larva_army` accepts), paired by tag,
/// back-dated by their morph time when recorded at their finish,
/// unfinished ones until `game_end`. With `supply_override` the
/// supply-maxed transitions force full efficiency.
pub fn compute_series_zerg<F: Fn(&String, u32) -> u32, T: Fn(&String) -> bool>(
    player: &PlayerTimeline,
    game_end: u32,
    bucket_loops: u32,
    base_build: u32,
    build_time: &F,
    target: EfficiencyTarget,
    larva_army: &T,
    supply_override: bool,
) -> (r: Vec<EfficiencySample>)
    requires
        lookup_ok(*build_time),
        predicate_ok(larva_army),
        counts_fit(
            sort_by_key_spec(
                zerg_events(*player, *build_time, target, larva_army, base_build, game_end, supply_override),
                by_event_key(),
            ),
            game_end,
        ),
        buckets_fit(game_end, bucket_loops),
    ensures
        sweep_output(
            zerg_events(*player, *build_time, target, larva_army, base_build, game_end, supply_override),
            game_end,
            bucket_loops,
            r@,
        ),
{
    let mut evs: Vec<(u32, EvKind)> = Vec::new();
    let events = &player.entity_events;
    let mut i: usize = 0;
    while i < events.len()
        invariant
            i <= events@.len(),
            evs@ == hatch_events(events@.subrange(0, i as int)),
        decreases events@.len() - i,
    {
        assert(events@.subrange(0, i + 1).drop_last() =~= events@.subrange(0, i as int));
        let e = &events[i];
        if e.category == EntityCategory::Structure && is_zerg_hatch(e.entity_type.as_str()) {
            match e.kind {
                EntityEventKind::ProductionFinished => evs.push((e.game_loop, EvKind::CapacityUp)),
                EntityEventKind::Died => evs.push((e.game_loop, EvKind::CapacityDown)),
                _ => {},
            }
        }
        i = i + 1;
    }
    assert(events@.subrange(0, events@.len() as int) =~= events@);
    let ghost after_hatch = evs@;
    let cmds = &player.inject_cmds;
    let mut i: usize = 0;
    while i < cmds.len()
        invariant
            i <= cmds@.len(),
            evs@ == after_hatch + inject_events(cmds@.subrange(0, i as int), game_end),
        decreases cmds@.len() - i,
    {
        assert(cmds@.subrange(0, i + 1).drop_last() =~= cmds@.subrange(0, i as int));
        let gl = cmds[i].game_loop;
        let sum: u64 = gl as u64 + INJECT_WINDOW_LOOPS as u64;
        let end = if sum < game_end as u64 {
            sum as u32
        } else {
            game_end
        };
        evs.push((gl, EvKind::InjectOn));
        evs.push((end, EvKind::InjectOff));
        i = i + 1;
        assert(evs@ =~= after_hatch + inject_events(cmds@.subrange(0, i as int), game_end));
    }
    assert(cmds@.subrange(0, cmds@.len() as int) =~= cmds@);
    let is_morph = |e: &EntityEvent| -> (b: bool)
        requires
            predicate_ok(larva_army),
        ensures
            b == zerg_accept(target, larva_army)(*e),
        {
            if e.category == EntityCategory::Unit || e.category == EntityCategory::Worker {
                match target {
                    EfficiencyTarget::Workers => is_drone(e.entity_type.as_str()),
                    EfficiencyTarget::Army => larva_army(&e.entity_type),
                }
            } else {
                false
            }
        };
    let (open, closed) = pair_events(&player.entity_events, &is_morph, Ghost(zerg_accept(target, larva_army)));
    let ghost base = evs@;
    let mut i: usize = 0;
    while i < closed.len()
        invariant
            i <= closed@.len(),
            lookup_ok(*build_time),
            evs@ == base + zerg_closed_events(closed@.subrange(0, i as int), *build_time, base_build),
        decreases closed@.len() - i,
    {
        assert(closed@.subrange(0, i + 1).drop_last() =~= closed@.subrange(0, i as int));
        let c = &closed[i];
        let start = if c.0 >= c.1 {
            let bt = if is_drone(c.2.as_str()) {
                DRONE_BUILD_LOOPS
            } else {
                build_time(&c.2, base_build)
            };
            if c.1 > bt {
                c.1 - bt
            } else {
                0
            }
        } else {
            c.0
        };
        evs.push((start, EvKind::ProdStart));
        evs.push((c.1, EvKind::ProdEnd));
        i = i + 1;
        assert(evs@ =~= base + zerg_closed_events(closed@.subrange(0, i as int), *build_time, base_build));
    }
    assert(closed@.subrange(0, closed@.len() as int) =~= closed@);
    push_orphan_events(&mut evs, &open, game_end);
    let ghost before_supply = evs@;
    if supply_override {
        push_supply_events(&mut evs, &player.stats);
    } else {
        assert(evs@ =~= before_supply + Seq::<(u32, EvKind)>::empty());
    }
    assert(evs@ =~= zerg_events(*player, *build_time, target, larva_army, base_build, game_end, supply_override));
    sweep(evs, game_end, bucket_loops)
}


/// Number of events of kind `k`.
pub open spec fn count_kind(evs: Seq<(u32, EvKind)>, k: EvKind) -> nat
    decreases evs.len(),
{
    if evs.len() == 0 {
        0
    } else {
        count_kind(evs.drop_last(), k) + if evs.last().1 == k {
            1nat
        } else {
            0nat
        }
    }
}

proof fn lemma_count_concat(a: Seq<(u32, EvKind)>, b: Seq<(u32, EvKind)>, k: EvKind)
    ensures
        count_kind(a + b, k) == count_kind(a, k) + count_kind(b, k),
    decreases b.len(),
{
    if b.len() == 0 {
        assert(a + b =~= a);
    } else {
        lemma_count_concat(a, b.drop_last(), k);
        assert((a + b).drop_last() =~= a + b.drop_last());
    }
}

proof fn lemma_count_push2(a: Seq<(u32, EvKind)>, x: (u32, EvKind), y: (u32, EvKind), k: EvKind)
    ensures
        count_kind(a.push(x).push(y), k) == count_kind(a, k) + (if x.1 == k {
            1int
        } else {
            0int
        }) + (if y.1 == k {
            1int
        } else {
            0int
        }),
{
    let ax = a.push(x);
    assert(ax.drop_last() =~= a);
    assert(ax.last() == x);
    assert(count_kind(ax, k) == count_kind(a, k) + if x.1 == k {
        1nat
    } else {
        0nat
    });
    let axy = ax.push(y);
    assert(axy.drop_last() =~= ax);
    assert(axy.last() == y);
    assert(count_kind(axy, k) == count_kind(ax, k) + if y.1 == k {
        1nat
    } else {
        0nat
    });
}

/// Capacity and supply events hold no production events.
proof fn lemma_no_production(evs: Seq<(u32, EvKind)>)
    requires
        forall|i: int| 0 <= i < evs.len() ==> (#[trigger] evs[i]).1 != EvKind::ProdStart && evs[i].1
            != EvKind::ProdEnd,
    ensures
        count_kind(evs, EvKind::ProdStart) == 0,
        count_kind(evs, EvKind::ProdEnd) == 0,
    decreases evs.len(),
{
    if evs.len() > 0 {
        let d = evs.drop_last();
        assert forall|i: int| 0 <= i < d.len() implies (#[trigger] d[i]).1 != EvKind::ProdStart && d[i].1
            != EvKind::ProdEnd by {
            assert(d[i] == evs[i]);
        }
        lemma_no_production(d);
        assert(evs.last() == evs[evs.len() - 1]);
    }
}

proof fn lemma_capacity_events_kinds(changes: Seq<(u32, i32)>)
    ensures
        forall|i: int| 0 <= i < capacity_events(changes).len() ==> {
            let k = (#[trigger] capacity_events(changes)[i]).1;
            k == EvKind::CapacityUp || k == EvKind::CapacityDown
        },
        capacity_events(changes).len() == changes.len(),
    decreases changes.len(),
{
    if changes.len() > 0 {
        lemma_capacity_events_kinds(changes.drop_last());
    }
}

proof fn lemma_supply_events_kinds(stats: Seq<StatsSnapshot>)
    ensures
        forall|i: int| 0 <= i < supply_events(stats).len() ==> {
            let k = (#[trigger] supply_events(stats)[i]).1;
            k == EvKind::SupplyMaxedOn || k == EvKind::SupplyMaxedOff
        },
    decreases stats.len(),
{
    if stats.len() > 0 {
        lemma_supply_events_kinds(stats.drop_last());
    }
}

proof fn lemma_hatch_events_kinds(evs: Seq<EntityEvent>)
    ensures
        forall|i: int| 0 <= i < hatch_events(evs).len() ==> {
            let k = (#[trigger] hatch_events(evs)[i]).1;
            k == EvKind::CapacityUp || k == EvKind::CapacityDown
        },
    decreases evs.len(),
{
    if evs.len() > 0 {
        lemma_hatch_events_kinds(evs.drop_last());
    }
}

proof fn lemma_inject_events_kinds(cmds: Seq<InjectCmd>, game_end: u32)
    ensures
        forall|i: int| 0 <= i < inject_events(cmds, game_end).len() ==> {
            let k = (#[trigger] inject_events(cmds, game_end)[i]).1;
            k == EvKind::InjectOn || k == EvKind::InjectOff
        },
    decreases cmds.len(),
{
    if cmds.len() > 0 {
        lemma_inject_events_kinds(cmds.drop_last(), game_end);
    }
}

proof fn lemma_birth_counts(births: Seq<u32>)
    ensures
        count_kind(birth_events(births), EvKind::ProdStart) == births.len(),
        count_kind(birth_events(births), EvKind::ProdEnd) == births.len(),
    decreases births.len(),
{
    if births.len() > 0 {
        let b = births.last();
        lemma_birth_counts(births.drop_last());
        lemma_count_push2(birth_events(births.drop_last()), (loop_sub(b, WORKER_BUILD_TIME), EvKind::ProdStart), (b, EvKind::ProdEnd), EvKind::ProdStart);
        lemma_count_push2(birth_events(births.drop_last()), (loop_sub(b, WORKER_BUILD_TIME), EvKind::ProdStart), (b, EvKind::ProdEnd), EvKind::ProdEnd);
    }
}

proof fn lemma_orphan_counts(open: Seq<OpenStart>, game_end: u32)
    ensures
        count_kind(orphan_events(open, game_end), EvKind::ProdStart) == open.len(),
        count_kind(orphan_events(open, game_end), EvKind::ProdEnd) == open.len(),
    decreases open.len(),
{
    if open.len() > 0 {
        lemma_orphan_counts(open.drop_last(), game_end);
        let prev = orphan_events(open.drop_last(), game_end);
        lemma_count_push2(prev, (open.last().1, EvKind::ProdStart), (game_end, EvKind::ProdEnd), EvKind::ProdStart);
        lemma_count_push2(prev, (open.last().1, EvKind::ProdStart), (game_end, EvKind::ProdEnd), EvKind::ProdEnd);
    }
}

proof fn lemma_army_closed_counts<F: Fn(&String, u32) -> u32>(
    closed: Seq<Closed>,
    f: F,
    base_build: u32,
    research: Option<u32>,
    game_end: u32,
)
    ensures
        count_kind(army_closed_events(closed, f, base_build, research, game_end), EvKind::ProdStart)
            == closed.len(),
        count_kind(army_closed_events(closed, f, base_build, research, game_end), EvKind::ProdEnd)
            == closed.len(),
    decreases closed.len(),
{
    if closed.len() > 0 {
        lemma_army_closed_counts(closed.drop_last(), f, base_build, research, game_end);
        let prev = army_closed_events(closed.drop_last(), f, base_build, research, game_end);
        let c = closed.last();
        let start = backdated_start(c, build_time_of(f, c.2, base_build));
        let end: u32 = if is_warp_in(start, c.2@, research) {
            if start + WARP_GATE_CYCLE_LOOPS < game_end {
                (start + WARP_GATE_CYCLE_LOOPS) as u32
            } else {
                game_end
            }
        } else {
            c.1
        };
        lemma_count_push2(prev, (start, EvKind::ProdStart), (end, EvKind::ProdEnd), EvKind::ProdStart);
        lemma_count_push2(prev, (start, EvKind::ProdStart), (end, EvKind::ProdEnd), EvKind::ProdEnd);
    }
}

proof fn lemma_zerg_closed_counts<F: Fn(&String, u32) -> u32>(closed: Seq<Closed>, f: F, base_build: u32)
    ensures
        count_kind(zerg_closed_events(closed, f, base_build), EvKind::ProdStart) == closed.len(),
        count_kind(zerg_closed_events(closed, f, base_build), EvKind::ProdEnd) == closed.len(),
    decreases closed.len(),
{
    if closed.len() > 0 {
        lemma_zerg_closed_counts(closed.drop_last(), f, base_build);
        let prev = zerg_closed_events(closed.drop_last(), f, base_build);
        let c = closed.last();
        let start = backdated_start(c, zerg_build_time(f, c.2, base_build));
        lemma_count_push2(prev, (start, EvKind::ProdStart), (c.1, EvKind::ProdEnd), EvKind::ProdStart);
        lemma_count_push2(prev, (start, EvKind::ProdStart), (c.1, EvKind::ProdEnd), EvKind::ProdEnd);
    }
}

/// Law of the production models: every production that starts ends — at
/// its finish, its cancel, after its WarpGate cycle, or at `game_end` when
/// the replay never closed it — so each model holds as many production
/// ends as starts.
pub proof fn lemma_productions_balanced<F: Fn(&String, u32) -> u32, T: Fn(&String) -> bool>(
    p: PlayerTimeline,
    f: F,
    target: EfficiencyTarget,
    t: &T,
    base_build: u32,
    game_end: u32,
    supply_override: bool,
)
    ensures
        count_kind(worker_events(p), EvKind::ProdStart) == count_kind(worker_events(p), EvKind::ProdEnd),
        count_kind(army_events(p, f, base_build, game_end), EvKind::ProdStart) == count_kind(
            army_events(p, f, base_build, game_end),
            EvKind::ProdEnd,
        ),
        count_kind(zerg_events(p, f, target, t, base_build, game_end, supply_override), EvKind::ProdStart)
            == count_kind(zerg_events(p, f, target, t, base_build, game_end, supply_override), EvKind::ProdEnd),
{
    let cap_w = capacity_events(p.worker_capacity@);
    let cap_a = capacity_events(p.army_capacity@);
    lemma_capacity_events_kinds(p.worker_capacity@);
    lemma_capacity_events_kinds(p.army_capacity@);
    lemma_no_production(cap_w);
    lemma_no_production(cap_a);
    let sup = supply_events(p.stats@);
    lemma_supply_events_kinds(p.stats@);
    lemma_no_production(sup);
    lemma_no_production(Seq::<(u32, EvKind)>::empty());
    let hat = hatch_events(p.entity_events@);
    lemma_hatch_events_kinds(p.entity_events@);
    lemma_no_production(hat);
    let inj = inject_events(p.inject_cmds@, game_end);
    lemma_inject_events_kinds(p.inject_cmds@, game_end);
    lemma_no_production(inj);
    lemma_birth_counts(p.worker_births@);
    let bir = birth_events(p.worker_births@);
    lemma_count_concat(cap_w, bir, EvKind::ProdStart);
    lemma_count_concat(cap_w, bir, EvKind::ProdEnd);
    let pairs = pair_productions(p.entity_events@, army_accept());
    let research = first_upgrade_loop(p.upgrades@, "WarpGateResearch"@);
    let ac = army_closed_events(pairs.1, f, base_build, research, game_end);
    let ao = orphan_events(pairs.0, game_end);
    lemma_army_closed_counts(pairs.1, f, base_build, research, game_end);
    lemma_orphan_counts(pairs.0, game_end);
    lemma_count_concat(cap_a, ac, EvKind::ProdStart);
    lemma_count_concat(cap_a, ac, EvKind::ProdEnd);
    lemma_count_concat(cap_a + ac, ao, EvKind::ProdStart);
    lemma_count_concat(cap_a + ac, ao, EvKind::ProdEnd);
    lemma_count_concat(cap_a + ac + ao, sup, EvKind::ProdStart);
    lemma_count_concat(cap_a + ac + ao, sup, EvKind::ProdEnd);
    let zp = pair_productions(p.entity_events@, zerg_accept(target, t));
    let zc = zerg_closed_events(zp.1, f, base_build);
    let zo = orphan_events(zp.0, game_end);
    lemma_zerg_closed_counts(zp.1, f, base_build);
    lemma_orphan_counts(zp.0, game_end);
    let tail: Seq<(u32, EvKind)> = if supply_override {
        sup
    } else {
        Seq::empty()
    };
    lemma_count_concat(hat, inj, EvKind::ProdStart);
    lemma_count_concat(hat, inj, EvKind::ProdEnd);
    lemma_count_concat(hat + inj, zc, EvKind::ProdStart);
    lemma_count_concat(hat + inj, zc, EvKind::ProdEnd);
    lemma_count_concat(hat + inj + zc, zo, EvKind::ProdStart);
    lemma_count_concat(hat + inj + zc, zo, EvKind::ProdEnd);
    lemma_count_concat(hat + inj + zc + zo, tail, EvKind::ProdStart);
    lemma_count_concat(hat + inj + zc + zo, tail, EvKind::ProdEnd);
}


/// Number of occurrences of the event `x` (loop and kind) in `evs`.
pub open spec fn count_event(evs: Seq<(u32, EvKind)>, x: (u32, EvKind)) -> nat
    decreases evs.len(),
{
    if evs.len() == 0 {
        0
    } else {
        count_event(evs.drop_last(), x) + if evs.last() == x {
            1nat
        } else {
            0nat
        }
    }
}

/// Number of the player's structure events of `kind` at loop `l` on a
/// Zerg townhall: a Hatchery, a Lair or a Hive.
pub open spec fn townhall_events_at(evs: Seq<EntityEvent>, l: u32, kind: EntityEventKind) -> nat
    decreases evs.len(),
{
    if evs.len() == 0 {
        0
    } else {
        let e = evs.last();
        townhall_events_at(evs.drop_last(), l, kind) + if e.category == EntityCategory::Structure
            && e.kind == kind && e.game_loop == l && (e.entity_type@ == "Hatchery"@ || e.entity_type@
            == "Lair"@ || e.entity_type@ == "Hive"@) {
            1nat
        } else {
            0nat
        }
    }
}

proof fn lemma_count_event_concat(a: Seq<(u32, EvKind)>, b: Seq<(u32, EvKind)>, x: (u32, EvKind))
    ensures
        count_event(a + b, x) == count_event(a, x) + count_event(b, x),
    decreases b.len(),
{
    if b.len() == 0 {
        assert(a + b =~= a);
    } else {
        lemma_count_event_concat(a, b.drop_last(), x);
        assert((a + b).drop_last() =~= a + b.drop_last());
    }
}

/// An event of a kind that `evs` never holds does not occur in it.
proof fn lemma_count_event_absent(evs: Seq<(u32, EvKind)>, x: (u32, EvKind))
    requires
        forall|i: int| 0 <= i < evs.len() ==> (#[trigger] evs[i]).1 != x.1,
    ensures
        count_event(evs, x) == 0,
    decreases evs.len(),
{
    if evs.len() > 0 {
        let d = evs.drop_last();
        assert forall|i: int| 0 <= i < d.len() implies (#[trigger] d[i]).1 != x.1 by {
            assert(d[i] == evs[i]);
        }
        lemma_count_event_absent(d, x);
        assert(evs.last() == evs[evs.len() - 1]);
    }
}

proof fn lemma_zerg_closed_kinds<F: Fn(&String, u32) -> u32>(closed: Seq<Closed>, f: F, base_build: u32)
    ensures
        forall|i: int| 0 <= i < zerg_closed_events(closed, f, base_build).len() ==> {
            let k = (#[trigger] zerg_closed_events(closed, f, base_build)[i]).1;
            k == EvKind::ProdStart || k == EvKind::ProdEnd
        },
    decreases closed.len(),
{
    if closed.len() > 0 {
        lemma_zerg_closed_kinds(closed.drop_last(), f, base_build);
    }
}

proof fn lemma_orphan_kinds(open: Seq<OpenStart>, game_end: u32)
    ensures
        forall|i: int| 0 <= i < orphan_events(open, game_end).len() ==> {
            let k = (#[trigger] orphan_events(open, game_end)[i]).1;
            k == EvKind::ProdStart || k == EvKind::ProdEnd
        },
    decreases open.len(),
{
    if open.len() > 0 {
        lemma_orphan_kinds(open.drop_last(), game_end);
    }
}

/// The townhall capacity events at a loop are the townhall finishes and
/// deaths at that loop.
proof fn lemma_hatch_event_counts(evs: Seq<EntityEvent>, l: u32)
    ensures
        count_event(hatch_events(evs), (l, EvKind::CapacityUp)) == townhall_events_at(
            evs,
            l,
            EntityEventKind::ProductionFinished,
        ),
        count_event(hatch_events(evs), (l, EvKind::CapacityDown)) == townhall_events_at(
            evs,
            l,
            EntityEventKind::Died,
        ),
    decreases evs.len(),
{
    if evs.len() > 0 {
        lemma_hatch_event_counts(evs.drop_last(), l);
        let prev = hatch_events(evs.drop_last());
        let e = evs.last();
        if e.category == EntityCategory::Structure && is_zerg_hatch_spec(e.entity_type@) && (e.kind
            == EntityEventKind::ProductionFinished || e.kind == EntityEventKind::Died) {
            let x = if e.kind == EntityEventKind::ProductionFinished {
                (e.game_loop, EvKind::CapacityUp)
            } else {
                (e.game_loop, EvKind::CapacityDown)
            };
            assert(hatch_events(evs) == prev.push(x));
            assert(prev.push(x).drop_last() =~= prev);
        }
    }
}

/// Larva bandwidth follows the townhalls: in the Zerg model, the capacity
/// rises by one at a loop for each Hatchery, Lair or Hive that finishes
/// there and falls by one for each that dies there, and nothing else
/// moves it by a slot (injects add their own four-slot windows). So a
/// morph — the old townhall's death and the new one's finish at one loop,
/// Hatchery to Lair or Lair to Hive — leaves the capacity as it was.
pub proof fn lemma_zerg_capacity_follows_townhalls<F: Fn(&String, u32) -> u32, T: Fn(&String) -> bool>(
    p: PlayerTimeline,
    f: F,
    target: EfficiencyTarget,
    t: &T,
    base_build: u32,
    game_end: u32,
    supply_override: bool,
    l: u32,
)
    ensures
        count_event(
            zerg_events(p, f, target, t, base_build, game_end, supply_override),
            (l, EvKind::CapacityUp),
        ) == townhall_events_at(p.entity_events@, l, EntityEventKind::ProductionFinished),
        count_event(
            zerg_events(p, f, target, t, base_build, game_end, supply_override),
            (l, EvKind::CapacityDown),
        ) == townhall_events_at(p.entity_events@, l, EntityEventKind::Died),
{
    let hat = hatch_events(p.entity_events@);
    let inj = inject_events(p.inject_cmds@, game_end);
    let pairs = pair_productions(p.entity_events@, zerg_accept(target, t));
    let zc = zerg_closed_events(pairs.1, f, base_build);
    let zo = orphan_events(pairs.0, game_end);
    let sup: Seq<(u32, EvKind)> = if supply_override {
        supply_events(p.stats@)
    } else {
        Seq::empty()
    };
    lemma_hatch_event_counts(p.entity_events@, l);
    lemma_inject_events_kinds(p.inject_cmds@, game_end);
    lemma_zerg_closed_kinds(pairs.1, f, base_build);
    lemma_orphan_kinds(pairs.0, game_end);
    lemma_supply_events_kinds(p.stats@);
    assert(zerg_events(p, f, target, t, base_build, game_end, supply_override) == hat + inj + zc + zo
        + sup);
    let up = (l, EvKind::CapacityUp);
    let down = (l, EvKind::CapacityDown);
    lemma_count_event_absent(inj, up);
    lemma_count_event_absent(inj, down);
    lemma_count_event_absent(zc, up);
    lemma_count_event_absent(zc, down);
    lemma_count_event_absent(zo, up);
    lemma_count_event_absent(zo, down);
    lemma_count_event_absent(sup, up);
    lemma_count_event_absent(sup, down);
    lemma_count_event_concat(hat, inj, up);
    lemma_count_event_concat(hat + inj, zc, up);
    lemma_count_event_concat(hat + inj + zc, zo, up);
    lemma_count_event_concat(hat + inj + zc + zo, sup, up);
    lemma_count_event_concat(hat, inj, down);
    lemma_count_event_concat(hat + inj, zc, down);
    lemma_count_event_concat(hat + inj + zc, zo, down);
    lemma_count_event_concat(hat + inj + zc + zo, sup, down);
}

} // verus!
