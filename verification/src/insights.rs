//! Computations behind the insight cards: durations and signed numbers as
//! text, townhall and tech timings, worker counts at a loop and the army
//! turning point of a 1v1.

use vstd::prelude::*;

use crate::production_efficiency::models::{first_upgrade, first_upgrade_loop};
use crate::replay::{ArmySnapshot, EntityEvent, EntityEventKind, PlayerTimeline};
use crate::series::{army_loops, keys_sorted, last_le, last_pair_at, last_stats_at, pair_loops, stats_loops};
use crate::text::{decimal, push_char, push_decimal, push_signed_decimal, signed_decimal, str_eq};

verus! {

/// `n` with at least two digits, zero-padded (`{:02}`).
pub open spec fn two_digits(n: nat) -> Seq<char> {
    if n < 10 {
        seq!['0'] + decimal(n)
    } else {
        decimal(n)
    }
}

/// A duration for reading: under a minute `"Ns"`, else `"m:ss"`.
pub open spec fn human_duration_spec(total_secs: u32) -> Seq<char> {
    if total_secs < 60 {
        decimal(total_secs as nat) + seq!['s']
    } else {
        decimal((total_secs / 60) as nat) + seq![':'] + two_digits((total_secs % 60) as nat)
    }
}

/// Appends `n` zero-padded to two digits.
fn push_two_digits(out: &mut String, n: u32)
    ensures
        final(out)@ == old(out)@ + two_digits(n as nat),
{
    if n < 10 {
        push_char(out, '0');
    }
    push_decimal(out, n as u64);
}

/// Formats a duration in seconds for reading: `"45s"` under a minute,
/// `"m:ss"` from a minute on (no hours).
pub fn human_duration(total_secs: u32) -> (r: String)
    ensures
        r@ == human_duration_spec(total_secs),
{
    let mut out = String::new();
    if total_secs < 60 {
        push_decimal(&mut out, total_secs as u64);
        push_char(&mut out, 's');
    } else {
        push_decimal(&mut out, (total_secs / 60) as u64);
        push_char(&mut out, ':');
        push_two_digits(&mut out, total_secs % 60);
    }
    out
}

/// A signed number with an explicit `+` for zero and positives.
pub open spec fn format_signed_spec(net: i64) -> Seq<char> {
    if net >= 0 {
        seq!['+'] + decimal(net as nat)
    } else {
        signed_decimal(net as int)
    }
}

/// Formats a net value with its sign: `"+300"`, `"+0"`, `"-50"`.
pub fn format_signed(net: i64) -> (r: String)
    ensures
        r@ == format_signed_spec(net),
{
    let mut out = String::new();
    if net >= 0 {
        push_char(&mut out, '+');
        push_decimal(&mut out, net as u64);
    } else {
        push_signed_decimal(&mut out, net);
    }
    out
}

/// Race strings starting with `P` or `p` are Protoss.
pub fn is_protoss_race(race: &str) -> (r: bool)
    ensures
        r == (race@.len() > 0 && (race@[0] == 'P' || race@[0] == 'p')),
{
    if race.unicode_len() == 0 {
        return false;
    }
    let c = race.get_char(0);
    c == 'P' || c == 'p'
}

/// Loops of the `ProductionFinished` events of entities named `name`, in
/// event order.
pub open spec fn finished_loops(evs: Seq<EntityEvent>, name: Seq<char>) -> Seq<u32>
    decreases evs.len(),
{
    if evs.len() == 0 {
        Seq::empty()
    } else {
        let prev = finished_loops(evs.drop_last(), name);
        let e = evs.last();
        if e.kind == EntityEventKind::ProductionFinished && e.entity_type@ == name {
            prev.push(e.game_loop)
        } else {
            prev
        }
    }
}

/// The `n`-th (from 1) finished townhall of type `townhall`: new
/// constructions only, as morphs finish under their new type.
pub open spec fn nth_townhall_spec(evs: Seq<EntityEvent>, townhall: Seq<char>, n: int) -> Option<u32> {
    let loops = finished_loops(evs, townhall);
    if 1 <= n <= loops.len() {
        Some(loops[n - 1])
    } else {
        None
    }
}

/// Loop of the `n`-th (from 1) `ProductionFinished` of a townhall type.
pub fn nth_townhall_loop(player: &PlayerTimeline, townhall: &str, n: usize) -> (r: Option<u32>)
    ensures
        r == nth_townhall_spec(player.entity_events@, townhall@, n as int),
{
    let evs = &player.entity_events;
    let mut count: usize = 0;
    let mut i: usize = 0;
    while i < evs.len()
        invariant
            i <= evs@.len(),
            count == finished_loops(evs@.subrange(0, i as int), townhall@).len(),
            count <= i,
            n == 0 || count < n,
            evs@ == player.entity_events@,
        decreases evs@.len() - i,
    {
        let ghost pre = evs@.subrange(0, i as int);
        assert(evs@.subrange(0, i + 1).drop_last() =~= pre);
        let e = &evs[i];
        if e.kind == EntityEventKind::ProductionFinished && str_eq(e.entity_type.as_str(), townhall) {
            count = count + 1;
            if count == n {
                proof {
                    let sub1 = evs@.subrange(0, i + 1);
                    assert(sub1.drop_last() =~= pre);
                    assert(finished_loops(sub1, townhall@) == finished_loops(pre, townhall@).push(e.game_loop));
                    lemma_finished_loops_prefix(evs@, townhall@, i as int + 1);
                    assert(finished_loops(evs@, townhall@)[n - 1] == e.game_loop);
                }
                return Some(e.game_loop);
            }
        }
        i = i + 1;
    }
    assert(evs@.subrange(0, evs@.len() as int) =~= evs@);
    None
}

/// Finished loops of a prefix are a prefix of the finished loops.
proof fn lemma_finished_loops_prefix(evs: Seq<EntityEvent>, name: Seq<char>, k: int)
    requires
        0 <= k <= evs.len(),
    ensures
        finished_loops(evs.subrange(0, k), name).len() <= finished_loops(evs, name).len(),
        forall|j: int|
            0 <= j < finished_loops(evs.subrange(0, k), name).len() ==> #[trigger] finished_loops(
                evs,
                name,
            )[j] == finished_loops(evs.subrange(0, k), name)[j],
    decreases evs.len() - k,
{
    if k < evs.len() {
        lemma_finished_loops_prefix(evs, name, k + 1);
        assert(evs.subrange(0, k + 1).drop_last() =~= evs.subrange(0, k));
    } else {
        assert(evs.subrange(0, k) =~= evs);
    }
}

/// A tech milestone: the first finish of a structure, or the first
/// completion of an upgrade.
#[derive(Clone, Copy, Debug)]
pub enum Milestone {
    Structure(&'static str),
    Upgrade(&'static str),
}

/// `(is a structure, name)` of a milestone.
pub open spec fn milestone_view(m: Milestone) -> (bool, Seq<char>) {
    match m {
        Milestone::Structure(s) => (true, s@),
        Milestone::Upgrade(s) => (false, s@),
    }
}

/// The milestones compared per race: `(label key, is a structure, name)`.
pub open spec fn milestones_spec(race: char) -> Seq<(Seq<char>, bool, Seq<char>)> {
    if race == 'T' {
        seq![
            ("insight.tech_timings.tr.factory"@, true, "Factory"@),
            ("insight.tech_timings.tr.stimpack"@, false, "Stimpack"@),
            ("insight.tech_timings.tr.starport"@, true, "Starport"@),
        ]
    } else if race == 'P' {
        seq![
            ("insight.tech_timings.pr.cyber"@, true, "CyberneticsCore"@),
            ("insight.tech_timings.pr.warpgate"@, false, "WarpGate"@),
            ("insight.tech_timings.pr.twilight"@, true, "TwilightCouncil"@),
        ]
    } else if race == 'Z' {
        seq![
            ("insight.tech_timings.zr.lair"@, true, "Lair"@),
            ("insight.tech_timings.zr.roach_warren"@, true, "RoachWarren"@),
            ("insight.tech_timings.zr.hive"@, true, "Hive"@),
        ]
    } else {
        Seq::empty()
    }
}

/// The key tech milestones of a race (by its initial), with their label
/// keys; none for other races.
pub fn milestones_for(race: char) -> (r: Vec<(&'static str, Milestone)>)
    ensures
        r@.len() == milestones_spec(race).len(),
        forall|i: int|
            0 <= i < r@.len() ==> (#[trigger] r@[i].0@, milestone_view(r@[i].1).0, milestone_view(
                r@[i].1,
            ).1) == milestones_spec(race)[i],
{
    if race == 'T' {
        vec![
            ("insight.tech_timings.tr.factory", Milestone::Structure("Factory")),
            ("insight.tech_timings.tr.stimpack", Milestone::Upgrade("Stimpack")),
            ("insight.tech_timings.tr.starport", Milestone::Structure("Starport")),
        ]
    } else if race == 'P' {
        vec![
            ("insight.tech_timings.pr.cyber", Milestone::Structure("CyberneticsCore")),
            ("insight.tech_timings.pr.warpgate", Milestone::Upgrade("WarpGate")),
            ("insight.tech_timings.pr.twilight", Milestone::Structure("TwilightCouncil")),
        ]
    } else if race == 'Z' {
        vec![
            ("insight.tech_timings.zr.lair", Milestone::Structure("Lair")),
            ("insight.tech_timings.zr.roach_warren", Milestone::Structure("RoachWarren")),
            ("insight.tech_timings.zr.hive", Milestone::Structure("Hive")),
        ]
    } else {
        Vec::new()
    }
}

/// Loop at which `player` reached the milestone, if ever.
pub open spec fn milestone_loop_spec(p: PlayerTimeline, m: Milestone) -> Option<u32> {
    match m {
        Milestone::Structure(name) => nth_townhall_spec(p.entity_events@, name@, 1),
        Milestone::Upgrade(name) => first_upgrade_loop(p.upgrades@, name@),
    }
}

/// Loop of the first finish of the milestone's structure, or of the first
/// completion of its upgrade.
pub fn milestone_loop(player: &PlayerTimeline, milestone: &Milestone) -> (r: Option<u32>)
    ensures
        r == milestone_loop_spec(*player, *milestone),
{
    match milestone {
        Milestone::Structure(name) => nth_townhall_loop(player, name, 1),
        Milestone::Upgrade(name) => first_upgrade(&player.upgrades, name),
    }
}

/// Stats worker count at `t`: that of the last snapshot at or before
/// `t`, 0 before the first.
pub open spec fn workers_at_spec(p: PlayerTimeline, t: u32) -> i32 {
    let i = last_le(stats_loops(p.stats@), t);
    if i < 0 {
        0
    } else {
        p.stats@[i].workers
    }
}

/// Worker count of the last stats snapshot at or before `target_loop`.
pub fn workers_at(player: &PlayerTimeline, target_loop: u32) -> (r: i32)
    requires
        keys_sorted(stats_loops(player.stats@)),
    ensures
        r == workers_at_spec(*player, target_loop),
{
    match last_stats_at(player.stats.as_slice(), target_loop) {
        Some(i) => player.stats[i].workers,
        None => 0,
    }
}

/// Index of the first alive-count series of type `name`, or -1.
pub open spec fn series_index(alive: Seq<(String, Vec<(u32, i32)>)>, name: Seq<char>) -> int
    decreases alive.len(),
{
    if alive.len() == 0 {
        -1
    } else if series_index(alive.drop_last(), name) >= 0 {
        series_index(alive.drop_last(), name)
    } else if alive.last().0@ == name {
        alive.len() - 1
    } else {
        -1
    }
}

/// Every alive-count series is ordered by loop.
pub open spec fn alive_sorted(alive: Seq<(String, Vec<(u32, i32)>)>) -> bool {
    forall|k: int| 0 <= k < alive.len() ==> keys_sorted(pair_loops(#[trigger] alive[k].1@))
}

/// Living count of `entity_type` at `t`: the last sample at or before `t`
/// of its series, 0 without series or before its first sample.
pub open spec fn active_count_spec(p: PlayerTimeline, entity_type: Seq<char>, t: u32) -> i32 {
    let k = series_index(p.alive_count@, entity_type);
    if k < 0 {
        0
    } else {
        let s = p.alive_count@[k].1@;
        let i = last_le(pair_loops(s), t);
        if i < 0 {
            0
        } else {
            s[i].1
        }
    }
}

/// `series_index` is -1 or the first index holding `name`.
proof fn lemma_series_index(alive: Seq<(String, Vec<(u32, i32)>)>, name: Seq<char>)
    ensures
        -1 <= series_index(alive, name) < alive.len(),
        series_index(alive, name) >= 0 ==> alive[series_index(alive, name)].0@ == name,
        forall|k: int|
            0 <= k < alive.len() && (series_index(alive, name) == -1 || k < series_index(alive, name))
                ==> #[trigger] alive[k].0@ != name,
    decreases alive.len(),
{
    if alive.len() > 0 {
        let pre = alive.drop_last();
        lemma_series_index(pre, name);
        assert forall|k: int|
            0 <= k < alive.len() && (series_index(alive, name) == -1 || k < series_index(alive, name))
                implies #[trigger] alive[k].0@ != name by {
            if k < alive.len() - 1 {
                assert(pre[k] == alive[k]);
            }
        }
    }
}

/// Living count of `entity_type` at `target_loop`, from the player's
/// cumulative alive-count series.
pub fn active_count_at(player: &PlayerTimeline, entity_type: &str, target_loop: u32) -> (r: i32)
    requires
        alive_sorted(player.alive_count@),
    ensures
        r == active_count_spec(*player, entity_type@, target_loop),
{
    let alive = &player.alive_count;
    proof {
        lemma_series_index(alive@, entity_type@);
    }
    let mut k: usize = 0;
    while k < alive.len()
        invariant
            k <= alive@.len(),
            alive_sorted(alive@),
            alive@ == player.alive_count@,
            forall|m: int| 0 <= m < k ==> #[trigger] alive@[m].0@ != entity_type@,
            -1 <= series_index(alive@, entity_type@) < alive@.len(),
            series_index(alive@, entity_type@) >= 0 ==> alive@[series_index(alive@, entity_type@)].0@
                == entity_type@,
            forall|m: int|
                0 <= m < alive@.len() && (series_index(alive@, entity_type@) == -1 || m < series_index(
                    alive@,
                    entity_type@,
                )) ==> #[trigger] alive@[m].0@ != entity_type@,
        decreases alive@.len() - k,
    {
        if str_eq(alive[k].0.as_str(), entity_type) {
            let series = &alive[k].1;
            assert(series_index(alive@, entity_type@) == k);
            assert(series@ == alive@[k as int].1@);
            assert(keys_sorted(pair_loops(alive@[k as int].1@)));
            return match last_pair_at(series.as_slice(), target_loop) {
                Some(i) => series[i].1,
                None => 0,
            };
        }
        k = k + 1;
    }
    0
}

/// Smallest combined army value (both players) for a sample to count in
/// the turning-point analysis.
pub const MIN_COMBINED_VALUE: i32 = 500;

/// Outcome of the turning-point analysis, from the point of view of one
/// player.
#[derive(Clone, Copy, Debug, PartialEq, Eq, Structural)]
pub enum Outcome {
    /// Never ahead in army value.
    NeverAhead,
    /// Ahead at some point, then overtaken.
    Overtaken { peak_loop: u32, peak_diff: i32, turning_loop: u32 },
    /// Ahead and still ahead at the end.
    HeldAdvantage { peak_diff: i32 },
    /// Too few relevant samples.
    InsufficientData,
}

/// The sample pair counts: combined army value at least the minimum.
pub open spec fn considered(p: ArmySnapshot, o: ArmySnapshot) -> bool {
    p.army_total + o.army_total >= MIN_COMBINED_VALUE
}

/// Over the first `k` sample pairs: whether any counted, the largest
/// advantage `pov - opp` (the first one on ties) and its loop.
pub open spec fn peak_scan(pov: Seq<ArmySnapshot>, opp: Seq<ArmySnapshot>, k: int) -> (bool, int, u32)
    decreases k,
{
    if k <= 0 {
        (false, i32::MIN as int, 0)
    } else {
        let prev = peak_scan(pov, opp, k - 1);
        let p = pov[k - 1];
        let o = opp[k - 1];
        if !considered(p, o) {
            prev
        } else if p.army_total - o.army_total > prev.1 {
            (true, p.army_total - o.army_total, p.game_loop)
        } else {
            (true, prev.1, prev.2)
        }
    }
}

/// Over the first `k` sample pairs: whether the peak's sample was
/// reached, and the loop of the first counted sample after it where the
/// opponent is ahead.
pub open spec fn turn_scan(pov: Seq<ArmySnapshot>, opp: Seq<ArmySnapshot>, peak_loop: u32, k: int) -> (
    bool,
    Option<u32>,
)
    decreases k,
{
    if k <= 0 {
        (false, None)
    } else {
        let prev = turn_scan(pov, opp, peak_loop, k - 1);
        let p = pov[k - 1];
        let o = opp[k - 1];
        if prev.1 is Some {
            prev
        } else if !prev.0 {
            (p.game_loop >= peak_loop, None)
        } else if !considered(p, o) {
            prev
        } else if p.army_total < o.army_total {
            (true, Some(p.game_loop))
        } else {
            prev
        }
    }
}

/// Number of positionally paired samples.
pub open spec fn paired_len(pov: Seq<ArmySnapshot>, opp: Seq<ArmySnapshot>) -> int {
    if pov.len() < opp.len() {
        pov.len() as int
    } else {
        opp.len() as int
    }
}

/// The turning point of the army-value race: the peak advantage of the
/// point of view, then the first later sample where the opponent leads.
pub open spec fn turning_point_spec(pov: Seq<ArmySnapshot>, opp: Seq<ArmySnapshot>) -> Outcome {
    let n = paired_len(pov, opp);
    let pk = peak_scan(pov, opp, n);
    if n < 3 || !pk.0 {
        Outcome::InsufficientData
    } else if pk.1 <= 0 {
        Outcome::NeverAhead
    } else {
        match turn_scan(pov, opp, pk.2, n).1 {
            Some(t) => Outcome::Overtaken { peak_loop: pk.2, peak_diff: pk.1 as i32, turning_loop: t },
            None => Outcome::HeldAdvantage { peak_diff: pk.1 as i32 },
        }
    }
}

/// The sums and differences of paired army values fit in `i32`.
pub open spec fn army_values_fit(pov: Seq<ArmySnapshot>, opp: Seq<ArmySnapshot>) -> bool {
    forall|i: int|
        0 <= i < pov.len() && i < opp.len() ==> {
            &&& i32::MIN <= #[trigger] pov[i].army_total + opp[i].army_total <= i32::MAX
            &&& i32::MIN <= pov[i].army_total - opp[i].army_total <= i32::MAX
        }
}

/// The peak advantage found so far is a real difference or the start value.
proof fn lemma_peak_scan_range(pov: Seq<ArmySnapshot>, opp: Seq<ArmySnapshot>, k: int)
    requires
        army_values_fit(pov, opp),
        k <= pov.len(),
        k <= opp.len(),
    ensures
        i32::MIN <= peak_scan(pov, opp, k).1 <= i32::MAX,
    decreases k,
{
    if k > 0 {
        lemma_peak_scan_range(pov, opp, k - 1);
        let p = pov[k - 1];
        let o = opp[k - 1];
        assert(i32::MIN <= p.army_total + o.army_total <= i32::MAX);
    }
}

/// Finds where the point of view lost its army-value lead, pairing the
/// two series sample by sample (truncated to the shorter).
pub fn detect_turning_point(pov: &[ArmySnapshot], opp: &[ArmySnapshot]) -> (r: Outcome)
    requires
        army_values_fit(pov@, opp@),
    ensures
        r == turning_point_spec(pov@, opp@),
{
    let n = if pov.len() < opp.len() {
        pov.len()
    } else {
        opp.len()
    };
    if n < 3 {
        return Outcome::InsufficientData;
    }
    let mut peak_diff: i32 = i32::MIN;
    let mut peak_loop: u32 = 0;
    let mut any_considered = false;
    let mut i: usize = 0;
    while i < n
        invariant
            i <= n,
            n as int == paired_len(pov@, opp@),
            army_values_fit(pov@, opp@),
            (any_considered, peak_diff as int, peak_loop) == peak_scan(pov@, opp@, i as int),
        decreases n - i,
    {
        let p = pov[i];
        let o = opp[i];
        assert(i32::MIN <= pov@[i as int].army_total + opp@[i as int].army_total <= i32::MAX);
        if p.army_total + o.army_total >= MIN_COMBINED_VALUE {
            any_considered = true;
            let diff = p.army_total - o.army_total;
            if diff > peak_diff {
                peak_diff = diff;
                peak_loop = p.game_loop;
            }
        }
        i = i + 1;
    }
    if !any_considered {
        return Outcome::InsufficientData;
    }
    if peak_diff <= 0 {
        return Outcome::NeverAhead;
    }
    let mut passed_peak = false;
    let mut i: usize = 0;
    while i < n
        invariant
            i <= n,
            n as int == paired_len(pov@, opp@),
            army_values_fit(pov@, opp@),
            (passed_peak, None::<u32>) == turn_scan(pov@, opp@, peak_loop, i as int),
            n >= 3,
            peak_diff > 0,
            peak_scan(pov@, opp@, n as int) == (true, peak_diff as int, peak_loop),
        decreases n - i,
    {
        let p = pov[i];
        let o = opp[i];
        assert(i32::MIN <= pov@[i as int].army_total + opp@[i as int].army_total <= i32::MAX);
        if !passed_peak {
            if p.game_loop >= peak_loop {
                passed_peak = true;
            }
        } else if p.army_total + o.army_total >= MIN_COMBINED_VALUE && p.army_total < o.army_total {
            proof {
                assert(turn_scan(pov@, opp@, peak_loop, i as int + 1) == (true, Some(p.game_loop)));
                lemma_turn_scan_stays(pov@, opp@, peak_loop, i as int + 1, n as int);
            }
            return Outcome::Overtaken { peak_loop, peak_diff, turning_loop: p.game_loop };
        }
        i = i + 1;
    }
    Outcome::HeldAdvantage { peak_diff }
}

/// Once found, the turning loop stays.
proof fn lemma_turn_scan_stays(pov: Seq<ArmySnapshot>, opp: Seq<ArmySnapshot>, peak_loop: u32, k: int, n: int)
    requires
        0 <= k <= n,
        turn_scan(pov, opp, peak_loop, k).1 is Some,
    ensures
        turn_scan(pov, opp, peak_loop, n) == turn_scan(pov, opp, peak_loop, k),
    decreases n - k,
{
    if k < n {
        lemma_turn_scan_stays(pov, opp, peak_loop, k, n - 1);
    }
}


/// While scanning after the peak: once the peak's sample is passed some
/// sample at or after the peak loop was seen, and a turning loop found in
/// loop-ordered samples is at or after the peak loop.
proof fn lemma_turn_scan_after_peak(pov: Seq<ArmySnapshot>, opp: Seq<ArmySnapshot>, peak_loop: u32, k: int)
    requires
        keys_sorted(army_loops(pov)),
        0 <= k <= pov.len(),
        k <= opp.len(),
    ensures
        turn_scan(pov, opp, peak_loop, k).0 ==> exists|j: int| 0 <= j < k && pov[j].game_loop >= peak_loop,
        turn_scan(pov, opp, peak_loop, k).1 matches Some(t) ==> t >= peak_loop,
    decreases k,
{
    if k > 0 {
        lemma_turn_scan_after_peak(pov, opp, peak_loop, k - 1);
        let prev = turn_scan(pov, opp, peak_loop, k - 1);
        if prev.1 is None && prev.0 {
            let j = choose|j: int| 0 <= j < k - 1 && pov[j].game_loop >= peak_loop;
            assert(army_loops(pov)[j] <= army_loops(pov)[k - 1]);
        }
    }
}

/// Law of the turning point: whenever the point of view was ahead (held
/// or overtaken) its peak advantage is positive, and with loop-ordered
/// samples the opponent overtakes at or after the peak.
pub proof fn lemma_turning_point_after_peak(pov: Seq<ArmySnapshot>, opp: Seq<ArmySnapshot>)
    requires
        keys_sorted(army_loops(pov)),
        army_values_fit(pov, opp),
    ensures
        turning_point_spec(pov, opp) matches Outcome::Overtaken { peak_loop, peak_diff, turning_loop }
            ==> peak_diff > 0 && turning_loop >= peak_loop,
        turning_point_spec(pov, opp) matches Outcome::HeldAdvantage { peak_diff } ==> peak_diff > 0,
{
    let n = paired_len(pov, opp);
    let pk = peak_scan(pov, opp, n);
    if n >= 3 && pk.0 && pk.1 > 0 {
        lemma_turn_scan_after_peak(pov, opp, pk.2, n);
    }
    lemma_peak_scan_range(pov, opp, n);
}


/// A turning loop found by the scan is the loop of a paired sample whose
/// combined army value reaches the minimum and where the opponent leads.
proof fn lemma_turn_scan_witness(pov: Seq<ArmySnapshot>, opp: Seq<ArmySnapshot>, peak_loop: u32, k: int)
    requires
        k <= pov.len(),
        k <= opp.len(),
    ensures
        turn_scan(pov, opp, peak_loop, k).1 matches Some(t) ==> exists|j: int|
            0 <= j < k && #[trigger] pov[j].game_loop == t && pov[j].army_total + opp[j].army_total
                >= MIN_COMBINED_VALUE && pov[j].army_total < opp[j].army_total,
    decreases k,
{
    if k > 0 {
        lemma_turn_scan_witness(pov, opp, peak_loop, k - 1);
        let prev = turn_scan(pov, opp, peak_loop, k - 1);
        if prev.1 is None && prev.0 && considered(pov[k - 1], opp[k - 1]) && pov[k - 1].army_total
            < opp[k - 1].army_total {
            assert(pov[k - 1].game_loop == pov[k - 1].game_loop);
        }
    }
}

/// The peak found by the scan is the largest advantage over the counted
/// samples and, once above the start value, reached at a counted sample at
/// the peak loop.
proof fn lemma_peak_scan_witness(pov: Seq<ArmySnapshot>, opp: Seq<ArmySnapshot>, k: int)
    requires
        k <= pov.len(),
        k <= opp.len(),
    ensures
        peak_scan(pov, opp, k).1 > i32::MIN ==> exists|j: int|
            0 <= j < k && #[trigger] pov[j].game_loop == peak_scan(pov, opp, k).2 && pov[j].army_total
                + opp[j].army_total >= MIN_COMBINED_VALUE && pov[j].army_total - opp[j].army_total
                == peak_scan(pov, opp, k).1,
        forall|i: int|
            0 <= i < k && #[trigger] pov[i].army_total + opp[i].army_total >= MIN_COMBINED_VALUE
                ==> pov[i].army_total - opp[i].army_total <= peak_scan(pov, opp, k).1,
        !peak_scan(pov, opp, k).0 ==> forall|i: int|
            0 <= i < k ==> #[trigger] pov[i].army_total + opp[i].army_total < MIN_COMBINED_VALUE,
        peak_scan(pov, opp, k).0 ==> exists|i: int|
            0 <= i < k && #[trigger] pov[i].army_total + opp[i].army_total >= MIN_COMBINED_VALUE,
    decreases k,
{
    if k > 0 {
        lemma_peak_scan_witness(pov, opp, k - 1);
        let prev = peak_scan(pov, opp, k - 1);
        let cur = peak_scan(pov, opp, k);
        if considered(pov[k - 1], opp[k - 1]) && pov[k - 1].army_total - opp[k - 1].army_total
            > prev.1 {
            assert(pov[k - 1].game_loop == cur.2);
        }
        if considered(pov[k - 1], opp[k - 1]) {
            assert(pov[k - 1].army_total + opp[k - 1].army_total >= MIN_COMBINED_VALUE);
        }
    }
}

/// While no turning loop is found: the scan has passed the peak exactly
/// when some sample so far is at or after the peak loop, and every counted
/// sample after such a one has the point of view at least level.
proof fn lemma_turn_scan_none(pov: Seq<ArmySnapshot>, opp: Seq<ArmySnapshot>, peak_loop: u32, k: int)
    requires
        k <= pov.len(),
        k <= opp.len(),
        turn_scan(pov, opp, peak_loop, k).1 is None,
    ensures
        turn_scan(pov, opp, peak_loop, k).0 <==> exists|j: int| 0 <= j < k && #[trigger] pov[j].game_loop >= peak_loop,
        forall|i: int, j: int|
            0 <= j < i < k && #[trigger] pov[j].game_loop >= peak_loop && #[trigger] pov[i].army_total
                + opp[i].army_total >= MIN_COMBINED_VALUE ==> pov[i].army_total >= opp[i].army_total,
    decreases k,
{
    if k > 0 {
        let prev = turn_scan(pov, opp, peak_loop, k - 1);
        assert(prev.1 is None);
        lemma_turn_scan_none(pov, opp, peak_loop, k - 1);
        if prev.0 {
            let j0 = choose|j: int| 0 <= j < k - 1 && #[trigger] pov[j].game_loop >= peak_loop;
            assert(pov[j0].game_loop >= peak_loop);
        }
        assert forall|i: int, j: int|
            0 <= j < i < k && #[trigger] pov[j].game_loop >= peak_loop && #[trigger] pov[i].army_total
                + opp[i].army_total >= MIN_COMBINED_VALUE implies pov[i].army_total >= opp[i].army_total by {
            if i == k - 1 {
                assert(pov[j].game_loop >= peak_loop);
                assert(prev.0);
            }
        }
    }
}

/// What the turning point says of the samples (paired by position up to
/// the shorter series): a held or lost lead has as its peak the largest
/// `pov - opp` over the samples whose combined army value reaches
/// `MIN_COMBINED_VALUE`, reached at such a sample (at the reported loop
/// when overtaken); an overtaking happens at such a sample, where the
/// opponent's army is the larger; and too few relevant samples means fewer
/// than three pairs or none that reaches the minimum. A held lead is never
/// lost: after its peak sample, no counted sample has the opponent ahead.
pub proof fn lemma_turning_point_samples(pov: Seq<ArmySnapshot>, opp: Seq<ArmySnapshot>)
    requires
        army_values_fit(pov, opp),
    ensures
        turning_point_spec(pov, opp) matches Outcome::Overtaken { peak_loop, peak_diff, turning_loop }
            ==> {
            &&& exists|j: int|
                0 <= j < paired_len(pov, opp) && #[trigger] pov[j].game_loop == turning_loop
                    && pov[j].army_total + opp[j].army_total >= MIN_COMBINED_VALUE && pov[j].army_total
                    < opp[j].army_total
            &&& exists|j: int|
                0 <= j < paired_len(pov, opp) && #[trigger] pov[j].game_loop == peak_loop
                    && pov[j].army_total + opp[j].army_total >= MIN_COMBINED_VALUE && pov[j].army_total
                    - opp[j].army_total == peak_diff
            &&& forall|i: int|
                0 <= i < paired_len(pov, opp) && #[trigger] pov[i].army_total + opp[i].army_total
                    >= MIN_COMBINED_VALUE ==> pov[i].army_total - opp[i].army_total <= peak_diff
        },
        turning_point_spec(pov, opp) matches Outcome::HeldAdvantage { peak_diff } ==> {
            &&& exists|j: int|
                0 <= j < paired_len(pov, opp) && #[trigger] pov[j].army_total + opp[j].army_total
                    >= MIN_COMBINED_VALUE && pov[j].army_total - opp[j].army_total == peak_diff
                    && forall|i: int|
                    j < i < paired_len(pov, opp) && #[trigger] pov[i].army_total + opp[i].army_total
                        >= MIN_COMBINED_VALUE ==> pov[i].army_total >= opp[i].army_total
            &&& forall|i: int|
                0 <= i < paired_len(pov, opp) && #[trigger] pov[i].army_total + opp[i].army_total
                    >= MIN_COMBINED_VALUE ==> pov[i].army_total - opp[i].army_total <= peak_diff
        },
        turning_point_spec(pov, opp) is NeverAhead ==> forall|i: int|
            0 <= i < paired_len(pov, opp) && #[trigger] pov[i].army_total + opp[i].army_total
                >= MIN_COMBINED_VALUE ==> pov[i].army_total <= opp[i].army_total,
        turning_point_spec(pov, opp) is InsufficientData <==> (paired_len(pov, opp) < 3 || forall|i: int|
            0 <= i < paired_len(pov, opp) ==> #[trigger] pov[i].army_total + opp[i].army_total
                < MIN_COMBINED_VALUE),
{
    let n = paired_len(pov, opp);
    lemma_peak_scan_witness(pov, opp, n);
    lemma_peak_scan_range(pov, opp, n);
    let pk = peak_scan(pov, opp, n);
    lemma_turn_scan_witness(pov, opp, pk.2, n);
    if n >= 3 && pk.0 && pk.1 > 0 && turn_scan(pov, opp, pk.2, n).1 is None {
        lemma_turn_scan_none(pov, opp, pk.2, n);
        let j = choose|j: int|
            0 <= j < n && #[trigger] pov[j].game_loop == pk.2 && pov[j].army_total + opp[j].army_total
                >= MIN_COMBINED_VALUE && pov[j].army_total - opp[j].army_total == pk.1;
        assert forall|i: int|
            j < i < n && #[trigger] pov[i].army_total + opp[i].army_total >= MIN_COMBINED_VALUE
                implies pov[i].army_total >= opp[i].army_total by {
            assert(pov[j].game_loop >= pk.2);
        }
        assert(pov[j].army_total + opp[j].army_total >= MIN_COMBINED_VALUE);
    }
    if n >= 3 && !(forall|i: int|
        0 <= i < n ==> #[trigger] pov[i].army_total + opp[i].army_total < MIN_COMBINED_VALUE) {
        let i = choose|i: int| 0 <= i < n && !(#[trigger] pov[i].army_total + opp[i].army_total
            < MIN_COMBINED_VALUE);
        assert(pov[i].army_total + opp[i].army_total >= MIN_COMBINED_VALUE);
    }
}

/// Tier of an insight value, which picks the colour it is shown in.
#[derive(Clone, Copy, Debug, PartialEq, Eq, Structural)]
pub enum Severity {
    Good,
    Warning,
    Bad,
    Neutral,
}

/// Display colour `(r, g, b)` of a tier.
pub fn severity_rgb(s: Severity) -> (r: (u8, u8, u8))
    ensures
        r == match s {
            Severity::Good => (110u8, 190u8, 120u8),
            Severity::Warning => (220u8, 190u8, 90u8),
            Severity::Bad => (220u8, 140u8, 80u8),
            Severity::Neutral => (160u8, 160u8, 160u8),
        },
{
    match s {
        Severity::Good => (110, 190, 120),
        Severity::Warning => (220, 190, 90),
        Severity::Bad => (220, 140, 80),
        Severity::Neutral => (160, 160, 160),
    }
}

/// Average unspent resources: under 300 good, under 600 a warning, else bad.
pub fn unspent_severity(avg: u32) -> (r: Severity)
    ensures
        r == (if avg < 300 {
            Severity::Good
        } else if avg < 600 {
            Severity::Warning
        } else {
            Severity::Bad
        }),
{
    if avg < 300 {
        Severity::Good
    } else if avg < 600 {
        Severity::Warning
    } else {
        Severity::Bad
    }
}

/// Total supply-blocked seconds: under 5 good, under 15 a warning, else bad.
pub fn supply_block_severity(total_secs: u32) -> (r: Severity)
    ensures
        r == (if total_secs < 5 {
            Severity::Good
        } else if total_secs < 15 {
            Severity::Warning
        } else {
            Severity::Bad
        }),
{
    if total_secs < 5 {
        Severity::Good
    } else if total_secs < 15 {
        Severity::Warning
    } else {
        Severity::Bad
    }
}

/// Net army trade: even or better good, losing up to 500 a warning, else bad.
pub fn net_trade_severity(net: i64) -> (r: Severity)
    ensures
        r == (if net >= 0 {
            Severity::Good
        } else if net >= -500 {
            Severity::Warning
        } else {
            Severity::Bad
        }),
{
    if net >= 0 {
        Severity::Good
    } else if net >= -500 {
        Severity::Warning
    } else {
        Severity::Bad
    }
}

/// Timing difference (point of view minus opponent): earlier is good,
/// later bad, the same neutral.
pub fn timing_delta_severity(delta: i64) -> (r: Severity)
    ensures
        r == (if delta < 0 {
            Severity::Good
        } else if delta > 0 {
            Severity::Bad
        } else {
            Severity::Neutral
        }),
{
    if delta < 0 {
        Severity::Good
    } else if delta > 0 {
        Severity::Bad
    } else {
        Severity::Neutral
    }
}

/// Worker-count difference with its tier: ahead `"+N"` good, behind
/// `"-N"` bad, even `"0"` neutral.
pub fn worker_delta_style(delta: i32) -> (r: (Severity, String))
    ensures
        r.0 == (if delta > 0 {
            Severity::Good
        } else if delta < 0 {
            Severity::Bad
        } else {
            Severity::Neutral
        }),
        delta > 0 ==> r.1@ == seq!['+'] + decimal(delta as nat),
        delta <= 0 ==> r.1@ == signed_decimal(delta as int),
{
    let text = format_signed(delta as i64);
    if delta > 0 {
        (Severity::Good, text)
    } else if delta < 0 {
        (Severity::Bad, text)
    } else {
        let mut zero = String::new();
        push_decimal(&mut zero, 0);
        (Severity::Neutral, zero)
    }
}


/// Worker equivalents of `mules` active MULEs: each counts as 3.5 workers,
/// rounded to the nearest integer (halves away from zero), kept within
/// `i32`.
pub open spec fn mule_bonus_spec(mules: i32) -> int {
    let a: nat = if mules < 0 {
        (-mules) as nat
    } else {
        mules as nat
    };
    let r: int = ((7 * a + 1) / 2) as int;
    let v = if mules < 0 {
        -r
    } else {
        r
    };
    if v > i32::MAX {
        i32::MAX as int
    } else if v < i32::MIN {
        i32::MIN as int
    } else {
        v
    }
}

/// Worker-equivalent bonus of `mules` active MULEs (3.5 workers each,
/// rounded to the nearest integer), added to a worker count.
pub fn mule_bonus(mules: i32) -> (r: i32)
    ensures
        r == mule_bonus_spec(mules),
{
    let a: u64 = if mules < 0 {
        (-(mules as i64)) as u64
    } else {
        mules as u64
    };
    let half: u64 = (7 * a + 1) / 2;
    if mules < 0 {
        if half > 0x8000_0000 {
            i32::MIN
        } else {
            (-(half as i64)) as i32
        }
    } else if half > 0x7fff_ffff {
        i32::MAX
    } else {
        half as i32
    }
}
} // verus!
