//! Losses, kills and engagements: which entities a player lost to the
//! opponent, which enemy entities they killed, valued in resources, and
//! the grouping of those deaths into contiguous fights.

use vstd::prelude::*;

use crate::replay::{EntityCategory, EntityEvent, EntityEventKind, ReplayTimeline};
use crate::sorting::{insert_pos, lemma_insert_pos_bounds, lemma_sort_by_key_sorted, sort_by_key_spec, sorted_by_key};

verus! {

/// A death valued in resources.
#[derive(Debug)]
pub struct DeathEvent {
    pub game_loop: u32,
    pub entity_type: String,
    pub category: EntityCategory,
    pub minerals: u32,
    pub vespene: u32,
}

impl DeathEvent {
    /// Minerals plus vespene.
    pub fn total_value(&self) -> (r: u32)
        requires
            self.minerals + self.vespene <= u32::MAX,
        ensures
            r == self.minerals + self.vespene,
    {
        self.minerals + self.vespene
    }
}

/// A run of deaths whose consecutive gaps stay within the grouping gap.
#[derive(Clone, Copy, Debug, PartialEq, Eq, Structural)]
pub struct Engagement {
    pub start_loop: u32,
    pub end_loop: u32,
    pub lost_value: u32,
    pub killed_value: u32,
}

impl Engagement {
    /// Net trade from the point of view of the analysed player: resources
    /// killed minus resources lost (negative when they lost more).
    pub fn net_trade(&self) -> (r: i64)
        ensures
            r == self.killed_value - self.lost_value,
    {
        self.killed_value as i64 - self.lost_value as i64
    }

    /// Resources lost plus resources killed.
    pub fn total_value(&self) -> (r: u32)
        requires
            self.lost_value + self.killed_value <= u32::MAX,
        ensures
            r == self.lost_value + self.killed_value,
    {
        self.lost_value + self.killed_value
    }
}

/// `d` records the death `e`, valued by `cost` for build `base_build`.
pub open spec fn records_death<F: Fn(&String, u32) -> (u32, u32)>(
    d: DeathEvent,
    e: EntityEvent,
    cost: F,
    base_build: u32,
) -> bool {
    &&& d.game_loop == e.game_loop
    &&& d.entity_type@ == e.entity_type@
    &&& d.category == e.category
    &&& call_ensures(cost, (&e.entity_type, base_build), (d.minerals, d.vespene))
}

/// A death of the player's entity at the hands of another player.
pub open spec fn is_loss(e: EntityEvent, self_id: u8) -> bool {
    e.kind == EntityEventKind::Died && e.killer_player_id is Some && e.killer_player_id != Some(
        self_id,
    )
}

/// The player's losses among `evs`, in order.
pub open spec fn losses_spec(evs: Seq<EntityEvent>, self_id: u8) -> Seq<EntityEvent>
    decreases evs.len(),
{
    if evs.len() == 0 {
        Seq::empty()
    } else {
        let rest = losses_spec(evs.drop_last(), self_id);
        if is_loss(evs.last(), self_id) {
            rest.push(evs.last())
        } else {
            rest
        }
    }
}

/// Every element of `out` records the matching element of `src`.
pub open spec fn records_all<F: Fn(&String, u32) -> (u32, u32)>(
    out: Seq<DeathEvent>,
    src: Seq<EntityEvent>,
    cost: F,
    base_build: u32,
) -> bool {
    out.len() == src.len() && forall|i: int|
        0 <= i < out.len() ==> records_death(#[trigger] out[i], src[i], cost, base_build)
}

/// The valuation can be called on any type and build, and gives one
/// answer per input.
pub open spec fn cost_ok<F: Fn(&String, u32) -> (u32, u32)>(cost: F) -> bool {
    &&& forall|s: &String, b: u32| #[trigger] cost.requires((s, b))
    &&& forall|s: &String, b: u32, r1: (u32, u32), r2: (u32, u32)|
        #[trigger] call_ensures(cost, (s, b), r1) && #[trigger] call_ensures(cost, (s, b), r2) ==> r1
            == r2
}

/// What a death record says, with the type by its text.
pub open spec fn death_view(d: DeathEvent) -> (u32, Seq<char>, EntityCategory, u32, u32) {
    (d.game_loop, d.entity_type@, d.category, d.minerals, d.vespene)
}

/// Builds the valued death record of `e`.
fn death_of<F: Fn(&String, u32) -> (u32, u32)>(e: &EntityEvent, cost: &F, base_build: u32) -> (d: DeathEvent)
    requires
        forall|s: &String, b: u32| #[trigger] cost.requires((s, b)),
    ensures
        records_death(d, *e, *cost, base_build),
{
    let (m, v) = cost(&e.entity_type, base_build);
    DeathEvent {
        game_loop: e.game_loop,
        entity_type: e.entity_type.clone(),
        category: e.category,
        minerals: m,
        vespene: v,
    }
}

/// Entities that player `player_idx` lost to an opponent (killed by
/// another player; morphs without a killer and self-kills excluded),
/// ordered by loop (ties in event order), valued by `cost` (minerals,
/// vespene of a type at a build). Empty for an unknown player index.
pub fn player_losses<F: Fn(&String, u32) -> (u32, u32)>(
    timeline: &ReplayTimeline,
    player_idx: usize,
    cost: &F,
) -> (r: Vec<DeathEvent>)
    requires
        cost_ok(*cost),
    ensures
        player_idx >= timeline.players@.len() ==> r@.len() == 0,
        player_idx < timeline.players@.len() ==> records_all(
            r@,
            sort_by_key_spec(
                losses_spec(
                    timeline.players@[player_idx as int].entity_events@,
                    timeline.players@[player_idx as int].player_id,
                ),
                by_event_loop(),
            ),
            *cost,
            timeline.base_build,
        ),
        deaths_sorted(r@),
{
    if player_idx >= timeline.players.len() {
        return Vec::new();
    }
    let player = &timeline.players[player_idx];
    let self_id = player.player_id;
    let evs = &player.entity_events;
    let mut out: Vec<DeathEvent> = Vec::new();
    let mut i: usize = 0;
    while i < evs.len()
        invariant
            i <= evs@.len(),
            forall|s: &String, b: u32| #[trigger] cost.requires((s, b)),
            records_all(out@, losses_spec(evs@.subrange(0, i as int), self_id), *cost, timeline.base_build),
        decreases evs@.len() - i,
    {
        let e = &evs[i];
        assert(evs@.subrange(0, i + 1).drop_last() =~= evs@.subrange(0, i as int));
        assert(evs@.subrange(0, i + 1).last() == evs@[i as int]);
        let lost = match e.killer_player_id {
            Some(k) => e.kind == EntityEventKind::Died && k != self_id,
            None => false,
        };
        if lost {
            let d = death_of(e, cost, timeline.base_build);
            out.push(d);
            assert(records_all(
                out@,
                losses_spec(evs@.subrange(0, i + 1), self_id),
                *cost,
                timeline.base_build,
            )) by {
                let src = losses_spec(evs@.subrange(0, i + 1), self_id);
                assert forall|j: int| 0 <= j < out@.len() implies records_death(
                    #[trigger] out@[j],
                    src[j],
                    *cost,
                    timeline.base_build,
                ) by {
                    if j < out@.len() - 1 {
                        assert(out@[j] == old_out_at(out@, j));
                    }
                }
            }
        }
        i = i + 1;
    }
    assert(evs@.subrange(0, evs@.len() as int) =~= evs@);
    let ghost raw = out@;
    let sorted = sort_deaths(out);
    proof {
        lemma_sort_records(raw, losses_spec(evs@, self_id), *cost, timeline.base_build);
        lemma_sort_by_key_sorted(raw, by_death_loop());
    }
    sorted
}

/// Names an element, for the solver.
spec fn old_out_at(s: Seq<DeathEvent>, j: int) -> DeathEvent {
    s[j]
}

/// Sort key of death records: their loop.
pub open spec fn by_death_loop() -> spec_fn(DeathEvent) -> int {
    |d: DeathEvent| d.game_loop as int
}

/// Sort key of entity events: their loop.
pub open spec fn by_event_loop() -> spec_fn(EntityEvent) -> int {
    |e: EntityEvent| e.game_loop as int
}

/// Sort key of tagged deaths: their loop.
pub open spec fn by_tag_loop() -> spec_fn((u32, u32, bool)) -> int {
    |t: (u32, u32, bool)| t.0 as int
}

/// Sorting two sequences with pointwise equal keys picks the same positions:
/// the records of a sorted source are the sorted records.
proof fn lemma_sort_records<F: Fn(&String, u32) -> (u32, u32)>(
    out: Seq<DeathEvent>,
    src: Seq<EntityEvent>,
    cost: F,
    base_build: u32,
)
    requires
        records_all(out, src, cost, base_build),
    ensures
        records_all(
            sort_by_key_spec(out, by_death_loop()),
            sort_by_key_spec(src, by_event_loop()),
            cost,
            base_build,
        ),
    decreases out.len(),
{
    let kd = by_death_loop();
    let ke = by_event_loop();
    if out.len() > 0 {
        assert(records_all(out.drop_last(), src.drop_last(), cost, base_build)) by {
            assert forall|i: int| 0 <= i < out.drop_last().len() implies records_death(
                #[trigger] out.drop_last()[i],
                src.drop_last()[i],
                cost,
                base_build,
            ) by {
                assert(records_death(out[i], src[i], cost, base_build));
            }
        }
        lemma_sort_records(out.drop_last(), src.drop_last(), cost, base_build);
        let so = sort_by_key_spec(out.drop_last(), kd);
        let ss = sort_by_key_spec(src.drop_last(), ke);
        assert(records_death(out.last(), src.last(), cost, base_build)) by {
            assert(records_death(out[out.len() - 1], src[src.len() - 1], cost, base_build));
        }
        lemma_insert_pos_same(so, ss, kd, ke, out.last().game_loop as int);
        let p = insert_pos(so, kd, out.last().game_loop as int);
        lemma_insert_pos_bounds(so, kd, out.last().game_loop as int);
        let ro = so.insert(p, out.last());
        let rs = ss.insert(p, src.last());
        assert forall|i: int| 0 <= i < ro.len() implies records_death(
            #[trigger] ro[i],
            rs[i],
            cost,
            base_build,
        ) by {
            if i < p {
                assert(records_death(so[i], ss[i], cost, base_build));
            } else if i > p {
                assert(records_death(so[i - 1], ss[i - 1], cost, base_build));
            }
        }
    }
}

proof fn lemma_insert_pos_same(
    so: Seq<DeathEvent>,
    ss: Seq<EntityEvent>,
    kd: spec_fn(DeathEvent) -> int,
    ke: spec_fn(EntityEvent) -> int,
    k: int,
)
    requires
        so.len() == ss.len(),
        forall|i: int| 0 <= i < so.len() ==> kd(#[trigger] so[i]) == ke(ss[i]),
    ensures
        insert_pos(so, kd, k) == insert_pos(ss, ke, k),
    decreases so.len(),
{
    if so.len() > 0 {
        assert(kd(so[so.len() - 1]) == ke(ss[ss.len() - 1]));
        lemma_insert_pos_same(so.drop_last(), ss.drop_last(), kd, ke, k);
    }
}

/// Deaths of entities of the other players, in player then event order,
/// whose killer is `my_id`.
pub open spec fn kills_spec(players: Seq<crate::replay::PlayerTimeline>, player_idx: int, my_id: u8) -> Seq<EntityEvent>
    decreases players.len(),
{
    if players.len() == 0 {
        Seq::empty()
    } else {
        let rest = kills_spec(players.drop_last(), player_idx, my_id);
        if players.len() - 1 == player_idx {
            rest
        } else {
            rest + killed_by(players.last().entity_events@, my_id)
        }
    }
}

/// The deaths among `evs` whose killer is `my_id`.
pub open spec fn killed_by(evs: Seq<EntityEvent>, my_id: u8) -> Seq<EntityEvent>
    decreases evs.len(),
{
    if evs.len() == 0 {
        Seq::empty()
    } else {
        let rest = killed_by(evs.drop_last(), my_id);
        let e = evs.last();
        if e.kind == EntityEventKind::Died && e.killer_player_id == Some(my_id) {
            rest.push(e)
        } else {
            rest
        }
    }
}

/// Sorted by loop, non-decreasing.
pub open spec fn deaths_sorted(s: Seq<DeathEvent>) -> bool {
    crate::sorting::sorted_by_key(s, by_death_loop())
}

/// Deaths of entities killed by player `player_idx` (found among the other
/// players' events), valued by `cost`, ordered by loop (ties in player,
/// then event order). Empty for an unknown player index.
pub fn player_kills<F: Fn(&String, u32) -> (u32, u32)>(
    timeline: &ReplayTimeline,
    player_idx: usize,
    cost: &F,
) -> (r: Vec<DeathEvent>)
    requires
        cost_ok(*cost),
    ensures
        player_idx >= timeline.players@.len() ==> r@.len() == 0,
        player_idx < timeline.players@.len() ==> records_all(
            r@,
            sort_by_key_spec(
                kills_spec(
                    timeline.players@,
                    player_idx as int,
                    timeline.players@[player_idx as int].player_id,
                ),
                by_event_loop(),
            ),
            *cost,
            timeline.base_build,
        ),
        deaths_sorted(r@),
{
    if player_idx >= timeline.players.len() {
        return Vec::new();
    }
    let my_id = timeline.players[player_idx].player_id;
    let players = &timeline.players;
    let mut raw: Vec<DeathEvent> = Vec::new();
    let mut pi: usize = 0;
    while pi < players.len()
        invariant
            pi <= players@.len(),
            forall|s: &String, b: u32| #[trigger] cost.requires((s, b)),
            records_all(
                raw@,
                kills_spec(players@.subrange(0, pi as int), player_idx as int, my_id),
                *cost,
                timeline.base_build,
            ),
        decreases players@.len() - pi,
    {
        assert(players@.subrange(0, pi + 1).drop_last() =~= players@.subrange(0, pi as int));
        if pi != player_idx {
            let evs = &players[pi].entity_events;
            let ghost base = kills_spec(players@.subrange(0, pi as int), player_idx as int, my_id);
            let mut j: usize = 0;
            while j < evs.len()
                invariant
                    j <= evs@.len(),
                    forall|s: &String, b: u32| #[trigger] cost.requires((s, b)),
                    records_all(
                        raw@,
                        base + killed_by(evs@.subrange(0, j as int), my_id),
                        *cost,
                        timeline.base_build,
                    ),
                decreases evs@.len() - j,
            {
                let e = &evs[j];
                assert(evs@.subrange(0, j + 1).drop_last() =~= evs@.subrange(0, j as int));
                assert(evs@.subrange(0, j + 1).last() == evs@[j as int]);
                if e.kind == EntityEventKind::Died && e.killer_player_id == Some(my_id) {
                    let ghost before = raw@;
                    let d = death_of(e, cost, timeline.base_build);
                    raw.push(d);
                    let ghost src = base + killed_by(evs@.subrange(0, j + 1), my_id);
                    assert(src =~= (base + killed_by(evs@.subrange(0, j as int), my_id)).push(*e));
                    assert forall|k: int| 0 <= k < raw@.len() implies records_death(
                        #[trigger] raw@[k],
                        src[k],
                        *cost,
                        timeline.base_build,
                    ) by {
                        if k < raw@.len() - 1 {
                            assert(raw@[k] == before[k]);
                        }
                    }
                } else {
                    assert(base + killed_by(evs@.subrange(0, j + 1), my_id) =~= base + killed_by(
                        evs@.subrange(0, j as int),
                        my_id,
                    ));
                }
                j = j + 1;
            }
            assert(evs@.subrange(0, evs@.len() as int) =~= evs@);
            assert(players@.subrange(0, pi + 1).last() == players@[pi as int]);
        }
        pi = pi + 1;
    }
    assert(players@.subrange(0, players@.len() as int) =~= players@);
    let ghost raw_seq = raw@;
    let sorted = sort_deaths(raw);
    proof {
        lemma_sort_records(
            raw_seq,
            kills_spec(players@, player_idx as int, my_id),
            *cost,
            timeline.base_build,
        );
        lemma_sort_by_key_sorted(raw_seq, by_death_loop());
    }
    sorted
}

/// `(loop, value, is_loss)` of the non-structure deaths of `s`, in order.
pub open spec fn tagged_deaths(s: Seq<DeathEvent>, loss: bool) -> Seq<(u32, u32, bool)>
    decreases s.len(),
{
    if s.len() == 0 {
        Seq::empty()
    } else {
        let rest = tagged_deaths(s.drop_last(), loss);
        let d = s.last();
        if d.category == EntityCategory::Structure {
            rest
        } else {
            rest.push((d.game_loop, (d.minerals + d.vespene) as u32, loss))
        }
    }
}

/// `a - b`, floored at zero.
pub open spec fn saturating_sub(a: u32, b: u32) -> int {
    if a > b {
        a - b
    } else {
        0
    }
}

/// Engagements `(start, end, lost, killed)` of a loop-ordered list of
/// tagged deaths: a death opens a new engagement when it is the first or
/// comes more than `gap` loops after the previous death.
pub open spec fn cluster_spec(s: Seq<(u32, u32, bool)>, gap: u32) -> Seq<(u32, u32, int, int)>
    decreases s.len(),
{
    if s.len() == 0 {
        Seq::empty()
    } else {
        let prev = cluster_spec(s.drop_last(), gap);
        let t = s.last();
        let add_l: int = if t.2 {
            t.1 as int
        } else {
            0
        };
        let add_k: int = if t.2 {
            0
        } else {
            t.1 as int
        };
        if s.len() == 1 || saturating_sub(t.0, s[s.len() - 2].0) > gap {
            prev.push((t.0, t.0, add_l, add_k))
        } else {
            let last = prev.last();
            prev.update(prev.len() - 1, (last.0, t.0, last.2 + add_l, last.3 + add_k))
        }
    }
}

/// The engagements of the given losses and kills of the analysed player.
pub open spec fn engagements_spec(losses: Seq<DeathEvent>, kills: Seq<DeathEvent>, gap: u32) -> Seq<
    (u32, u32, int, int),
> {
    cluster_spec(
        sort_by_key_spec(tagged_deaths(losses, true) + tagged_deaths(kills, false), by_tag_loop()),
        gap,
    )
}

/// Every non-structure death is valued within `u32` (structures are never
/// summed).
pub open spec fn values_fit(s: Seq<DeathEvent>) -> bool {
    forall|i: int|
        0 <= i < s.len() && (#[trigger] s[i]).category != EntityCategory::Structure ==> s[i].minerals
            + s[i].vespene <= u32::MAX
}

/// The view of an engagement as `(start, end, lost, killed)`.
pub open spec fn engagement_view(e: Engagement) -> (u32, u32, int, int) {
    (e.start_loop, e.end_loop, e.lost_value as int, e.killed_value as int)
}

proof fn lemma_cluster_nonempty(s: Seq<(u32, u32, bool)>, gap: u32)
    ensures
        s.len() > 0 ==> cluster_spec(s, gap).len() > 0,
        cluster_spec(s, gap).len() <= s.len(),
    decreases s.len(),
{
    if s.len() > 0 {
        lemma_cluster_nonempty(s.drop_last(), gap);
    }
}

/// Values of an engagement only grow as later deaths are added.
proof fn lemma_cluster_mono(s: Seq<(u32, u32, bool)>, gap: u32, i: int)
    requires
        0 <= i <= s.len(),
    ensures
        cluster_spec(s.subrange(0, i), gap).len() <= cluster_spec(s, gap).len(),
        forall|k: int|
            0 <= k < cluster_spec(s.subrange(0, i), gap).len() ==> (#[trigger] cluster_spec(
                s.subrange(0, i),
                gap,
            )[k]).2 <= cluster_spec(s, gap)[k].2 && cluster_spec(s.subrange(0, i), gap)[k].3
                <= cluster_spec(s, gap)[k].3,
    decreases s.len() - i,
{
    if i < s.len() {
        lemma_cluster_mono(s, gap, i + 1);
        let a = s.subrange(0, i);
        let b = s.subrange(0, i + 1);
        assert(b.drop_last() =~= a);
        lemma_cluster_nonempty(a, gap);
        if i > 0 {
            assert(b[b.len() - 2] == a[a.len() - 1]);
        }
        let ca = cluster_spec(a, gap);
        let cb = cluster_spec(b, gap);
        let cs = cluster_spec(s, gap);
        assert(ca.len() <= cb.len());
        assert forall|k: int| 0 <= k < ca.len() implies (#[trigger] ca[k]).2 <= cs[k].2 && ca[k].3
            <= cs[k].3 by {
            assert(ca[k].2 <= cb[k].2 && ca[k].3 <= cb[k].3);
            assert(cb[k].2 <= cs[k].2 && cb[k].3 <= cs[k].3);
        }
    } else {
        assert(s.subrange(0, i) =~= s);
    }
}

/// Groups losses and kills (structures left out) into engagements:
/// deaths are ordered by loop (ties: losses first, then kills, each in
/// their order) and a death more than `gap_loops` after the previous one
/// starts a new engagement. Each engagement spans its first to last death
/// and sums the value lost and the value killed.
pub fn cluster_engagements(losses: &[DeathEvent], kills: &[DeathEvent], gap_loops: u32) -> (r: Vec<
    Engagement,
>)
    requires
        values_fit(losses@),
        values_fit(kills@),
        forall|k: int|
            0 <= k < engagements_spec(losses@, kills@, gap_loops).len() ==> (
            #[trigger] engagements_spec(losses@, kills@, gap_loops)[k]).2 <= u32::MAX
                && engagements_spec(losses@, kills@, gap_loops)[k].3 <= u32::MAX,
    ensures
        r@.map_values(|e: Engagement| engagement_view(e)) == engagements_spec(losses@, kills@, gap_loops),
{
    let mut events: Vec<(u32, u32, bool)> = Vec::new();
    push_tagged(&mut events, losses, true);
    push_tagged(&mut events, kills, false);
    let ghost unsorted = events@;
    assert(unsorted =~= tagged_deaths(losses@, true) + tagged_deaths(kills@, false));
    let events = sort_tagged(events);
    let ghost sorted = events@;
    let ghost full = cluster_spec(sorted, gap_loops);
    assert(full == engagements_spec(losses@, kills@, gap_loops));
    let mut out: Vec<Engagement> = Vec::new();
    let mut current: Option<Engagement> = None;
    let mut last_loop: u32 = 0;
    let mut i: usize = 0;
    while i < events.len()
        invariant
            i <= sorted.len(),
            events@ == sorted,
            full == cluster_spec(sorted, gap_loops),
            forall|k: int| 0 <= k < full.len() ==> (#[trigger] full[k]).2 <= u32::MAX && full[k].3 <= u32::MAX,
            i == 0 ==> current is None && out@.len() == 0,
            i > 0 ==> (current matches Some(c) && out@.map_values(|e: Engagement| engagement_view(e)).push(
                engagement_view(c),
            ) == cluster_spec(sorted.subrange(0, i as int), gap_loops)),
            i > 0 ==> last_loop == sorted[i - 1].0,
        decreases sorted.len() - i,
    {
        let (gl, value, is_loss) = events[i];
        let ghost pre = sorted.subrange(0, i as int);
        let ghost post = sorted.subrange(0, i + 1);
        assert(post.drop_last() =~= pre);
        proof {
            lemma_cluster_mono(sorted, gap_loops, i + 1);
            lemma_cluster_nonempty(post, gap_loops);
            if i > 0 {
                assert(post[post.len() - 2] == sorted[i - 1]);
            }
        }
        let start_new = match current {
            None => true,
            Some(_) => {
                let d: u32 = if gl > last_loop {
                    gl - last_loop
                } else {
                    0
                };
                d > gap_loops
            },
        };
        let ghost old_out = out@.map_values(|e: Engagement| engagement_view(e));
        if start_new {
            match current {
                Some(c) => {
                    out.push(c);
                },
                None => {},
            }
            let lv: u32 = if is_loss {
                value
            } else {
                0
            };
            let kv: u32 = if is_loss {
                0
            } else {
                value
            };
            current = Some(Engagement { start_loop: gl, end_loop: gl, lost_value: lv, killed_value: kv });
            proof {
                let spec_post = cluster_spec(post, gap_loops);
                assert(out@.map_values(|e: Engagement| engagement_view(e)) =~= spec_post.drop_last());
            }
        } else {
            // Continuing an engagement: one is open.
            let c = match current {
                Some(c) => c,
                None => vstd::pervasive::unreached(),
            };
            let ghost spec_post = cluster_spec(post, gap_loops);
            assert(spec_post.len() >= 1);
            assert(spec_post[spec_post.len() - 1].2 <= full[spec_post.len() - 1].2);
            assert(spec_post[spec_post.len() - 1].3 <= full[spec_post.len() - 1].3);
            let next = if is_loss {
                Engagement {
                    start_loop: c.start_loop,
                    end_loop: gl,
                    lost_value: c.lost_value + value,
                    killed_value: c.killed_value,
                }
            } else {
                Engagement {
                    start_loop: c.start_loop,
                    end_loop: gl,
                    lost_value: c.lost_value,
                    killed_value: c.killed_value + value,
                }
            };
            current = Some(next);
            proof {
                assert(old_out.push(engagement_view(next)) =~= spec_post);
            }
        }
        last_loop = gl;
        i = i + 1;
    }
    assert(sorted.subrange(0, sorted.len() as int) =~= sorted);
    match current {
        Some(c) => {
            out.push(c);
        },
        None => {
            assert(sorted.len() == 0);
        },
    }
    out
}

/// Appends the tagged non-structure deaths of `src`.
fn push_tagged(events: &mut Vec<(u32, u32, bool)>, src: &[DeathEvent], loss: bool)
    requires
        values_fit(src@),
    ensures
        final(events)@ == old(events)@ + tagged_deaths(src@, loss),
{
    let ghost start = events@;
    let mut i: usize = 0;
    while i < src.len()
        invariant
            i <= src@.len(),
            values_fit(src@),
            events@ == start + tagged_deaths(src@.subrange(0, i as int), loss),
        decreases src@.len() - i,
    {
        let d = &src[i];
        assert(src@.subrange(0, i + 1).drop_last() =~= src@.subrange(0, i as int));
        assert(src@.subrange(0, i + 1).last() == src@[i as int]);
        if d.category != EntityCategory::Structure {
            assert(d.minerals + d.vespene <= u32::MAX);
            events.push((d.game_loop, d.minerals + d.vespene, loss));
        }
        i = i + 1;
        assert(events@ =~= start + tagged_deaths(src@.subrange(0, i as int), loss));
    }
    assert(src@.subrange(0, src@.len() as int) =~= src@);
}

/// Stable insertion sort of tagged deaths by loop.
fn sort_tagged(v: Vec<(u32, u32, bool)>) -> (r: Vec<(u32, u32, bool)>)
    ensures
        r@ == sort_by_key_spec(v@, by_tag_loop()),
{
    let n = v.len();
    let mut out: Vec<(u32, u32, bool)> = Vec::new();
    let mut i: usize = 0;
    while i < n
        invariant
            i <= n,
            n == v@.len(),
            out@ == sort_by_key_spec(v@.subrange(0, i as int), by_tag_loop()),
        decreases n - i,
    {
        let x = v[i];
        let k = x.0;
        let mut j: usize = out.len();
        assert(out@.subrange(0, j as int) =~= out@);
        while j > 0 && out[j - 1].0 > k
            invariant
                j <= out@.len(),
                insert_pos(out@, by_tag_loop(), k as int) == insert_pos(
                    out@.subrange(0, j as int),
                    by_tag_loop(),
                    k as int,
                ),
            decreases j,
        {
            assert(out@.subrange(0, j as int).drop_last() =~= out@.subrange(0, j - 1));
            j = j - 1;
        }
        assert(out@.subrange(0, 0) =~= Seq::<(u32, u32, bool)>::empty());
        assert(insert_pos(out@, by_tag_loop(), k as int) == j);
        assert(v@.subrange(0, i + 1).drop_last() =~= v@.subrange(0, i as int));
        assert(v@.subrange(0, i + 1).last() == x);
        out.insert(j, x);
        i = i + 1;
    }
    assert(v@.subrange(0, n as int) =~= v@);
    out
}

/// Stable insertion sort of death records by loop.
fn sort_deaths(v: Vec<DeathEvent>) -> (r: Vec<DeathEvent>)
    ensures
        r@ == sort_by_key_spec(v@, by_death_loop()),
{
    let ghost all = v@;
    let n = v.len();
    let mut rest = v;
    let mut out: Vec<DeathEvent> = Vec::new();
    let mut i: usize = 0;
    while i < n
        invariant
            i <= n,
            n == all.len(),
            rest@ == all.subrange(i as int, n as int),
            out@ == sort_by_key_spec(all.subrange(0, i as int), by_death_loop()),
        decreases n - i,
    {
        assert(rest@.len() > 0);
        let x = rest.remove(0);
        assert(x == all[i as int]);
        let k = x.game_loop;
        let mut j: usize = out.len();
        assert(out@.subrange(0, j as int) =~= out@);
        while j > 0 && out[j - 1].game_loop > k
            invariant
                j <= out@.len(),
                insert_pos(out@, by_death_loop(), k as int) == insert_pos(
                    out@.subrange(0, j as int),
                    by_death_loop(),
                    k as int,
                ),
            decreases j,
        {
            assert(out@.subrange(0, j as int).drop_last() =~= out@.subrange(0, j - 1));
            j = j - 1;
        }
        assert(out@.subrange(0, 0) =~= Seq::<DeathEvent>::empty());
        assert(insert_pos(out@, by_death_loop(), k as int) == j);
        assert(all.subrange(0, i + 1).drop_last() =~= all.subrange(0, i as int));
        assert(all.subrange(0, i + 1).last() == x);
        out.insert(j, x);
        assert(rest@ =~= all.subrange(i + 1, n as int));
        i = i + 1;
    }
    assert(all.subrange(0, n as int) =~= all);
    out
}


/// The engagements of a loop-ordered list: each spans from its first to
/// its last death, and each starts more than `gap` loops after the end
/// of the one before it; the last one ends at the last death.
proof fn lemma_cluster_shape(s: Seq<(u32, u32, bool)>, gap: u32)
    requires
        sorted_by_key(s, by_tag_loop()),
    ensures
        forall|k: int| 0 <= k < cluster_spec(s, gap).len() ==> (#[trigger] cluster_spec(s, gap)[k]).0
            <= cluster_spec(s, gap)[k].1,
        forall|k: int|
            0 <= k < cluster_spec(s, gap).len() - 1 ==> (#[trigger] cluster_spec(s, gap)[k + 1]).0
                > cluster_spec(s, gap)[k].1 + gap,
        s.len() > 0 ==> cluster_spec(s, gap).last().1 == s.last().0,
        s.len() > 0 ==> cluster_spec(s, gap).len() > 0,
    decreases s.len(),
{
    if s.len() > 0 {
        let d = s.drop_last();
        assert(sorted_by_key(d, by_tag_loop())) by {
            assert forall|i: int, j: int| 0 <= i <= j < d.len() implies by_tag_loop()(d[i]) <= by_tag_loop()(
                d[j],
            ) by {
                assert(d[i] == s[i] && d[j] == s[j]);
            }
        }
        lemma_cluster_shape(d, gap);
        lemma_cluster_nonempty(d, gap);
        let prev = cluster_spec(d, gap);
        let c = cluster_spec(s, gap);
        let t = s.last();
        let add_l: int = if t.2 {
            t.1 as int
        } else {
            0
        };
        let add_k: int = if t.2 {
            0
        } else {
            t.1 as int
        };
        if s.len() > 1 {
            assert(by_tag_loop()(s[s.len() - 2]) <= by_tag_loop()(s[s.len() - 1]));
            assert(d.last() == s[s.len() - 2]);
        }
        if s.len() == 1 || saturating_sub(t.0, s[s.len() - 2].0) > gap {
            assert(c == prev.push((t.0, t.0, add_l, add_k)));
            assert forall|k: int| 0 <= k < c.len() implies (#[trigger] c[k]).0 <= c[k].1 by {
                if k < prev.len() {
                    assert(c[k] == prev[k]);
                }
            }
            assert forall|k: int| 0 <= k < c.len() - 1 implies (#[trigger] c[k + 1]).0 > c[k].1 + gap by {
                assert(c[k] == prev[k]);
                if k + 1 < prev.len() {
                    assert(c[k + 1] == prev[k + 1]);
                }
            }
        } else {
            let last = prev.last();
            assert(c == prev.update(prev.len() - 1, (last.0, t.0, last.2 + add_l, last.3 + add_k)));
            assert forall|k: int| 0 <= k < c.len() implies (#[trigger] c[k]).0 <= c[k].1 by {
                if k < prev.len() - 1 {
                    assert(c[k] == prev[k]);
                } else {
                    assert(prev[prev.len() - 1].0 <= prev[prev.len() - 1].1);
                }
            }
            assert forall|k: int| 0 <= k < c.len() - 1 implies (#[trigger] c[k + 1]).0 > c[k].1 + gap by {
                assert(c[k] == prev[k]);
                assert(c[k + 1].0 == prev[k + 1].0);
            }
        }
    }
}

/// Sum of the lost values of engagements.
pub open spec fn lost_sum(c: Seq<(u32, u32, int, int)>) -> int
    decreases c.len(),
{
    if c.len() == 0 {
        0
    } else {
        lost_sum(c.drop_last()) + c.last().2
    }
}

/// Sum of the killed values of engagements.
pub open spec fn killed_sum(c: Seq<(u32, u32, int, int)>) -> int
    decreases c.len(),
{
    if c.len() == 0 {
        0
    } else {
        killed_sum(c.drop_last()) + c.last().3
    }
}

/// Sum of the values of the tagged deaths on one side (`loss`).
pub open spec fn tagged_sum(s: Seq<(u32, u32, bool)>, loss: bool) -> int
    decreases s.len(),
{
    if s.len() == 0 {
        0
    } else {
        tagged_sum(s.drop_last(), loss) + if s.last().2 == loss {
            s.last().1 as int
        } else {
            0
        }
    }
}

/// Resource value of the deaths that are not structures.
pub open spec fn army_value_of(s: Seq<DeathEvent>) -> int
    decreases s.len(),
{
    if s.len() == 0 {
        0
    } else {
        army_value_of(s.drop_last()) + if s.last().category == EntityCategory::Structure {
            0
        } else {
            s.last().minerals + s.last().vespene
        }
    }
}

/// Clustering moves every value into exactly one engagement.
proof fn lemma_cluster_sums(s: Seq<(u32, u32, bool)>, gap: u32)
    ensures
        lost_sum(cluster_spec(s, gap)) == tagged_sum(s, true),
        killed_sum(cluster_spec(s, gap)) == tagged_sum(s, false),
    decreases s.len(),
{
    if s.len() > 0 {
        let d = s.drop_last();
        lemma_cluster_sums(d, gap);
        lemma_cluster_nonempty(d, gap);
        let prev = cluster_spec(d, gap);
        let c = cluster_spec(s, gap);
        let t = s.last();
        let add_l: int = if t.2 {
            t.1 as int
        } else {
            0
        };
        let add_k: int = if t.2 {
            0
        } else {
            t.1 as int
        };
        assert(tagged_sum(s, true) == tagged_sum(d, true) + add_l);
        assert(tagged_sum(s, false) == tagged_sum(d, false) + add_k);
        if s.len() == 1 || saturating_sub(t.0, s[s.len() - 2].0) > gap {
            let x = (t.0, t.0, add_l, add_k);
            assert(c == prev.push(x));
            assert(prev.push(x).drop_last() =~= prev);
        } else {
            let last = prev.last();
            let up = prev.update(prev.len() - 1, (last.0, t.0, last.2 + add_l, last.3 + add_k));
            assert(c == up);
            assert(up.drop_last() =~= prev.drop_last());
        }
    }
}

/// Sums of tagged values add over concatenation.
proof fn lemma_tagged_sum_concat(a: Seq<(u32, u32, bool)>, b: Seq<(u32, u32, bool)>, loss: bool)
    ensures
        tagged_sum(a + b, loss) == tagged_sum(a, loss) + tagged_sum(b, loss),
    decreases b.len(),
{
    if b.len() == 0 {
        assert(a + b =~= a);
    } else {
        lemma_tagged_sum_concat(a, b.drop_last(), loss);
        assert((a + b).drop_last() =~= a + b.drop_last());
    }
}

/// Inserting a tagged death adds its value once.
proof fn lemma_tagged_sum_insert(q: Seq<(u32, u32, bool)>, p: int, x: (u32, u32, bool), loss: bool)
    requires
        0 <= p <= q.len(),
    ensures
        tagged_sum(q.insert(p, x), loss) == tagged_sum(q, loss) + if x.2 == loss {
            x.1 as int
        } else {
            0
        },
    decreases q.len(),
{
    if p == q.len() {
        assert(q.insert(p, x) =~= q.push(x));
        assert(q.push(x).drop_last() =~= q);
    } else {
        lemma_tagged_sum_insert(q.drop_last(), p, x, loss);
        assert(q.insert(p, x).drop_last() =~= q.drop_last().insert(p, x));
    }
}

/// Sorting keeps the sums of tagged values.
proof fn lemma_tagged_sum_sort(s: Seq<(u32, u32, bool)>, loss: bool)
    ensures
        tagged_sum(sort_by_key_spec(s, by_tag_loop()), loss) == tagged_sum(s, loss),
    decreases s.len(),
{
    if s.len() > 0 {
        lemma_tagged_sum_sort(s.drop_last(), loss);
        let sorted = sort_by_key_spec(s.drop_last(), by_tag_loop());
        lemma_insert_pos_bounds(sorted, by_tag_loop(), by_tag_loop()(s.last()));
        lemma_tagged_sum_insert(sorted, insert_pos(sorted, by_tag_loop(), by_tag_loop()(s.last())), s.last(), loss);
    }
}

/// The tagged deaths of one side carry the army value of its deaths, and
/// nothing of the other side.
proof fn lemma_tagged_deaths_sum(s: Seq<DeathEvent>, side: bool, loss: bool)
    requires
        values_fit(s),
    ensures
        tagged_sum(tagged_deaths(s, side), loss) == if side == loss {
            army_value_of(s)
        } else {
            0
        },
    decreases s.len(),
{
    if s.len() > 0 {
        let d = s.drop_last();
        assert(values_fit(d)) by {
            assert forall|i: int|
                0 <= i < d.len() && (#[trigger] d[i]).category != EntityCategory::Structure implies d[i].minerals
                    + d[i].vespene <= u32::MAX by {
                assert(d[i] == s[i]);
            }
        }
        lemma_tagged_deaths_sum(d, side, loss);
        assert(s.last() == s[s.len() - 1]);
        let rest = tagged_deaths(d, side);
        if s.last().category != EntityCategory::Structure {
            let x = (s.last().game_loop, (s.last().minerals + s.last().vespene) as u32, side);
            assert(rest.push(x).drop_last() =~= rest);
        }
    }
}

/// Law of the engagements: they come in time order, each spanning from
/// its first to its last death, and a new one starts only more than
/// `gap_loops` after the previous one ended; together they account for
/// exactly the value of the analysed player's army losses and army kills
/// (structures left out), each death counted once.
pub proof fn lemma_engagements_partition(losses: Seq<DeathEvent>, kills: Seq<DeathEvent>, gap_loops: u32)
    requires
        values_fit(losses),
        values_fit(kills),
    ensures
        forall|k: int|
            0 <= k < engagements_spec(losses, kills, gap_loops).len() ==> (#[trigger] engagements_spec(
                losses,
                kills,
                gap_loops,
            )[k]).0 <= engagements_spec(losses, kills, gap_loops)[k].1,
        forall|k: int|
            0 <= k < engagements_spec(losses, kills, gap_loops).len() - 1 ==> (
            #[trigger] engagements_spec(losses, kills, gap_loops)[k + 1]).0 > engagements_spec(
                losses,
                kills,
                gap_loops,
            )[k].1 + gap_loops,
        lost_sum(engagements_spec(losses, kills, gap_loops)) == army_value_of(losses),
        killed_sum(engagements_spec(losses, kills, gap_loops)) == army_value_of(kills),
{
    let tagged = tagged_deaths(losses, true) + tagged_deaths(kills, false);
    let sorted = sort_by_key_spec(tagged, by_tag_loop());
    lemma_sort_by_key_sorted(tagged, by_tag_loop());
    lemma_cluster_shape(sorted, gap_loops);
    lemma_cluster_sums(sorted, gap_loops);
    lemma_tagged_sum_sort(tagged, true);
    lemma_tagged_sum_sort(tagged, false);
    lemma_tagged_sum_concat(tagged_deaths(losses, true), tagged_deaths(kills, false), true);
    lemma_tagged_sum_concat(tagged_deaths(losses, true), tagged_deaths(kills, false), false);
    lemma_tagged_deaths_sum(losses, true, true);
    lemma_tagged_deaths_sum(kills, false, true);
    lemma_tagged_deaths_sum(losses, true, false);
    lemma_tagged_deaths_sum(kills, false, false);
}




/// Among events whose deaths are all unattributed or by `a` or `b`, the
/// deaths by `a` are the losses of `b` (when `a != b`).
proof fn lemma_killed_by_is_losses(evs: Seq<EntityEvent>, a: u8, b: u8)
    requires
        a != b,
        forall|j: int|
            0 <= j < evs.len() && (#[trigger] evs[j]).kind == EntityEventKind::Died ==> evs[j].killer_player_id is None
                || evs[j].killer_player_id == Some(a) || evs[j].killer_player_id == Some(b),
    ensures
        killed_by(evs, a) == losses_spec(evs, b),
    decreases evs.len(),
{
    if evs.len() > 0 {
        let d = evs.drop_last();
        assert forall|j: int|
            0 <= j < d.len() && (#[trigger] d[j]).kind == EntityEventKind::Died implies d[j].killer_player_id is None
                || d[j].killer_player_id == Some(a) || d[j].killer_player_id == Some(b) by {
            assert(d[j] == evs[j]);
        }
        lemma_killed_by_is_losses(d, a, b);
        assert(evs.last() == evs[evs.len() - 1]);
    }
}

/// In a two-player game where every death of the second player is
/// unattributed or credited to one of the two players, the first
/// player's kills are exactly the second player's losses: both
/// `player_kills(.., 0, ..)` and `player_losses(.., 1, ..)` record the
/// same events in the same order.
pub proof fn lemma_two_player_kills_are_losses(players: Seq<crate::replay::PlayerTimeline>)
    requires
        players.len() == 2,
        players[0].player_id != players[1].player_id,
        forall|j: int|
            0 <= j < players[1].entity_events@.len() && (#[trigger] players[1].entity_events@[j]).kind
                == EntityEventKind::Died ==> players[1].entity_events@[j].killer_player_id is None
                || players[1].entity_events@[j].killer_player_id == Some(players[0].player_id)
                || players[1].entity_events@[j].killer_player_id == Some(players[1].player_id),
    ensures
        kills_spec(players, 0, players[0].player_id) == losses_spec(
            players[1].entity_events@,
            players[1].player_id,
        ),
        sort_by_key_spec(kills_spec(players, 0, players[0].player_id), by_event_loop())
            == sort_by_key_spec(
            losses_spec(players[1].entity_events@, players[1].player_id),
            by_event_loop(),
        ),
{
    let a = players[0].player_id;
    let b = players[1].player_id;
    let evs = players[1].entity_events@;
    assert forall|j: int|
        0 <= j < evs.len() && (#[trigger] evs[j]).kind == EntityEventKind::Died implies evs[j].killer_player_id is None
            || evs[j].killer_player_id == Some(a) || evs[j].killer_player_id == Some(b) by {
        assert(evs[j] == players[1].entity_events@[j]);
    }
    lemma_killed_by_is_losses(evs, a, b);
    let p1 = players.drop_last();
    assert(kills_spec(p1.drop_last(), 0, a) =~= Seq::empty());
    assert(kills_spec(p1, 0, a) =~= Seq::empty());
    assert(players.last() == players[1]);
    assert(kills_spec(players, 0, a) =~= Seq::<EntityEvent>::empty() + killed_by(evs, a));
}


/// Records of the same events under a valuation with one answer per input
/// say the same.
proof fn lemma_records_agree<F: Fn(&String, u32) -> (u32, u32)>(
    r1: Seq<DeathEvent>,
    r2: Seq<DeathEvent>,
    src: Seq<EntityEvent>,
    cost: F,
    base_build: u32,
)
    requires
        cost_ok(cost),
        records_all(r1, src, cost, base_build),
        records_all(r2, src, cost, base_build),
    ensures
        r1.map_values(|d: DeathEvent| death_view(d)) == r2.map_values(|d: DeathEvent| death_view(d)),
{
    assert forall|k: int| 0 <= k < r1.len() implies death_view(r1[k]) == death_view(r2[k]) by {
        assert(records_death(r1[k], src[k], cost, base_build));
        assert(records_death(r2[k], src[k], cost, base_build));
    }
    assert(r1.map_values(|d: DeathEvent| death_view(d)) =~= r2.map_values(|d: DeathEvent| death_view(d)));
}

/// In a two-player game where every death of the second player is
/// unattributed or credited to one of the two players, what `player_kills`
/// gives for the first player and what `player_losses` gives for the
/// second are the same records, field by field (types by their text), for
/// a valuation with one answer per input.
pub proof fn lemma_kills_equal_losses<F: Fn(&String, u32) -> (u32, u32)>(
    timeline: ReplayTimeline,
    cost: F,
    kills: Seq<DeathEvent>,
    losses: Seq<DeathEvent>,
)
    requires
        cost_ok(cost),
        timeline.players@.len() == 2,
        timeline.players@[0].player_id != timeline.players@[1].player_id,
        forall|j: int|
            0 <= j < timeline.players@[1].entity_events@.len() && (
            #[trigger] timeline.players@[1].entity_events@[j]).kind == EntityEventKind::Died
                ==> timeline.players@[1].entity_events@[j].killer_player_id is None
                || timeline.players@[1].entity_events@[j].killer_player_id == Some(
                timeline.players@[0].player_id,
            ) || timeline.players@[1].entity_events@[j].killer_player_id == Some(
                timeline.players@[1].player_id,
            ),
        records_all(
            kills,
            sort_by_key_spec(
                kills_spec(timeline.players@, 0, timeline.players@[0].player_id),
                by_event_loop(),
            ),
            cost,
            timeline.base_build,
        ),
        records_all(
            losses,
            sort_by_key_spec(
                losses_spec(timeline.players@[1].entity_events@, timeline.players@[1].player_id),
                by_event_loop(),
            ),
            cost,
            timeline.base_build,
        ),
    ensures
        kills.map_values(|d: DeathEvent| death_view(d)) == losses.map_values(
            |d: DeathEvent| death_view(d),
        ),
{
    lemma_two_player_kills_are_losses(timeline.players@);
    lemma_records_agree(
        kills,
        losses,
        sort_by_key_spec(
            losses_spec(timeline.players@[1].entity_events@, timeline.players@[1].player_id),
            by_event_loop(),
        ),
        cost,
        timeline.base_build,
    );
}

} // verus!
