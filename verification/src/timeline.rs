//! Timeline-tab analyses: the structure-attention metric (how long the
//! player's camera covered at least one of their own living structures),
//! townhall detection, and the scrubber/playback helpers.

use vstd::prelude::*;

use std::collections::HashMap;

use crate::replay::{cameras_sorted, CameraPosition, EntityCategory, EntityEvent, EntityEventKind, PlayerTimeline};
use crate::text::{has_prefix, str_starts_with};

verus! {

/// Half width of the camera viewport, in tiles (viewport is 24 wide).
pub const CAMERA_HALF_W_TILES: i32 = 12;

/// Half height of the camera viewport, in tiles (viewport is 14 high).
pub const CAMERA_HALF_H_TILES: i32 = 7;

/// An event that changes the set of living structures tracked by the
/// attention metric: a structure finishing or dying, creep tumours aside.
pub open spec fn is_tracked_structure_event(e: EntityEvent) -> bool {
    &&& (e.kind == EntityEventKind::ProductionFinished || e.kind == EntityEventKind::Died)
    &&& e.category == EntityCategory::Structure
    &&& !has_prefix(e.entity_type@, "CreepTumor"@)
}

/// Index reached from `k` after consuming every event that is either not
/// tracked or happens at or before loop `t`, stopping at the first
/// tracked event after `t`.
pub open spec fn advance_events(evs: Seq<EntityEvent>, k: nat, t: u32) -> nat
    decreases evs.len() - k,
{
    if k >= evs.len() {
        k
    } else if !is_tracked_structure_event(evs[k as int]) || evs[k as int].game_loop <= t {
        advance_events(evs, k + 1, t)
    } else {
        k
    }
}

/// Living structures (tag to tile position) after applying the first `k`
/// events: a tracked `ProductionFinished` inserts, a tracked `Died` removes.
pub open spec fn alive_structures(evs: Seq<EntityEvent>, k: nat) -> Map<i64, (u8, u8)>
    decreases k,
{
    if k == 0 || k > evs.len() {
        Map::empty()
    } else {
        let m = alive_structures(evs, (k - 1) as nat);
        let e = evs[k - 1];
        if !is_tracked_structure_event(e) {
            m
        } else if e.kind == EntityEventKind::ProductionFinished {
            m.insert(e.tag, (e.pos_x, e.pos_y))
        } else {
            m.remove(e.tag)
        }
    }
}

/// A structure at tile `(sx, sy)` lies inside the viewport centred on `cam`.
pub open spec fn in_viewport(sx: u8, sy: u8, cam: CameraPosition) -> bool {
    let dx = sx as int - cam.x as int;
    let dy = sy as int - cam.y as int;
    -CAMERA_HALF_W_TILES <= dx <= CAMERA_HALF_W_TILES && -CAMERA_HALF_H_TILES <= dy
        <= CAMERA_HALF_H_TILES
}

/// Some living structure in `alive` is inside the viewport of `cam`.
pub open spec fn covers(alive: Map<i64, (u8, u8)>, cam: CameraPosition) -> bool {
    exists|tag: i64| #[trigger]
        alive.dom().contains(tag) && in_viewport(alive[tag].0, alive[tag].1, cam)
}

/// Number of leading camera samples at or before `until` (the partition
/// point of a loop-sorted sample list).
pub open spec fn cameras_until(cams: Seq<CameraPosition>, until: u32) -> nat
    decreases cams.len(),
{
    if cams.len() == 0 || cams[0].game_loop > until {
        0
    } else {
        1 + cameras_until(cams.drop_first(), until)
    }
}

/// Loops covered by camera sample `i` of the first `n` samples: up to the
/// next sample (capped at `until + 1`), or to `until + 1` for the last one;
/// zero when the next sample is not later.
pub open spec fn sample_duration(cams: Seq<CameraPosition>, n: nat, i: nat, until: u32) -> nat {
    let next: int = if i + 1 < n {
        if cams[i + 1int].game_loop as int <= until as int + 1 {
            cams[i + 1int].game_loop as int
        } else {
            until as int + 1
        }
    } else {
        until as int + 1
    };
    if next > cams[i as int].game_loop as int {
        (next - cams[i as int].game_loop) as nat
    } else {
        0
    }
}

/// `(attention, elapsed)` accumulated over camera samples `i..n`, with the
/// event cursor at `k` when sample `i` is reached.
pub open spec fn attention_from(
    evs: Seq<EntityEvent>,
    cams: Seq<CameraPosition>,
    n: nat,
    until: u32,
    i: nat,
    k: nat,
) -> (nat, nat)
    decreases n - i,
{
    if i >= n || i >= cams.len() {
        (0, 0)
    } else {
        let k2 = advance_events(evs, k, cams[i as int].game_loop);
        let dur = sample_duration(cams, n, i, until);
        let rest = attention_from(evs, cams, n, until, i + 1, k2);
        let att: nat = if covers(alive_structures(evs, k2), cams[i as int]) {
            dur
        } else {
            0
        };
        (rest.0 + att, rest.1 + dur)
    }
}

/// The structure-attention metric of a player up to `until` (inclusive):
/// `(attention_loops, elapsed_loops)`.
pub open spec fn structure_attention_spec(p: PlayerTimeline, until: u32) -> (nat, nat) {
    let cams = p.camera_positions@;
    attention_from(p.entity_events@, cams, cameras_until(cams, until), until, 0, 0)
}

proof fn lemma_cameras_until_bounds(cams: Seq<CameraPosition>, until: u32)
    requires
        cameras_sorted(cams),
    ensures
        cameras_until(cams, until) <= cams.len(),
        forall|i: int| 0 <= i < cameras_until(cams, until) ==> cams[i].game_loop <= until,
        cameras_until(cams, until) < cams.len() ==> cams[cameras_until(cams, until) as int].game_loop
            > until,
    decreases cams.len(),
{
    if cams.len() == 0 || cams[0].game_loop > until {
    } else {
        let rest = cams.drop_first();
        assert(cameras_sorted(rest)) by {
            assert forall|i: int, j: int| 0 <= i <= j < rest.len() implies rest[i].game_loop
                <= rest[j].game_loop by {
                assert(rest[i] == cams[i + 1]);
                assert(rest[j] == cams[j + 1]);
            }
        }
        lemma_cameras_until_bounds(rest, until);
        assert forall|i: int| 0 <= i < cameras_until(cams, until) implies cams[i].game_loop
            <= until by {
            if i > 0 {
                assert(cams[i] == rest[i - 1]);
            }
        }
        if cameras_until(cams, until) < cams.len() {
            assert(cams[cameras_until(cams, until) as int] == rest[cameras_until(rest, until) as int]);
        }
    }
}

/// Over sorted samples that all lie at or before `until`, the elapsed
/// total from sample `i` is `until + 1 - cams[i]`, and attention never
/// exceeds it.
proof fn lemma_attention_totals(
    evs: Seq<EntityEvent>,
    cams: Seq<CameraPosition>,
    n: nat,
    until: u32,
    i: nat,
    k: nat,
)
    requires
        cameras_sorted(cams),
        n <= cams.len(),
        forall|j: int| 0 <= j < n ==> cams[j].game_loop <= until,
        i < n,
    ensures
        attention_from(evs, cams, n, until, i, k).1 == until as int + 1 - cams[i as int].game_loop,
        attention_from(evs, cams, n, until, i, k).0 <= attention_from(evs, cams, n, until, i, k).1,
    decreases n - i,
{
    let k2 = advance_events(evs, k, cams[i as int].game_loop);
    let dur = sample_duration(cams, n, i, until);
    if i + 1 < n {
        assert(cams[i as int].game_loop <= cams[i + 1int].game_loop);
        assert(cams[i + 1int].game_loop <= until);
        assert(dur == cams[i + 1int].game_loop - cams[i as int].game_loop);
        lemma_attention_totals(evs, cams, n, until, i + 1, k2);
    } else {
        assert(cams[i as int].game_loop <= until);
        assert(dur == until + 1 - cams[i as int].game_loop);
        assert(attention_from(evs, cams, n, until, i + 1, k2) == (0nat, 0nat));
    }
}

/// Attention never exceeds elapsed time, from any sample on.
proof fn lemma_attention_le_elapsed(
    evs: Seq<EntityEvent>,
    cams: Seq<CameraPosition>,
    n: nat,
    until: u32,
    i: nat,
    k: nat,
)
    ensures
        attention_from(evs, cams, n, until, i, k).0 <= attention_from(evs, cams, n, until, i, k).1,
    decreases n - i,
{
    if i < n && i < cams.len() {
        let k2 = advance_events(evs, k, cams[i as int].game_loop);
        lemma_attention_le_elapsed(evs, cams, n, until, i + 1, k2);
    }
}

/// From sample `i` on, the metric up to `u2` gains over the metric up to
/// `u1 <= u2` no more attention than elapsed time, and loses neither.
proof fn lemma_attention_from_monotone(
    evs: Seq<EntityEvent>,
    cams: Seq<CameraPosition>,
    u1: u32,
    u2: u32,
    i: nat,
    k: nat,
)
    requires
        cameras_sorted(cams),
        u1 <= u2,
        cameras_until(cams, u1) <= cameras_until(cams, u2) <= cams.len(),
        forall|j: int| 0 <= j < cameras_until(cams, u2) ==> cams[j].game_loop <= u2,
        cameras_until(cams, u1) < cams.len() ==> cams[cameras_until(cams, u1) as int].game_loop > u1,
        forall|j: int| 0 <= j < cameras_until(cams, u1) ==> cams[j].game_loop <= u1,
    ensures
        ({
            let a = attention_from(evs, cams, cameras_until(cams, u1), u1, i, k);
            let b = attention_from(evs, cams, cameras_until(cams, u2), u2, i, k);
            a.0 <= b.0 && a.1 <= b.1 && b.0 - a.0 <= b.1 - a.1
        }),
    decreases cams.len() - i,
{
    let n1 = cameras_until(cams, u1);
    let n2 = cameras_until(cams, u2);
    if i >= n1 {
        lemma_attention_le_elapsed(evs, cams, n2, u2, i, k);
    } else {
        let k2 = advance_events(evs, k, cams[i as int].game_loop);
        lemma_attention_from_monotone(evs, cams, u1, u2, i + 1, k2);
        let d1 = sample_duration(cams, n1, i, u1);
        let d2 = sample_duration(cams, n2, i, u2);
        assert(cams[i as int].game_loop <= u1);
        if i + 1 < n1 {
            assert(cams[i + 1int].game_loop <= u1);
            assert(d1 == d2);
        } else if i + 1 < n2 {
            assert(cams[i + 1int].game_loop > u1);
            assert(d1 <= d2);
        } else {
            assert(d1 <= d2);
        }
    }
}

/// The structure-attention metric only grows with the end loop, and the
/// attention it gains is at most the time it gains: for `u1 <= u2`,
/// `attention(u1) <= attention(u2)`, `elapsed(u1) <= elapsed(u2)` and
/// `attention(u2) - attention(u1) <= elapsed(u2) - elapsed(u1)`.
pub proof fn lemma_attention_monotone(p: PlayerTimeline, u1: u32, u2: u32)
    requires
        cameras_sorted(p.camera_positions@),
        u1 <= u2,
    ensures
        structure_attention_spec(p, u1).0 <= structure_attention_spec(p, u2).0,
        structure_attention_spec(p, u1).1 <= structure_attention_spec(p, u2).1,
        structure_attention_spec(p, u2).0 - structure_attention_spec(p, u1).0
            <= structure_attention_spec(p, u2).1 - structure_attention_spec(p, u1).1,
{
    let cams = p.camera_positions@;
    lemma_cameras_until_bounds(cams, u1);
    lemma_cameras_until_bounds(cams, u2);
    let n1 = cameras_until(cams, u1);
    let n2 = cameras_until(cams, u2);
    if n2 < n1 {
        assert(cams[n2 as int].game_loop <= u1);
    }
    lemma_attention_from_monotone(p.entity_events@, cams, u1, u2, 0, 0);
}

/// The leading samples counted up to `until` are all at or before it.
proof fn lemma_cameras_until_le(cams: Seq<CameraPosition>, until: u32)
    ensures
        cameras_until(cams, until) <= cams.len(),
        forall|i: int| 0 <= i < cameras_until(cams, until) ==> cams[i].game_loop <= until,
    decreases cams.len(),
{
    if cams.len() > 0 && cams[0].game_loop <= until {
        let rest = cams.drop_first();
        lemma_cameras_until_le(rest, until);
        assert forall|i: int| 0 <= i < cameras_until(cams, until) implies cams[i].game_loop <= until by {
            if i > 0 {
                assert(cams[i] == rest[i - 1]);
            }
        }
    }
}

/// Advancing the event cursor to loop `t` consumes only events that are
/// not tracked or happen at or before `t`.
proof fn lemma_advance_consumes(evs: Seq<EntityEvent>, k: nat, t: u32)
    requires
        k <= evs.len(),
    ensures
        k <= advance_events(evs, k, t) <= evs.len(),
        forall|j: int|
            k <= j < advance_events(evs, k, t) ==> !is_tracked_structure_event(#[trigger] evs[j])
                || evs[j].game_loop <= t,
    decreases evs.len() - k,
{
    if k < evs.len() && (!is_tracked_structure_event(evs[k as int]) || evs[k as int].game_loop <= t) {
        lemma_advance_consumes(evs, k + 1, t);
    }
}

/// Without a tracked structure finish among the first `k` events, no
/// structure is alive after them.
proof fn lemma_none_alive(evs: Seq<EntityEvent>, k: nat)
    requires
        k <= evs.len(),
        forall|j: int|
            0 <= j < k ==> !(is_tracked_structure_event(#[trigger] evs[j]) && evs[j].kind
                == EntityEventKind::ProductionFinished),
    ensures
        alive_structures(evs, k) =~= Map::<i64, (u8, u8)>::empty(),
    decreases k,
{
    if k > 0 {
        lemma_none_alive(evs, (k - 1) as nat);
        assert(!(is_tracked_structure_event(evs[k - 1]) && evs[k - 1].kind
            == EntityEventKind::ProductionFinished));
    }
}

/// From sample `i` on, no attention accrues while no structure that
/// finishes by `until` exists.
proof fn lemma_attention_zero(
    evs: Seq<EntityEvent>,
    cams: Seq<CameraPosition>,
    n: nat,
    until: u32,
    i: nat,
    k: nat,
)
    requires
        n <= cams.len(),
        forall|j: int| 0 <= j < n ==> cams[j].game_loop <= until,
        k <= evs.len(),
        forall|j: int|
            0 <= j < k ==> !(is_tracked_structure_event(#[trigger] evs[j]) && evs[j].kind
                == EntityEventKind::ProductionFinished),
        forall|j: int|
            0 <= j < evs.len() && (#[trigger] evs[j]).kind == EntityEventKind::ProductionFinished
                && evs[j].category == EntityCategory::Structure ==> evs[j].game_loop > until,
    ensures
        attention_from(evs, cams, n, until, i, k).0 == 0,
    decreases n - i,
{
    if i < n && i < cams.len() {
        let t = cams[i as int].game_loop;
        let k2 = advance_events(evs, k, t);
        lemma_advance_consumes(evs, k, t);
        assert forall|j: int|
            0 <= j < k2 implies !(is_tracked_structure_event(#[trigger] evs[j]) && evs[j].kind
                == EntityEventKind::ProductionFinished) by {
            if j >= k {
                assert(!is_tracked_structure_event(evs[j]) || evs[j].game_loop <= t);
            }
        }
        lemma_none_alive(evs, k2);
        lemma_attention_zero(evs, cams, n, until, i + 1, k2);
    }
}

/// Only finished structures draw attention: a structure is alive from its
/// `ProductionFinished` on, so while none of the player's structures has
/// finished by `until` (started ones included), the attention is zero,
/// whatever the camera did.
pub proof fn lemma_no_finished_structure_no_attention(p: PlayerTimeline, until: u32)
    requires
        forall|j: int|
            0 <= j < p.entity_events@.len() && (#[trigger] p.entity_events@[j]).kind
                == EntityEventKind::ProductionFinished && p.entity_events@[j].category
                == EntityCategory::Structure ==> p.entity_events@[j].game_loop > until,
    ensures
        structure_attention_spec(p, until).0 == 0,
{
    let cams = p.camera_positions@;
    lemma_cameras_until_le(cams, until);
    lemma_attention_zero(p.entity_events@, cams, cameras_until(cams, until), until, 0, 0);
}

/// With loop-ordered events, advancing to a loop at or after event `f`'s
/// goes past it.
proof fn lemma_advance_past(evs: Seq<EntityEvent>, k: nat, t: u32, f: int)
    requires
        forall|i: int, j: int| 0 <= i <= j < evs.len() ==> evs[i].game_loop <= evs[j].game_loop,
        k <= f < evs.len(),
        evs[f].game_loop <= t,
    ensures
        advance_events(evs, k, t) > f,
    decreases evs.len() - k,
{
    assert(evs[k as int].game_loop <= evs[f].game_loop);
    if k < f {
        lemma_advance_past(evs, k + 1, t, f);
    } else {
        lemma_advance_consumes(evs, k + 1, t);
    }
}

/// A structure finished at event `f`, whose tag no other event carries,
/// is alive at its position after every later prefix.
proof fn lemma_alive_after(evs: Seq<EntityEvent>, k: nat, f: int)
    requires
        0 <= f < k <= evs.len(),
        is_tracked_structure_event(evs[f]),
        evs[f].kind == EntityEventKind::ProductionFinished,
        forall|j: int| 0 <= j < evs.len() && j != f ==> (#[trigger] evs[j]).tag != evs[f].tag,
    ensures
        alive_structures(evs, k).dom().contains(evs[f].tag),
        alive_structures(evs, k)[evs[f].tag] == (evs[f].pos_x, evs[f].pos_y),
    decreases k,
{
    if k > f + 1 {
        lemma_alive_after(evs, (k - 1) as nat, f);
        assert(evs[k - 1].tag != evs[f].tag);
    }
}

/// From sample `i` on, every sample sees the structure of event `f`, so
/// all elapsed time is attention.
proof fn lemma_attention_full(
    evs: Seq<EntityEvent>,
    cams: Seq<CameraPosition>,
    n: nat,
    until: u32,
    i: nat,
    k: nat,
    f: int,
)
    requires
        n <= cams.len(),
        k <= evs.len(),
        0 <= f < evs.len(),
        forall|a: int, b: int| 0 <= a <= b < evs.len() ==> evs[a].game_loop <= evs[b].game_loop,
        is_tracked_structure_event(evs[f]),
        evs[f].kind == EntityEventKind::ProductionFinished,
        forall|j: int| 0 <= j < evs.len() && j != f ==> (#[trigger] evs[j]).tag != evs[f].tag,
        forall|c: int|
            0 <= c < n ==> evs[f].game_loop <= (#[trigger] cams[c]).game_loop && in_viewport(
                evs[f].pos_x,
                evs[f].pos_y,
                cams[c],
            ),
    ensures
        attention_from(evs, cams, n, until, i, k).0 == attention_from(evs, cams, n, until, i, k).1,
    decreases n - i,
{
    if i < n && i < cams.len() {
        let cam = cams[i as int];
        let k2 = advance_events(evs, k, cam.game_loop);
        lemma_advance_consumes(evs, k, cam.game_loop);
        if k <= f {
            lemma_advance_past(evs, k, cam.game_loop, f);
        }
        lemma_alive_after(evs, k2, f);
        let m = alive_structures(evs, k2);
        assert(m.dom().contains(evs[f].tag) && in_viewport(m[evs[f].tag].0, m[evs[f].tag].1, cam));
        assert(covers(m, cam));
        lemma_attention_full(evs, cams, n, until, i + 1, k2, f);
    }
}

/// A structure in view is attention: with loop-ordered events, if one of
/// the player's structures (not a creep tumour) finished no later than
/// every camera sample up to `until`, never died nor changed (no other
/// event carries its tag), and every such sample's 24x14-tile viewport
/// contains its tile, then all elapsed time is attention.
pub proof fn lemma_watched_structure_full_attention(p: PlayerTimeline, until: u32, f: int)
    requires
        0 <= f < p.entity_events@.len(),
        forall|a: int, b: int|
            0 <= a <= b < p.entity_events@.len() ==> p.entity_events@[a].game_loop
                <= p.entity_events@[b].game_loop,
        p.entity_events@[f].kind == EntityEventKind::ProductionFinished,
        p.entity_events@[f].category == EntityCategory::Structure,
        !"CreepTumor"@.is_prefix_of(p.entity_events@[f].entity_type@),
        forall|j: int|
            0 <= j < p.entity_events@.len() && j != f ==> (#[trigger] p.entity_events@[j]).tag
                != p.entity_events@[f].tag,
        forall|c: int|
            0 <= c < p.camera_positions@.len() && (#[trigger] p.camera_positions@[c]).game_loop <= until
                ==> {
                let cam = p.camera_positions@[c];
                let e = p.entity_events@[f];
                &&& e.game_loop <= cam.game_loop
                &&& -12 <= e.pos_x as int - cam.x as int <= 12
                &&& -7 <= e.pos_y as int - cam.y as int <= 7
            },
    ensures
        structure_attention_spec(p, until).0 == structure_attention_spec(p, until).1,
{
    let cams = p.camera_positions@;
    let evs = p.entity_events@;
    lemma_cameras_until_le(cams, until);
    let n = cameras_until(cams, until);
    assert forall|c: int|
        0 <= c < n implies evs[f].game_loop <= (#[trigger] cams[c]).game_loop && in_viewport(
            evs[f].pos_x,
            evs[f].pos_y,
            cams[c],
        ) by {
        assert(cams[c].game_loop <= until);
    }
    lemma_attention_full(evs, cams, n, until, 0, 0, f);
}

/// With one tracked structure finish (event `f`), the living set holds at
/// most that structure, and none once its death (event `d`) is applied.
proof fn lemma_alive_until_death(evs: Seq<EntityEvent>, k: nat, f: int, d: int)
    requires
        k <= evs.len(),
        0 <= f < d < evs.len(),
        forall|j: int|
            0 <= j < evs.len() && j != f ==> !(is_tracked_structure_event(#[trigger] evs[j])
                && evs[j].kind == EntityEventKind::ProductionFinished),
        is_tracked_structure_event(evs[d]),
        evs[d].kind == EntityEventKind::Died,
        evs[d].tag == evs[f].tag,
    ensures
        forall|tag: i64| #[trigger] alive_structures(evs, k).dom().contains(tag) ==> tag == evs[f].tag,
        k > d ==> alive_structures(evs, k).dom() =~= Set::<i64>::empty(),
    decreases k,
{
    if k > 0 {
        lemma_alive_until_death(evs, (k - 1) as nat, f, d);
        let m = alive_structures(evs, (k - 1) as nat);
        let e = evs[k - 1];
        if k - 1 != f {
            assert(!(is_tracked_structure_event(e) && e.kind == EntityEventKind::ProductionFinished));
        }
        if k - 1 == d {
            assert(alive_structures(evs, k) == m.remove(evs[f].tag));
        }
    }
}

/// From sample `i` on, with the only structure already dead at every
/// sample, no attention accrues.
proof fn lemma_attention_after_death(
    evs: Seq<EntityEvent>,
    cams: Seq<CameraPosition>,
    n: nat,
    until: u32,
    i: nat,
    k: nat,
    f: int,
    d: int,
)
    requires
        n <= cams.len(),
        k <= evs.len(),
        0 <= f < d < evs.len(),
        forall|a: int, b: int| 0 <= a <= b < evs.len() ==> evs[a].game_loop <= evs[b].game_loop,
        forall|j: int|
            0 <= j < evs.len() && j != f ==> !(is_tracked_structure_event(#[trigger] evs[j])
                && evs[j].kind == EntityEventKind::ProductionFinished),
        is_tracked_structure_event(evs[d]),
        evs[d].kind == EntityEventKind::Died,
        evs[d].tag == evs[f].tag,
        forall|c: int| 0 <= c < n ==> evs[d].game_loop <= (#[trigger] cams[c]).game_loop,
    ensures
        attention_from(evs, cams, n, until, i, k).0 == 0,
    decreases n - i,
{
    if i < n && i < cams.len() {
        let cam = cams[i as int];
        let k2 = advance_events(evs, k, cam.game_loop);
        lemma_advance_consumes(evs, k, cam.game_loop);
        if k <= d {
            lemma_advance_past(evs, k, cam.game_loop, d);
        }
        lemma_alive_until_death(evs, k2, f, d);
        lemma_attention_after_death(evs, cams, n, until, i + 1, k2, f, d);
    }
}

/// A dead structure draws no attention: with loop-ordered events, if the
/// player's only structure finish (not a creep tumour) is followed by that
/// structure's death no later than every camera sample up to `until`,
/// the attention is zero, wherever the camera looked.
pub proof fn lemma_dead_structure_no_attention(p: PlayerTimeline, until: u32, f: int, d: int)
    requires
        0 <= f < d < p.entity_events@.len(),
        forall|a: int, b: int|
            0 <= a <= b < p.entity_events@.len() ==> p.entity_events@[a].game_loop
                <= p.entity_events@[b].game_loop,
        forall|j: int|
            0 <= j < p.entity_events@.len() && j != f ==> !((#[trigger] p.entity_events@[j]).kind
                == EntityEventKind::ProductionFinished && p.entity_events@[j].category
                == EntityCategory::Structure),
        p.entity_events@[d].kind == EntityEventKind::Died,
        p.entity_events@[d].category == EntityCategory::Structure,
        !"CreepTumor"@.is_prefix_of(p.entity_events@[d].entity_type@),
        p.entity_events@[d].tag == p.entity_events@[f].tag,
        forall|c: int|
            0 <= c < p.camera_positions@.len() && (#[trigger] p.camera_positions@[c]).game_loop <= until
                ==> p.entity_events@[d].game_loop <= p.camera_positions@[c].game_loop,
    ensures
        structure_attention_spec(p, until).0 == 0,
{
    let cams = p.camera_positions@;
    let evs = p.entity_events@;
    lemma_cameras_until_le(cams, until);
    let n = cameras_until(cams, until);
    assert forall|c: int| 0 <= c < n implies evs[d].game_loop <= (#[trigger] cams[c]).game_loop by {
        assert(cams[c].game_loop <= until);
    }
    assert forall|j: int|
        0 <= j < evs.len() && j != f implies !(is_tracked_structure_event(#[trigger] evs[j])
            && evs[j].kind == EntityEventKind::ProductionFinished) by {
        assert(!(evs[j].kind == EntityEventKind::ProductionFinished && evs[j].category
            == EntityCategory::Structure));
    }
    lemma_attention_after_death(evs, cams, n, until, 0, 0, f, d);
}

/// Structure-attention metric of player `p` up to `until_loop` (inclusive).
///
/// Walks the camera samples at or before `until_loop`; each covers the
/// loops up to the next sample (or `until_loop + 1` for the last). A sample
/// counts as attention when its 24x14-tile viewport contains at least one
/// living own structure (creep tumours excluded), structure births and
/// deaths at or before the sample's loop already applied. Returns
/// `(attention_loops, elapsed_loops)`; `(0, 0)` without camera samples.
pub fn structure_attention_at(p: &PlayerTimeline, until_loop: u32) -> (r: (u32, u32))
    requires
        cameras_sorted(p.camera_positions@),
        until_loop == u32::MAX ==> p.camera_positions@.len() == 0,
    ensures
        r.0 == structure_attention_spec(*p, until_loop).0,
        r.1 == structure_attention_spec(*p, until_loop).1,
        r.0 <= r.1,
        p.camera_positions@.len() > 0 && p.camera_positions@[0].game_loop <= until_loop ==> r.1
            == until_loop as int + 1 - p.camera_positions@[0].game_loop,
{
    let cams = &p.camera_positions;
    let evs = &p.entity_events;
    proof {
        lemma_cameras_until_bounds(cams@, until_loop);
    }
    // Partition point: samples are sorted, so this is the first sample
    // after `until_loop`.
    let mut end_idx: usize = 0;
    while end_idx < cams.len() && cams[end_idx].game_loop <= until_loop
        invariant
            end_idx <= cams@.len(),
            end_idx <= cameras_until(cams@, until_loop),
            cameras_until(cams@, until_loop) <= cams@.len(),
            forall|i: int| 0 <= i < cameras_until(cams@, until_loop) ==> cams@[i].game_loop
                <= until_loop,
            cameras_until(cams@, until_loop) < cams@.len() ==> cams@[cameras_until(
                cams@,
                until_loop,
            ) as int].game_loop > until_loop,
        decreases cams@.len() - end_idx,
    {
        end_idx = end_idx + 1;
    }
    let ghost n = cameras_until(cams@, until_loop);
    assert(end_idx == n);
    if end_idx == 0 {
        return (0, 0);
    }
    proof {
        lemma_attention_totals(evs@, cams@, n, until_loop, 0, 0);
    }
    // Living structures: tag to tile position.
    let mut alive: HashMap<i64, (u8, u8)> = HashMap::new();
    let mut k: usize = 0;
    let mut attention_loops: u32 = 0;
    let mut elapsed_loops: u32 = 0;
    let mut i: usize = 0;
    while i < end_idx
        invariant
            end_idx == n,
            n <= cams@.len(),
            0 < n,
            cameras_sorted(cams@),
            forall|j: int| 0 <= j < n ==> cams@[j].game_loop <= until_loop,
            until_loop < u32::MAX,
            i <= n,
            k <= evs@.len(),
            alive@ == alive_structures(evs@, k as nat),
            i < n ==> attention_from(evs@, cams@, n, until_loop, 0, 0).0 == attention_loops
                + attention_from(evs@, cams@, n, until_loop, i as nat, k as nat).0,
            i < n ==> attention_from(evs@, cams@, n, until_loop, 0, 0).1 == elapsed_loops
                + attention_from(evs@, cams@, n, until_loop, i as nat, k as nat).1,
            i == n ==> attention_from(evs@, cams@, n, until_loop, 0, 0).0 == attention_loops,
            i == n ==> attention_from(evs@, cams@, n, until_loop, 0, 0).1 == elapsed_loops,
            attention_from(evs@, cams@, n, until_loop, 0, 0).1 == until_loop as int + 1
                - cams@[0].game_loop,
            attention_from(evs@, cams@, n, until_loop, 0, 0).0 <= attention_from(
                evs@,
                cams@,
                n,
                until_loop,
                0,
                0,
            ).1,
        decreases n - i,
    {
        let cam = cams[i];
        let ghost k0 = k as nat;
        // Apply every structure birth/death at or before this sample.
        while k < evs.len() && (!tracked_event(&evs[k]) || evs[k].game_loop <= cam.game_loop)
            invariant
                k0 <= k <= evs@.len(),
                advance_events(evs@, k as nat, cam.game_loop) == advance_events(
                    evs@,
                    k0,
                    cam.game_loop,
                ),
                alive@ == alive_structures(evs@, k as nat),
            decreases evs@.len() - k,
        {
            let ev = &evs[k];
            if tracked_event(ev) {
                if ev.kind == EntityEventKind::ProductionFinished {
                    alive.insert(ev.tag, (ev.pos_x, ev.pos_y));
                } else {
                    alive.remove(&ev.tag);
                }
            }
            k = k + 1;
        }
        assert(advance_events(evs@, k as nat, cam.game_loop) == k);
        let ghost dur_spec = sample_duration(cams@, n, i as nat, until_loop);
        let next_loop: u32 = if i + 1 < end_idx {
            let nl = cams[i + 1].game_loop;
            if nl <= until_loop + 1 {
                nl
            } else {
                until_loop + 1
            }
        } else {
            until_loop + 1
        };
        let dur: u32 = if next_loop > cam.game_loop {
            next_loop - cam.game_loop
        } else {
            0
        };
        assert(dur == dur_spec);
        proof {
            lemma_attention_totals(evs@, cams@, n, until_loop, i as nat, k0);
            if i + 1 < n {
                lemma_attention_totals(evs@, cams@, n, until_loop, (i + 1) as nat, k as nat);
            }
        }
        let c = alive_covers(&alive, cam);
        if dur > 0 {
            elapsed_loops = elapsed_loops + dur;
            if c {
                attention_loops = attention_loops + dur;
            }
        }
        proof {
            if i + 1 == n {
                assert(attention_from(evs@, cams@, n, until_loop, (i + 1) as nat, k as nat) == (
                    0nat,
                    0nat,
                ));
            }
        }
        i = i + 1;
    }
    (attention_loops, elapsed_loops)
}

/// Executable form of [`is_tracked_structure_event`].
fn tracked_event(e: &EntityEvent) -> (r: bool)
    ensures
        r == is_tracked_structure_event(*e),
{
    (e.kind == EntityEventKind::ProductionFinished || e.kind == EntityEventKind::Died)
        && e.category == EntityCategory::Structure && !str_starts_with(
        e.entity_type.as_str(),
        "CreepTumor",
    )
}

/// Whether some living structure of `alive` is inside the viewport of `cam`.
fn alive_covers(alive: &HashMap<i64, (u8, u8)>, cam: CameraPosition) -> (r: bool)
    ensures
        r == covers(alive@, cam),
{
    broadcast use vstd::std_specs::hash::group_hash_axioms;

    let cx: i32 = cam.x as i32;
    let cy: i32 = cam.y as i32;
    let ghost vals = alive@.values();
    let ghost mut seen: Seq<(u8, u8)> = Seq::empty();
    for pos in it: alive.values()
        invariant
            cx == cam.x,
            cy == cam.y,
            it.seq().unref().to_set() == vals,
            vals == alive@.values(),
            seen == it.seq().subrange(0, it.index()).unref(),
            forall|a: int| 0 <= a < seen.len() ==> !in_viewport(#[trigger] seen[a].0, seen[a].1, cam),
            it.index() == it.seq().len() ==> seen.to_set() == vals,
    {
        let (sx, sy) = *pos;
        let dx: i32 = sx as i32 - cx;
        let dy: i32 = sy as i32 - cy;
        if -CAMERA_HALF_W_TILES <= dx && dx <= CAMERA_HALF_W_TILES && -CAMERA_HALF_H_TILES <= dy
            && dy <= CAMERA_HALF_H_TILES {
            proof {
                let s = it.seq().unref();
                assert(s[it.index()] == *pos);
                assert(s.to_set().contains(*pos));
                let tag = choose|tag: i64| alive@.dom().contains(tag) && alive@[tag] == *pos;
                assert(alive@.dom().contains(tag) && in_viewport(alive@[tag].0, alive@[tag].1, cam));
            }
            return true;
        }
        proof {
            seen = seen.push(*pos);
        }
        assert(seen =~= it.seq().subrange(0, it.index() + 1).unref());
        assert(it.index() + 1 == it.seq().len() ==> seen =~= it.seq().unref());
    }
    assert(!covers(alive@, cam)) by {
        if covers(alive@, cam) {
            let tag = choose|tag: i64|
                #[trigger] alive@.dom().contains(tag) && in_viewport(alive@[tag].0, alive@[tag].1, cam);
            assert(vals.contains(alive@[tag]));
            assert(seen.to_set().contains(alive@[tag]));
            let a = choose|a: int| 0 <= a < seen.len() && seen[a] == alive@[tag];
            assert(!in_viewport(seen[a].0, seen[a].1, cam));
        }
    }
    false
}

} // verus!
