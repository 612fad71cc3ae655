//! The chart views' state and computations: display options, the
//! classification and canonical names of unit types, samples of the
//! alive-count and army-value series at a loop, the effective end of the
//! timeline and the parallel tracks of production blocks.

use vstd::prelude::*;
use vstd::string::StringSliceAdditionalSpecFns;

use crate::replay::ArmySnapshot;
use crate::series::{army_loops, keys_sorted, last_army_at, last_le, last_pair_at, pair_loops};
use crate::sorting::{insert_pos, sort_by_key_spec};
use crate::text::{has_prefix, str_eq, str_starts_with};

verus! {

/// Metric on the Y axis of the army chart.
#[derive(Clone, Copy, Debug, PartialEq, Eq, Structural)]
pub enum ChartMetric {
    /// Minerals plus gas (aggregate) or supply contribution (per type).
    Value,
    /// Number of living entities.
    Count,
}

/// Display options of the army chart, kept across tab switches.
#[derive(Clone, Copy, Debug)]
pub struct ArmyChartOptions {
    pub metric: ChartMetric,
    /// Army units count in the aggregate.
    pub show_army: bool,
    /// Workers count in the aggregate.
    pub show_workers: bool,
    /// One line per unit type instead of one per player.
    pub group_by_type: bool,
    /// Player shown in the per-type mode.
    pub grouped_player: usize,
    /// Minor grid lines between the labelled ticks.
    pub show_minor_grid: bool,
}

impl Default for ArmyChartOptions {
    fn default() -> (r: Self)
        ensures
            r.metric == ChartMetric::Value,
            r.show_army,
            !r.show_workers,
            !r.group_by_type,
            r.grouped_player == 0,
            r.show_minor_grid,
    {
        ArmyChartOptions {
            metric: ChartMetric::Value,
            show_army: true,
            show_workers: false,
            group_by_type: false,
            grouped_player: 0,
            show_minor_grid: true,
        }
    }
}

/// Which production the production chart shows.
#[derive(Clone, Copy, Debug, PartialEq, Eq, Structural)]
pub enum ProductionView {
    Workers,
    Army,
    Research,
    Upgrades,
}

impl Default for ProductionView {
    fn default() -> (r: Self)
        ensures
            r == ProductionView::Workers,
    {
        ProductionView::Workers
    }
}

/// State of the production chart: view, player and visible window
/// (`None` fits the whole game).
#[derive(Clone, Copy, Debug)]
pub struct ProductionChartOptions {
    pub view: ProductionView,
    pub selected_player: usize,
    pub viewport: Option<(u32, u32)>,
}

impl Default for ProductionChartOptions {
    fn default() -> (r: Self)
        ensures
            r.view == ProductionView::Workers,
            r.selected_player == 0,
            r.viewport is None,
    {
        ProductionChartOptions { view: ProductionView::Workers, selected_player: 0, viewport: None }
    }
}

/// State of the worker-production chart: player and visible window in
/// game loops (`None` fits `[0, effective end]`).
#[derive(Clone, Copy, Debug)]
pub struct WorkerProductionOptions {
    pub selected_player: usize,
    pub view: Option<(u32, u32)>,
}

impl Default for WorkerProductionOptions {
    fn default() -> (r: Self)
        ensures
            r.selected_player == 0,
            r.view is None,
    {
        WorkerProductionOptions { selected_player: 0, view: None }
    }
}

/// Category of a unit type for the plot.
#[derive(Clone, Copy, Debug, PartialEq, Eq, Structural)]
pub enum TypeKind {
    Worker,
    Army,
    /// Structures and creep tumors, left out of the plot.
    Skip,
}

/// Category of `name` given what the replay's classifiers say of it:
/// workers first, then structures and creep tumors (which the structure
/// classifier does not recognise by name) are skipped, the rest is army.
pub open spec fn type_kind_spec(name: Seq<char>, worker_name: bool, structure_name: bool) -> TypeKind {
    if worker_name {
        TypeKind::Worker
    } else if structure_name || has_prefix(name, "CreepTumor"@) {
        TypeKind::Skip
    } else {
        TypeKind::Army
    }
}

/// Category of the unit type `name`; `worker_name` and `structure_name`
/// are the replay classifiers' verdicts on it.
pub fn type_kind(name: &str, worker_name: bool, structure_name: bool) -> (r: TypeKind)
    ensures
        r == type_kind_spec(name@, worker_name, structure_name),
{
    if worker_name {
        TypeKind::Worker
    } else if structure_name || str_starts_with(name, "CreepTumor") {
        TypeKind::Skip
    } else {
        TypeKind::Army
    }
}

/// Canonical (active-form) name of a unit with alternative forms; other
/// names are their own canonical name.
pub open spec fn canonical_unit_spec(name: Seq<char>) -> Seq<char> {
    if name == "ObserverSiegeMode"@ {
        "Observer"@
    } else if name == "OverseerSiegeMode"@ {
        "Overseer"@
    } else if name == "SiegeTankSieged"@ {
        "SiegeTank"@
    } else if name == "VikingAssault"@ {
        "VikingFighter"@
    } else if name == "WidowMineBurrowed"@ {
        "WidowMine"@
    } else if name == "Hellbat"@ {
        "Hellion"@
    } else if name == "WarpPrismPhasing"@ {
        "WarpPrism"@
    } else if name == "RoachBurrowed"@ {
        "Roach"@
    } else if name == "ZerglingBurrowed"@ {
        "Zergling"@
    } else if name == "BanelingBurrowed"@ {
        "Baneling"@
    } else if name == "InfestorBurrowed"@ {
        "Infestor"@
    } else if name == "LurkerMPBurrowed"@ {
        "LurkerMP"@
    } else if name == "SwarmHostBurrowedMP"@ {
        "SwarmHostMP"@
    } else if name == "QueenBurrowed"@ {
        "Queen"@
    } else if name == "UltraliskBurrowed"@ {
        "Ultralisk"@
    } else if name == "HydraliskBurrowed"@ {
        "Hydralisk"@
    } else if name == "DroneBurrowed"@ {
        "Drone"@
    } else {
        name
    }
}

/// Canonical name of a unit: sieged, burrowed, phasing and transformed
/// forms map to the active form (`SiegeTankSieged` → `SiegeTank`).
pub fn canonical_unit_name(name: &str) -> (r: &str)
    ensures
        r@ == canonical_unit_spec(name@),
{
    if str_eq(name, "ObserverSiegeMode") {
        "Observer"
    } else if str_eq(name, "OverseerSiegeMode") {
        "Overseer"
    } else if str_eq(name, "SiegeTankSieged") {
        "SiegeTank"
    } else if str_eq(name, "VikingAssault") {
        "VikingFighter"
    } else if str_eq(name, "WidowMineBurrowed") {
        "WidowMine"
    } else if str_eq(name, "Hellbat") {
        "Hellion"
    } else if str_eq(name, "WarpPrismPhasing") {
        "WarpPrism"
    } else if str_eq(name, "RoachBurrowed") {
        "Roach"
    } else if str_eq(name, "ZerglingBurrowed") {
        "Zergling"
    } else if str_eq(name, "BanelingBurrowed") {
        "Baneling"
    } else if str_eq(name, "InfestorBurrowed") {
        "Infestor"
    } else if str_eq(name, "LurkerMPBurrowed") {
        "LurkerMP"
    } else if str_eq(name, "SwarmHostBurrowedMP") {
        "SwarmHostMP"
    } else if str_eq(name, "QueenBurrowed") {
        "Queen"
    } else if str_eq(name, "UltraliskBurrowed") {
        "Ultralisk"
    } else if str_eq(name, "HydraliskBurrowed") {
        "Hydralisk"
    } else if str_eq(name, "DroneBurrowed") {
        "Drone"
    } else {
        name
    }
}

/// Living count in a `(loop, count)` series at `t`: the last sample at or
/// before `t`, never below 0; 0 before the first sample.
pub open spec fn alive_at_spec(series: Seq<(u32, i32)>, t: u32) -> i32 {
    let i = last_le(pair_loops(series), t);
    if i < 0 {
        0
    } else if series[i].1 < 0 {
        0
    } else {
        series[i].1
    }
}

/// Living count of a type at `game_loop`, from its loop-ordered series.
pub fn alive_at(series: &[(u32, i32)], game_loop: u32) -> (r: i32)
    requires
        keys_sorted(pair_loops(series@)),
    ensures
        r == alive_at_spec(series@, game_loop),
        r >= 0,
{
    match last_pair_at(series, game_loop) {
        Some(i) => {
            let c = series[i].1;
            if c < 0 {
                0
            } else {
                c
            }
        },
        None => 0,
    }
}

/// The latest army-value snapshot at or before `game_loop`, if any.
pub fn snapshot_at(snaps: &[ArmySnapshot], game_loop: u32) -> (r: Option<&ArmySnapshot>)
    requires
        keys_sorted(army_loops(snaps@)),
    ensures
        match r {
            Some(s) => {
                let i = last_le(army_loops(snaps@), game_loop);
                i >= 0 && *s == snaps@[i]
            },
            None => last_le(army_loops(snaps@), game_loop) == -1,
        },
{
    match last_army_at(snaps, game_loop) {
        Some(i) => Some(&snaps[i]),
        None => None,
    }
}

/// Last loop the charts show: the replay's loops (at least 1), cut at the
/// loop of its time limit (`max_loops`, at least 1) when it has one.
pub open spec fn effective_end_spec(game_loops: u32, max_time_seconds: u32, max_loops: u32) -> u32 {
    let gl: u32 = if game_loops < 1 { 1 } else { game_loops };
    let ml: u32 = if max_loops < 1 { 1 } else { max_loops };
    if max_time_seconds == 0 {
        gl
    } else if ml < gl {
        ml
    } else {
        gl
    }
}

/// Effective end of the timeline; `max_loops` is the time limit
/// `max_time_seconds` converted to loops.
pub fn effective_end_loop(game_loops: u32, max_time_seconds: u32, max_loops: u32) -> (r: u32)
    ensures
        r == effective_end_spec(game_loops, max_time_seconds, max_loops),
        r >= 1,
        game_loops >= 1 ==> r <= game_loops,
{
    let gl = if game_loops < 1 {
        1
    } else {
        game_loops
    };
    if max_time_seconds == 0 {
        gl
    } else {
        let ml = if max_loops < 1 {
            1
        } else {
            max_loops
        };
        if ml < gl {
            ml
        } else {
            gl
        }
    }
}

/// `0, 1, ..., n - 1`.
pub open spec fn index_seq(n: nat) -> Seq<usize> {
    Seq::new(n, |i: int| i as usize)
}

/// Sort key of a block index: the block's start.
pub open spec fn by_start(blocks: Seq<(u32, u32)>) -> spec_fn(usize) -> int {
    |i: usize| blocks[i as int].0 as int
}

/// The block indices by start loop, ties in index order.
pub open spec fn start_order(blocks: Seq<(u32, u32)>) -> Seq<usize> {
    sort_by_key_spec(index_seq(blocks.len()), by_start(blocks))
}

/// First track whose last block ended at or before `start`, or -1.
pub open spec fn first_free(tracks: Seq<u32>, start: u32) -> int
    decreases tracks.len(),
{
    if tracks.len() == 0 {
        -1
    } else if first_free(tracks.drop_last(), start) >= 0 {
        first_free(tracks.drop_last(), start)
    } else if tracks.last() <= start {
        tracks.len() - 1
    } else {
        -1
    }
}

/// Greedy interval scheduling over the blocks in `order`: each block goes
/// to the first track already free at its start, or to a new track.
/// Returns the end of each track and the track of each block.
pub open spec fn schedule(blocks: Seq<(u32, u32)>, order: Seq<usize>) -> (Seq<u32>, Seq<usize>)
    decreases order.len(),
{
    if order.len() == 0 {
        (Seq::empty(), Seq::new(blocks.len(), |i: int| 0usize))
    } else {
        let prev = schedule(blocks, order.drop_last());
        let i = order.last();
        let b = blocks[i as int];
        let k = first_free(prev.0, b.0);
        if k >= 0 {
            (prev.0.update(k, b.1), prev.1.update(i as int, k as usize))
        } else {
            (prev.0.push(b.1), prev.1.update(i as int, prev.0.len() as usize))
        }
    }
}

/// Track of each block (parallel to the blocks) after greedy scheduling
/// in start order.
pub open spec fn tracks_spec(blocks: Seq<(u32, u32)>) -> Seq<usize> {
    schedule(blocks, start_order(blocks)).1
}

/// `first_free` is -1 or the first free track.
proof fn lemma_first_free(tracks: Seq<u32>, start: u32)
    ensures
        -1 <= first_free(tracks, start) < tracks.len(),
        first_free(tracks, start) >= 0 ==> tracks[first_free(tracks, start)] <= start,
        forall|k: int|
            0 <= k < tracks.len() && (first_free(tracks, start) == -1 || k < first_free(tracks, start))
                ==> tracks[k] > start,
    decreases tracks.len(),
{
    if tracks.len() > 0 {
        let pre = tracks.drop_last();
        lemma_first_free(pre, start);
        assert forall|k: int|
            0 <= k < tracks.len() && (first_free(tracks, start) == -1 || k < first_free(tracks, start))
                implies tracks[k] > start by {
            if k < tracks.len() - 1 {
                assert(pre[k] == tracks[k]);
            }
        }
    }
}

/// The block indices sorted by start (a stable insertion sort).
fn sort_by_start(blocks: &[(u32, u32)]) -> (r: Vec<usize>)
    ensures
        r@ == start_order(blocks@),
{
    let n = blocks.len();
    let ghost key = by_start(blocks@);
    let mut out: Vec<usize> = Vec::new();
    let mut i: usize = 0;
    while i < n
        invariant
            i <= n,
            n == blocks@.len(),
            key == by_start(blocks@),
            out@ == sort_by_key_spec(index_seq(n as nat).subrange(0, i as int), key),
            forall|m: int| 0 <= m < out@.len() ==> out@[m] < n,
        decreases n - i,
    {
        let k = blocks[i].0;
        let mut j: usize = out.len();
        assert(out@.subrange(0, j as int) =~= out@);
        while j > 0 && blocks[out[j - 1]].0 > k
            invariant
                j <= out@.len(),
                n == blocks@.len(),
                key == by_start(blocks@),
                forall|m: int| 0 <= m < out@.len() ==> out@[m] < n,
                insert_pos(out@, key, k as int) == insert_pos(out@.subrange(0, j as int), key, k as int),
            decreases j,
        {
            assert(out@.subrange(0, j as int).drop_last() =~= out@.subrange(0, j - 1));
            j = j - 1;
        }
        assert(out@.subrange(0, 0) =~= Seq::<usize>::empty());
        let ghost pre = index_seq(n as nat).subrange(0, i as int);
        assert(index_seq(n as nat).subrange(0, i + 1).drop_last() =~= pre);
        assert(index_seq(n as nat).subrange(0, i + 1).last() == i);
        out.insert(j, i);
        i = i + 1;
    }
    assert(index_seq(n as nat).subrange(0, n as int) =~= index_seq(n as nat));
    out
}

/// Assigns each production block `(start, end)` a parallel track by
/// greedy interval scheduling: blocks in start order go to the first
/// track whose last block has ended, or open a new track. The result is
/// parallel to `blocks`.
pub fn assign_parallel_tracks(blocks: &[(u32, u32)]) -> (r: Vec<usize>)
    ensures
        r@ == tracks_spec(blocks@),
{
    let n = blocks.len();
    let order = sort_by_start(blocks);
    proof {
        lemma_start_order_indices(blocks@);
    }
    let mut assigned: Vec<usize> = Vec::new();
    let mut z: usize = 0;
    while z < n
        invariant
            z <= n,
            assigned@ == Seq::new(z as nat, |i: int| 0usize),
        decreases n - z,
    {
        assigned.push(0);
        z = z + 1;
        assert(assigned@ =~= Seq::new(z as nat, |i: int| 0usize));
    }
    let mut tracks_end: Vec<u32> = Vec::new();
    let mut p: usize = 0;
    while p < order.len()
        invariant
            p <= order@.len(),
            n == blocks@.len(),
            order@ == start_order(blocks@),
            forall|m: int| 0 <= m < order@.len() ==> order@[m] < n,
            (tracks_end@, assigned@) == schedule(blocks@, order@.subrange(0, p as int)),
            assigned@.len() == n,
        decreases order@.len() - p,
    {
        let i = order[p];
        let start = blocks[i].0;
        let end = blocks[i].1;
        let ghost pre = order@.subrange(0, p as int);
        assert(order@.subrange(0, p + 1).drop_last() =~= pre);
        proof {
            lemma_first_free(tracks_end@, start);
        }
        let mut k: usize = 0;
        while k < tracks_end.len() && tracks_end[k] > start
            invariant
                k <= tracks_end@.len(),
                forall|m: int| 0 <= m < k ==> tracks_end@[m] > start,
                -1 <= first_free(tracks_end@, start) < tracks_end@.len(),
                first_free(tracks_end@, start) >= 0 ==> tracks_end@[first_free(tracks_end@, start)] <= start,
                forall|m: int|
                    0 <= m < tracks_end@.len() && (first_free(tracks_end@, start) == -1 || m < first_free(
                        tracks_end@,
                        start,
                    )) ==> tracks_end@[m] > start,
            decreases tracks_end@.len() - k,
        {
            k = k + 1;
        }
        if k < tracks_end.len() {
            assert(first_free(tracks_end@, start) == k);
            tracks_end.set(k, end);
            assigned.set(i, k);
        } else {
            assert(first_free(tracks_end@, start) == -1);
            assigned.set(i, tracks_end.len());
            tracks_end.push(end);
        }
        p = p + 1;
    }
    assert(order@.subrange(0, order@.len() as int) =~= order@);
    assigned
}

/// Every index in the start order is a block index, and the start order
/// has one entry per block.
proof fn lemma_start_order_indices(blocks: Seq<(u32, u32)>)
    ensures
        start_order(blocks).len() == blocks.len(),
        forall|m: int| 0 <= m < start_order(blocks).len() ==> start_order(blocks)[m] < blocks.len(),
{
    crate::sorting::lemma_sort_by_key_sorted(index_seq(blocks.len()), by_start(blocks));
    crate::sorting::lemma_sort_keeps_elements(index_seq(blocks.len()), by_start(blocks));
    assert forall|m: int| 0 <= m < start_order(blocks).len() implies start_order(blocks)[m] < blocks.len() by {
        let x = start_order(blocks)[m];
        assert(start_order(blocks).contains(x));
        assert(index_seq(blocks.len()).contains(x));
    }
}


/// Every block starts at or before its end.
pub open spec fn blocks_well_formed(blocks: Seq<(u32, u32)>) -> bool {
    forall|k: int| 0 <= k < blocks.len() ==> #[trigger] blocks[k].0 <= blocks[k].1
}

/// After scheduling the first `p` blocks of `order`: every scheduled
/// block has a track, ends at or before its track's end, and ends at or
/// before the start of every block scheduled later on its track.
spec fn schedule_inv(blocks: Seq<(u32, u32)>, order: Seq<usize>, p: int) -> bool {
    let st = schedule(blocks, order.subrange(0, p));
    &&& st.1.len() == blocks.len()
    &&& st.0.len() <= p
    &&& forall|q: int| 0 <= q < p ==> (#[trigger] st.1[order[q] as int]) < st.0.len()
    &&& forall|q: int| 0 <= q < p ==> blocks[order[q] as int].1 <= st.0[#[trigger] st.1[order[q] as int] as int]
    &&& forall|q1: int, q2: int|
        0 <= q1 < q2 < p && #[trigger] st.1[order[q1] as int] == #[trigger] st.1[order[q2] as int]
            ==> blocks[order[q1] as int].1 <= blocks[order[q2] as int].0
}

proof fn lemma_schedule_inv(blocks: Seq<(u32, u32)>, order: Seq<usize>, p: int)
    requires
        blocks_well_formed(blocks),
        order.no_duplicates(),
        forall|m: int| 0 <= m < order.len() ==> order[m] < blocks.len(),
        0 <= p <= order.len(),
        order.len() <= usize::MAX,
    ensures
        schedule_inv(blocks, order, p),
    decreases p,
{
    if p == 0 {
        assert(order.subrange(0, 0) =~= Seq::<usize>::empty());
    } else {
        lemma_schedule_inv(blocks, order, p - 1);
        let pre = order.subrange(0, p - 1);
        let cur = order.subrange(0, p);
        assert(cur.drop_last() =~= pre);
        let prev = schedule(blocks, pre);
        let st = schedule(blocks, cur);
        let i = order[p - 1];
        let b = blocks[i as int];
        assert(b.0 <= b.1);
        lemma_first_free(prev.0, b.0);
        let k = first_free(prev.0, b.0);
        assert(cur.last() == i);
        assert(st == (if k >= 0 {
            (prev.0.update(k, b.1), prev.1.update(i as int, k as usize))
        } else {
            (prev.0.push(b.1), prev.1.update(i as int, prev.0.len() as usize))
        }));
        assert forall|q: int| 0 <= q < p - 1 implies order[q] != i by {}
        assert forall|q: int| 0 <= q < p - 1 implies st.1[order[q] as int] == prev.1[order[q] as int] by {
            assert(order[q] != i);
        }
        assert forall|q: int| 0 <= q < p implies (#[trigger] st.1[order[q] as int]) < st.0.len() by {
            if q < p - 1 {
                assert(st.1[order[q] as int] == prev.1[order[q] as int]);
            }
        }
        assert forall|q: int| 0 <= q < p implies blocks[order[q] as int].1 <= st.0[
            #[trigger] st.1[order[q] as int] as int
        ] by {
            if q < p - 1 {
                let t = prev.1[order[q] as int];
                assert(st.1[order[q] as int] == t);
                assert(blocks[order[q] as int].1 <= prev.0[t as int]);
                if k >= 0 && t == k {
                    assert(prev.0[t as int] <= b.0);
                }
            }
        }
        assert forall|q1: int, q2: int|
            0 <= q1 < q2 < p && #[trigger] st.1[order[q1] as int] == #[trigger] st.1[order[q2] as int]
                implies blocks[order[q1] as int].1 <= blocks[order[q2] as int].0 by {
            assert(st.1[order[q1] as int] == prev.1[order[q1] as int]);
            if q2 < p - 1 {
                assert(st.1[order[q2] as int] == prev.1[order[q2] as int]);
            } else {
                let t = prev.1[order[q1] as int];
                assert(blocks[order[q1] as int].1 <= prev.0[t as int]);
                if k < 0 {
                    assert(st.1[i as int] == prev.0.len());
                } else {
                    assert(st.1[i as int] == k);
                    assert(prev.0[k] <= b.0);
                }
            }
        }
    }
}

/// The start order lists every block index exactly once.
proof fn lemma_start_order_permutation(blocks: Seq<(u32, u32)>)
    requires
        blocks.len() <= usize::MAX,
    ensures
        start_order(blocks).no_duplicates(),
        forall|i: usize| i < blocks.len() ==> #[trigger] start_order(blocks).contains(i),
{
    broadcast use vstd::seq_lib::group_to_multiset_ensures;

    let idx = index_seq(blocks.len());
    let ord = start_order(blocks);
    crate::sorting::lemma_sort_keeps_elements(idx, by_start(blocks));
    assert forall|a: int, b: int| 0 <= a < idx.len() && 0 <= b < idx.len() && a != b implies idx[a]
        != idx[b] by {}
    assert(idx.no_duplicates());
    idx.lemma_multiset_has_no_duplicates();
    assert forall|x: usize| ord.to_multiset().contains(x) implies ord.to_multiset().count(x) == 1 by {
        assert(ord.to_multiset().count(x) == idx.to_multiset().count(x));
    }
    ord.lemma_multiset_has_no_duplicates_conv();
    assert forall|i: usize| i < blocks.len() implies #[trigger] ord.contains(i) by {
        assert(idx[i as int] == i);
        assert(idx.contains(i));
    }
}

/// Blocks on the same track never overlap: of two blocks sharing a
/// track, one ends at or before the other starts.
pub proof fn lemma_tracks_disjoint(blocks: Seq<(u32, u32)>, i: int, j: int)
    requires
        blocks_well_formed(blocks),
        blocks.len() <= usize::MAX,
        0 <= i < blocks.len(),
        0 <= j < blocks.len(),
        i != j,
        tracks_spec(blocks)[i] == tracks_spec(blocks)[j],
    ensures
        blocks[i].1 <= blocks[j].0 || blocks[j].1 <= blocks[i].0,
{
    let ord = start_order(blocks);
    lemma_start_order_indices(blocks);
    lemma_start_order_permutation(blocks);
    lemma_schedule_inv(blocks, ord, ord.len() as int);
    assert(ord.subrange(0, ord.len() as int) =~= ord);
    assert(ord.contains(i as usize));
    assert(ord.contains(j as usize));
    let qi = choose|q: int| 0 <= q < ord.len() && ord[q] == i as usize;
    let qj = choose|q: int| 0 <= q < ord.len() && ord[q] == j as usize;
    let st = schedule(blocks, ord);
    assert(st.1[ord[qi] as int] == st.1[ord[qj] as int]);
    if qi < qj {
        assert(blocks[ord[qi] as int].1 <= blocks[ord[qj] as int].0);
    } else {
        assert(qi != qj);
        assert(blocks[ord[qj] as int].1 <= blocks[ord[qi] as int].0);
    }
}


/// After scheduling the first `p` blocks of `order`, track `t` ends where
/// a block placed on it ends.
spec fn track_witnessed(blocks: Seq<(u32, u32)>, order: Seq<usize>, p: int, t: int) -> bool {
    let st = schedule(blocks, order.subrange(0, p));
    exists|q: int|
        #![trigger order[q]]
        0 <= q < p && st.1[order[q] as int] == t && blocks[order[q] as int].1 == st.0[t]
}

/// Every open track's end is the end of a block already placed on it.
proof fn lemma_track_ends_witnessed(blocks: Seq<(u32, u32)>, order: Seq<usize>, p: int)
    requires
        blocks_well_formed(blocks),
        order.no_duplicates(),
        forall|m: int| 0 <= m < order.len() ==> order[m] < blocks.len(),
        0 <= p <= order.len(),
        order.len() <= usize::MAX,
    ensures
        forall|t: int|
            0 <= t < schedule(blocks, order.subrange(0, p)).0.len() ==> #[trigger] track_witnessed(
                blocks,
                order,
                p,
                t,
            ),
    decreases p,
{
    if p == 0 {
        assert(order.subrange(0, 0) =~= Seq::<usize>::empty());
        assert(schedule(blocks, order.subrange(0, 0)).0.len() == 0);
    } else {
        lemma_track_ends_witnessed(blocks, order, p - 1);
        lemma_schedule_inv(blocks, order, p - 1);
        let pre = order.subrange(0, p - 1);
        let cur = order.subrange(0, p);
        assert(cur.drop_last() =~= pre);
        let prev = schedule(blocks, pre);
        let st = schedule(blocks, cur);
        let i = order[p - 1];
        let b = blocks[i as int];
        lemma_first_free(prev.0, b.0);
        let k = first_free(prev.0, b.0);
        assert(cur.last() == i);
        assert(st == (if k >= 0 {
            (prev.0.update(k, b.1), prev.1.update(i as int, k as usize))
        } else {
            (prev.0.push(b.1), prev.1.update(i as int, prev.0.len() as usize))
        }));
        assert forall|q: int| 0 <= q < p - 1 implies st.1[order[q] as int] == prev.1[order[q] as int] by {
            assert(order[q] != i);
        }
        assert forall|t: int|
            0 <= t < schedule(blocks, order.subrange(0, p)).0.len() implies #[trigger] track_witnessed(
                blocks,
                order,
                p,
                t,
            ) by {
            if (k >= 0 && t == k) || (k < 0 && t == prev.0.len()) {
                assert(st.1[order[p - 1] as int] == t);
                assert(st.0[t] == b.1);
            } else {
                assert(st.0[t] == prev.0[t]);
                assert(track_witnessed(blocks, order, p - 1, t));
                let q = choose|q: int|
                    #![trigger order[q]]
                    0 <= q < p - 1 && prev.1[order[q] as int] == t && blocks[order[q] as int].1 == prev.0[t];
                assert(st.1[order[q] as int] == t);
            }
        }
    }
}

/// A block's track never changes once it is placed.
proof fn lemma_track_stable(blocks: Seq<(u32, u32)>, order: Seq<usize>, q: int, p: int, p2: int)
    requires
        blocks_well_formed(blocks),
        order.no_duplicates(),
        forall|m: int| 0 <= m < order.len() ==> order[m] < blocks.len(),
        order.len() <= usize::MAX,
        0 <= q < p <= p2 <= order.len(),
    ensures
        schedule(blocks, order.subrange(0, p2)).1[order[q] as int] == schedule(
            blocks,
            order.subrange(0, p),
        ).1[order[q] as int],
    decreases p2 - p,
{
    if p2 > p {
        lemma_track_stable(blocks, order, q, p, p2 - 1);
        lemma_schedule_inv(blocks, order, p2 - 1);
        let cur = order.subrange(0, p2);
        assert(cur.drop_last() =~= order.subrange(0, p2 - 1));
        assert(cur.last() == order[p2 - 1]);
        assert(order[p2 - 1] != order[q]);
    }
}

/// The greedy tracks are as few as possible: a block on track `t` starts
/// while, on each lower track, another block is still running (started
/// at or before it and not yet ended). Those blocks and it all overlap at
/// its start, so no assignment without overlaps on a track can use fewer
/// tracks than the greedy one.
pub proof fn lemma_tracks_minimal(blocks: Seq<(u32, u32)>, i: int, t: int)
    requires
        blocks_well_formed(blocks),
        blocks.len() <= usize::MAX,
        0 <= i < blocks.len(),
        0 <= t < tracks_spec(blocks)[i],
    ensures
        exists|j: int|
            0 <= j < blocks.len() && j != i && tracks_spec(blocks)[j] == t && blocks[j].0 <= blocks[i].0
                < blocks[j].1,
{
    let ord = start_order(blocks);
    let n = ord.len() as int;
    lemma_start_order_indices(blocks);
    lemma_start_order_permutation(blocks);
    crate::sorting::lemma_sort_by_key_sorted(index_seq(blocks.len()), by_start(blocks));
    assert(ord.subrange(0, n) =~= ord);
    assert(ord.contains(i as usize));
    let qi = choose|q: int| 0 <= q < n && ord[q] == i as usize;
    let pre = ord.subrange(0, qi);
    let cur = ord.subrange(0, qi + 1);
    assert(cur.drop_last() =~= pre);
    assert(cur.last() == ord[qi]);
    let prev = schedule(blocks, pre);
    let b = blocks[i];
    lemma_first_free(prev.0, b.0);
    lemma_track_ends_witnessed(blocks, ord, qi);
    lemma_track_stable(blocks, ord, qi, qi + 1, n);
    lemma_schedule_inv(blocks, ord, qi);
    let k = first_free(prev.0, b.0);
    assert(schedule(blocks, cur) == (if k >= 0 {
        (prev.0.update(k, b.1), prev.1.update(i, k as usize))
    } else {
        (prev.0.push(b.1), prev.1.update(i, prev.0.len() as usize))
    }));
    assert(tracks_spec(blocks)[i] == schedule(blocks, cur).1[i]);
    assert(t < prev.0.len());
    assert(prev.0[t] > b.0);
    assert(track_witnessed(blocks, ord, qi, t));
    let q = choose|q: int|
        #![trigger ord[q]]
        0 <= q < qi && prev.1[ord[q] as int] == t && blocks[ord[q] as int].1 == prev.0[t];
    lemma_track_stable(blocks, ord, q, qi, n);
    let j = ord[q] as int;
    assert(by_start(blocks)(ord[q]) <= by_start(blocks)(ord[qi]));
    assert(tracks_spec(blocks)[j] == t);
    assert(j != i);
}

/// FNV-1a hash (64-bit) of a byte string.
pub open spec fn fnv1a(bytes: Seq<u8>) -> u64
    decreases bytes.len(),
{
    if bytes.len() == 0 {
        0xcbf2_9ce4_8422_2325u64
    } else {
        (fnv1a(bytes.drop_last()) ^ (bytes.last() as u64)).wrapping_mul(0x0000_0100_0000_01b3u64)
    }
}

/// The type palette: vivid colours that read on a dark background and
/// stay clear of the pure red and blue of the player slots.
pub const TYPE_PALETTE: [(u8, u8, u8); 12] = [
    (0xFF, 0xB3, 0x00),
    (0x00, 0xC8, 0x96),
    (0xC4, 0x7B, 0xFF),
    (0xFF, 0x8E, 0x8E),
    (0x66, 0xD9, 0xEF),
    (0xA6, 0xE2, 0x2E),
    (0xFF, 0x6B, 0xB5),
    (0xFD, 0x97, 0x1F),
    (0x81, 0xB0, 0xFF),
    (0xE8, 0xE0, 0x6F),
    (0xB2, 0xD0, 0x7F),
    (0xD7, 0x99, 0x70),
];

/// Stable colour `(r, g, b)` of a unit type in the per-type chart: the
/// palette entry picked by the FNV-1a hash of the raw name, so a type
/// keeps its colour whatever the order or the language.
pub fn type_palette_color(name: &str) -> (r: (u8, u8, u8))
    ensures
        r == TYPE_PALETTE@[((fnv1a(name.spec_bytes()) as usize) % 12) as int],
{
    let bytes = name.as_bytes();
    let mut h: u64 = 0xcbf2_9ce4_8422_2325;
    let mut i: usize = 0;
    while i < bytes.len()
        invariant
            i <= bytes@.len(),
            bytes@ == name.spec_bytes(),
            h == fnv1a(bytes@.subrange(0, i as int)),
        decreases bytes@.len() - i,
    {
        assert(bytes@.subrange(0, i + 1).drop_last() =~= bytes@.subrange(0, i as int));
        h = (h ^ (bytes[i] as u64)).wrapping_mul(0x0000_0100_0000_01b3);
        i = i + 1;
    }
    assert(bytes@.subrange(0, bytes@.len() as int) =~= bytes@);
    TYPE_PALETTE[(h as usize) % 12]
}

} // verus!
