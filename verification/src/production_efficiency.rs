//! Production-efficiency time series (workers or army): for each bucket of
//! game loops, the time-weighted production capacity and the part of it
//! that was busy, from which the efficiency percentage is read.
//!
//! - `types`  — constants, public types, name classifiers, event kinds.
//! - `sweep`  — the bucketed time-weighted sweep over capacity events.
//! - `models` — the race/target-specific event streams fed to the sweep.

pub mod models;
pub mod sweep;
pub mod types;

use vstd::prelude::*;

use crate::replay::PlayerTimeline;
use models::{
    army_events, compute_series_army, compute_series_workers, compute_series_zerg, lookup_ok, predicate_ok,
    worker_events, zerg_events,
};
use sweep::{buckets_fit, by_event_key, counts_fit, sweep_output};
use types::{is_zerg_race, is_zerg_race_spec, EfficiencySample, EfficiencyTarget};
use crate::sorting::sort_by_key_spec;

verus! {

/// The efficiency series of one player.
#[derive(Debug)]
pub struct PlayerEfficiencySeries {
    pub name: String,
    pub race: String,
    pub is_zerg: bool,
    pub samples: Vec<EfficiencySample>,
}

/// The events the series of `p` sweeps: the larva-bandwidth model for
/// Zerg (Drones with no supply override for workers, larva-born army with
/// it), otherwise the worker or the army model.
pub open spec fn player_events<F: Fn(&String, u32) -> u32, T: Fn(&String) -> bool>(
    p: PlayerTimeline,
    target: EfficiencyTarget,
    f: F,
    t: &T,
    base_build: u32,
    game_end: u32,
) -> Seq<(u32, types::EvKind)> {
    if is_zerg_race_spec(p.race@) {
        match target {
            EfficiencyTarget::Workers => zerg_events(p, f, target, t, base_build, game_end, false),
            EfficiencyTarget::Army => zerg_events(p, f, target, t, base_build, game_end, true),
        }
    } else {
        match target {
            EfficiencyTarget::Workers => worker_events(p),
            EfficiencyTarget::Army => army_events(p, f, base_build, game_end),
        }
    }
}

/// The efficiency series of one player over `[0, effective_end)` in
/// buckets of `bucket_loops`, with the model its race and the target
/// call for; `build_time` looks up build times (by type and game build)
/// and `larva_army` tells the larva-born army types.
pub fn player_efficiency_series<F: Fn(&String, u32) -> u32, T: Fn(&String) -> bool>(
    player: &PlayerTimeline,
    target: EfficiencyTarget,
    effective_end: u32,
    bucket_loops: u32,
    base_build: u32,
    build_time: &F,
    larva_army: &T,
) -> (r: PlayerEfficiencySeries)
    requires
        lookup_ok(*build_time),
        predicate_ok(larva_army),
        counts_fit(
            sort_by_key_spec(
                player_events(*player, target, *build_time, larva_army, base_build, effective_end),
                by_event_key(),
            ),
            effective_end,
        ),
        buckets_fit(effective_end, bucket_loops),
    ensures
        r.name@ == player.name@,
        r.race@ == player.race@,
        r.is_zerg == is_zerg_race_spec(player.race@),
        sweep_output(
            player_events(*player, target, *build_time, larva_army, base_build, effective_end),
            effective_end,
            bucket_loops,
            r.samples@,
        ),
{
    let is_zerg = is_zerg_race(player.race.as_str());
    let samples = if is_zerg {
        match target {
            EfficiencyTarget::Workers => compute_series_zerg(
                player,
                effective_end,
                bucket_loops,
                base_build,
                build_time,
                target,
                larva_army,
                false,
            ),
            EfficiencyTarget::Army => compute_series_zerg(
                player,
                effective_end,
                bucket_loops,
                base_build,
                build_time,
                target,
                larva_army,
                true,
            ),
        }
    } else {
        match target {
            EfficiencyTarget::Workers => compute_series_workers(player, effective_end, bucket_loops),
            EfficiencyTarget::Army => compute_series_army(
                player,
                effective_end,
                base_build,
                bucket_loops,
                build_time,
            ),
        }
    };
    PlayerEfficiencySeries {
        name: player.name.clone(),
        race: player.race.clone(),
        is_zerg,
        samples,
    }
}

} // verus!
