use sc2_replay_utils::production_efficiency::sweep::sweep;
use sc2_replay_utils::production_efficiency::types::EvKind;
use sc2_replay_utils::production_efficiency::player_efficiency_series;
use sc2_replay_utils::production_efficiency::types::EfficiencyTarget;
use sc2_replay_utils::replay::{
    EntityCategory, EntityEvent, EntityEventKind, InjectCmd, PlayerTimeline, StatsSnapshot, UpgradeEntry,
};

const EPS: f64 = 1e-6;
const LOOPS_PER_SECOND: f64 = 22.4;
const BUCKET_SECONDS: f64 = 10.0;

#[derive(Clone, Copy, Debug)]
struct Sample {
    game_loop: u32,
    capacity: u32,
    active: u32,
    efficiency_pct: f64,
}

fn build_time(name: &String, _base_build: u32) -> u32 {
    match name.as_str() {
        "Marine" => 272,
        _ => 0,
    }
}

fn larva_army(name: &String) -> bool {
    matches!(
        name.as_str(),
        "Zergling" | "Roach" | "Hydralisk" | "Mutalisk" | "Corruptor" | "Infestor" | "SwarmHostMP" | "Ultralisk"
            | "Viper" | "Overlord"
    )
}

fn mk_player(race: &str) -> PlayerTimeline {
    let mut p = PlayerTimeline::empty(1);
    p.name = "P".to_string();
    p.race = race.to_string();
    p
}

/// The series of the single player, with the chart's 10 s buckets at
/// 22.4 loops per second and the efficiency read from the integrals.
fn series(p: &PlayerTimeline, game_loops: u32, target: EfficiencyTarget) -> (bool, Vec<Sample>) {
    let bucket_loops = ((BUCKET_SECONDS * LOOPS_PER_SECOND).round() as u32).max(1);
    let s = player_efficiency_series(p, target, game_loops, bucket_loops, 0, &build_time, &larva_army);
    let samples = s
        .samples
        .iter()
        .map(|x| Sample {
            game_loop: x.game_loop,
            capacity: x.capacity,
            active: x.active,
            efficiency_pct: if x.capacity_integral == 0 {
                100.0
            } else {
                100.0 * x.active_integral as f64 / x.capacity_integral as f64
            },
        })
        .collect();
    (s.is_zerg, samples)
}

fn bucket_ending_at(samples: &[Sample], t: u32) -> Sample {
    *samples.iter().find(|s| s.game_loop == t).unwrap_or_else(|| panic!("no bucket ending at game_loop={t}"))
}

fn ev(loop_: u32, kind: EntityEventKind, ty: &str, tag: i64, category: EntityCategory) -> EntityEvent {
    EntityEvent {
        game_loop: loop_,
        kind,
        entity_type: ty.to_string(),
        category,
        tag,
        pos_x: 0,
        pos_y: 0,
        killer_player_id: None,
    }
}

fn started(loop_: u32, ty: &str, tag: i64, category: EntityCategory) -> EntityEvent {
    ev(loop_, EntityEventKind::ProductionStarted, ty, tag, category)
}

fn finished(loop_: u32, ty: &str, tag: i64, category: EntityCategory) -> EntityEvent {
    ev(loop_, EntityEventKind::ProductionFinished, ty, tag, category)
}

fn cancelled(loop_: u32, ty: &str, tag: i64, category: EntityCategory) -> EntityEvent {
    ev(loop_, EntityEventKind::ProductionCancelled, ty, tag, category)
}

fn hatch_finished(loop_: u32, tag: i64) -> EntityEvent {
    finished(loop_, "Hatchery", tag, EntityCategory::Structure)
}

fn hatch_died(loop_: u32, tag: i64) -> EntityEvent {
    ev(loop_, EntityEventKind::Died, "Hatchery", tag, EntityCategory::Structure)
}

fn stats(game_loop: u32, supply_used: i32) -> StatsSnapshot {
    StatsSnapshot { game_loop, workers: 0, supply_used }
}

fn upgrade(game_loop: u32, name: &str) -> UpgradeEntry {
    UpgradeEntry { game_loop, name: name.to_string() }
}

// ── Scenarios ───────────────────────────────────────────────────────

fn check_workers_baseline_single_cc_one_birth() {
    let mut p = mk_player("Terr");
    p.worker_capacity.push((0, 1));
    p.worker_births.push(300);
    let (_, s) = series(&p, 1000, EfficiencyTarget::Workers);
    assert_eq!(s[0].game_loop, 224);
    assert!((s[0].efficiency_pct - (196.0 / 224.0 * 100.0)).abs() < EPS);
    assert_eq!(s[1].game_loop, 448);
    assert!((s[1].efficiency_pct - (76.0 / 224.0 * 100.0)).abs() < EPS);
    assert_eq!(s[2].game_loop, 672);
    assert_eq!(s[2].efficiency_pct, 0.0);
    assert_eq!(s.last().unwrap().game_loop, 1000);
}

fn check_army_baseline_one_barracks_one_unit() {
    let mut p = mk_player("Terr");
    p.army_capacity.push((100, 1));
    p.entity_events.push(started(200, "Marine", 42, EntityCategory::Unit));
    p.entity_events.push(finished(500, "Marine", 42, EntityCategory::Unit));
    let (_, s) = series(&p, 1000, EfficiencyTarget::Army);
    let b0 = bucket_ending_at(&s, 224);
    assert!((b0.efficiency_pct - (24.0 / 124.0 * 100.0)).abs() < EPS);
    let b1 = bucket_ending_at(&s, 448);
    assert!((b1.efficiency_pct - 100.0).abs() < EPS);
    let b2 = bucket_ending_at(&s, 672);
    assert!((b2.efficiency_pct - (52.0 / 224.0 * 100.0)).abs() < EPS);
    let b3 = bucket_ending_at(&s, 896);
    assert_eq!(b3.efficiency_pct, 0.0);
}

fn check_capacity_loss_during_production_no_underflow() {
    let mut p = mk_player("Terr");
    p.army_capacity.push((100, 1));
    p.army_capacity.push((300, -1));
    p.entity_events.push(started(200, "Marine", 7, EntityCategory::Unit));
    p.entity_events.push(cancelled(300, "Marine", 7, EntityCategory::Unit));
    let (_, s) = series(&p, 1000, EfficiencyTarget::Army);
    let mid = bucket_ending_at(&s, 448);
    assert!((mid.efficiency_pct - 100.0).abs() < EPS);
    let late = bucket_ending_at(&s, 672);
    assert_eq!(late.capacity, 0);
    assert_eq!(late.active, 0);
    assert_eq!(late.efficiency_pct, 100.0);
}

fn check_train_started_and_finished_same_loop_is_back_dated() {
    let mut p = mk_player("Terr");
    p.army_capacity.push((0, 1));
    let finish = 500u32;
    p.entity_events.push(started(finish, "Marine", 1, EntityCategory::Unit));
    p.entity_events.push(finished(finish, "Marine", 1, EntityCategory::Unit));
    let (_, s) = series(&p, 1000, EfficiencyTarget::Army);
    let back_dated = bucket_ending_at(&s, 448);
    assert!(
        back_dated.efficiency_pct > 50.0,
        "back-dating should lift the bucket above 50%, got {}",
        back_dated.efficiency_pct
    );
}

fn check_orphan_started_closes_at_game_end() {
    let mut p = mk_player("Terr");
    p.army_capacity.push((100, 1));
    p.entity_events.push(started(200, "Marine", 11, EntityCategory::Unit));
    let (_, s) = series(&p, 1000, EfficiencyTarget::Army);
    let b_mid = bucket_ending_at(&s, 672);
    let b_late = bucket_ending_at(&s, 896);
    assert!((b_mid.efficiency_pct - 100.0).abs() < EPS);
    assert!((b_late.efficiency_pct - 100.0).abs() < EPS);
}

fn check_army_supply_maxed_forces_hundred_percent() {
    let mut p = mk_player("Terr");
    p.army_capacity.push((0, 1));
    p.stats.push(stats(0, 12));
    p.stats.push(stats(200, 100));
    p.stats.push(stats(500, 190));
    p.stats.push(stats(1000, 190));
    let (_, s) = series(&p, 1000, EfficiencyTarget::Army);
    assert_eq!(bucket_ending_at(&s, 224).efficiency_pct, 0.0);
    assert_eq!(bucket_ending_at(&s, 448).efficiency_pct, 0.0);
    let mixed = bucket_ending_at(&s, 672);
    assert!((mixed.efficiency_pct - (172.0 / 224.0 * 100.0)).abs() < EPS);
    assert!((bucket_ending_at(&s, 896).efficiency_pct - 100.0).abs() < EPS);
    assert!((bucket_ending_at(&s, 1000).efficiency_pct - 100.0).abs() < EPS);
}

fn check_workers_ignore_supply_maxed_override() {
    let mut p = mk_player("Terr");
    p.worker_capacity.push((0, 1));
    p.stats.push(stats(0, 190));
    let (_, s) = series(&p, 500, EfficiencyTarget::Workers);
    for sample in &s {
        assert_eq!(sample.efficiency_pct, 0.0);
    }
}

fn warp_scenario(research: u32, unit: &str, start: u32, finish: u32, game_loops: u32) -> Vec<Sample> {
    let mut p = mk_player("Prot");
    p.army_capacity.push((0, 1));
    p.upgrades.push(upgrade(research, "WarpGateResearch"));
    p.entity_events.push(started(start, unit, 1, EntityCategory::Unit));
    p.entity_events.push(finished(finish, unit, 1, EntityCategory::Unit));
    series(&p, game_loops, EfficiencyTarget::Army).1
}

fn check_warpgate_extends_busy_window_with_cooldown() {
    let s = warp_scenario(100, "Zealot", 500, 612, 1500);
    let b = bucket_ending_at(&s, 672);
    assert!((b.efficiency_pct - (172.0 / 224.0 * 100.0)).abs() < EPS);
    assert!((bucket_ending_at(&s, 896).efficiency_pct - 100.0).abs() < EPS);
    let partial = bucket_ending_at(&s, 1120);
    assert!(
        (partial.efficiency_pct - (164.0 / 224.0 * 100.0)).abs() < EPS,
        "bucket 1120 expected {}, got {}",
        164.0 / 224.0 * 100.0,
        partial.efficiency_pct
    );
    assert_eq!(bucket_ending_at(&s, 1344).efficiency_pct, 0.0);
}

fn check_warpgate_cycle_not_applied_before_research() {
    let s = warp_scenario(800, "Zealot", 200, 500, 1500);
    let b = bucket_ending_at(&s, 672);
    assert!((b.efficiency_pct - (52.0 / 224.0 * 100.0)).abs() < EPS);
    assert_eq!(bucket_ending_at(&s, 896).efficiency_pct, 0.0);
}

fn check_warpgate_only_extends_for_warp_gate_units() {
    let s = warp_scenario(100, "Immortal", 300, 500, 1200);
    assert_eq!(bucket_ending_at(&s, 896).efficiency_pct, 0.0);
}

fn check_zerg_workers_single_hatch_continuous_is_100pct() {
    let mut p = mk_player("Zerg");
    p.entity_events.push(hatch_finished(0, 100));
    p.entity_events.push(started(28, "Drone", 1, EntityCategory::Worker));
    p.entity_events.push(finished(300, "Drone", 1, EntityCategory::Worker));
    let (_, s) = series(&p, 1000, EfficiencyTarget::Workers);
    let b0 = bucket_ending_at(&s, 224);
    assert!((b0.efficiency_pct - (196.0 / 224.0 * 100.0)).abs() < EPS);
    let b1 = bucket_ending_at(&s, 448);
    assert!((b1.efficiency_pct - (76.0 / 224.0 * 100.0)).abs() < EPS);
}

fn check_zerg_workers_inject_boost_with_full_spend() {
    let mut p = mk_player("Zerg");
    p.entity_events.push(hatch_finished(0, 100));
    p.inject_cmds.push(InjectCmd { game_loop: 500 });
    for i in 0..4i64 {
        p.entity_events.push(started(900, "Drone", i + 1, EntityCategory::Worker));
        p.entity_events.push(finished(900 + 272, "Drone", i + 1, EntityCategory::Worker));
    }
    let (_, s) = series(&p, 1500, EfficiencyTarget::Workers);
    let b1 = bucket_ending_at(&s, 672);
    assert_eq!(b1.efficiency_pct, 0.0);
    let b_spend = bucket_ending_at(&s, 1120);
    assert!(
        (b_spend.efficiency_pct - (880.0 / 1120.0 * 100.0)).abs() < EPS,
        "expected ~78.57, got {}",
        b_spend.efficiency_pct
    );
}

fn check_zerg_workers_inject_ignored_drops_efficiency() {
    let mut p = mk_player("Zerg");
    p.entity_events.push(hatch_finished(0, 100));
    p.inject_cmds.push(InjectCmd { game_loop: 500 });
    let (_, s) = series(&p, 1500, EfficiencyTarget::Workers);
    for sample in &s {
        assert_eq!(
            sample.efficiency_pct, 0.0,
            "bucket ending at {} expected 0%, got {}",
            sample.game_loop, sample.efficiency_pct
        );
    }
}

fn check_zerg_army_only_larva_born_counted() {
    let mut p = mk_player("Zerg");
    p.entity_events.push(hatch_finished(0, 100));
    p.entity_events.push(started(100, "Zergling", 1, EntityCategory::Unit));
    p.entity_events.push(finished(300, "Zergling", 1, EntityCategory::Unit));
    p.entity_events.push(started(100, "Baneling", 2, EntityCategory::Unit));
    p.entity_events.push(finished(300, "Baneling", 2, EntityCategory::Unit));
    p.entity_events.push(started(100, "Queen", 3, EntityCategory::Unit));
    p.entity_events.push(finished(300, "Queen", 3, EntityCategory::Unit));
    p.entity_events.push(started(100, "Overlord", 4, EntityCategory::Unit));
    p.entity_events.push(finished(300, "Overlord", 4, EntityCategory::Unit));
    let (_, s) = series(&p, 1000, EfficiencyTarget::Army);
    let b0 = bucket_ending_at(&s, 224);
    assert!(
        (b0.efficiency_pct - (124.0 / 224.0 * 100.0)).abs() < EPS,
        "bucket 224 expected {}, got {}",
        124.0 / 224.0 * 100.0,
        b0.efficiency_pct
    );
    assert_eq!(b0.active, 1);
    assert_eq!(b0.capacity, 1);
}

fn check_zerg_hatch_morph_lair_no_capacity_gap() {
    let mut p = mk_player("Zerg");
    p.entity_events.push(hatch_finished(0, 100));
    p.entity_events.push(hatch_died(1000, 100));
    p.entity_events.push(finished(1000, "Lair", 100, EntityCategory::Structure));
    let (_, s) = series(&p, 1500, EfficiencyTarget::Workers);
    for sample in &s {
        assert_eq!(
            sample.capacity, 1,
            "bucket at {} dropped to cap={}; expected 1 through the morph",
            sample.game_loop, sample.capacity
        );
    }
}

fn check_zerg_hatch_destroyed_cancels_inflight_morph() {
    let mut p = mk_player("Zerg");
    p.entity_events.push(hatch_finished(0, 100));
    p.entity_events.push(started(300, "Drone", 7, EntityCategory::Worker));
    p.entity_events.push(hatch_died(400, 100));
    p.entity_events.push(cancelled(400, "Drone", 7, EntityCategory::Worker));
    let (_, s) = series(&p, 1000, EfficiencyTarget::Workers);
    let late = bucket_ending_at(&s, 672);
    assert_eq!(late.capacity, 0);
    assert_eq!(late.active, 0);
    assert_eq!(late.efficiency_pct, 100.0);
}

fn check_zerg_army_supply_maxed_forces_hundred_percent() {
    let mut p = mk_player("Zerg");
    p.entity_events.push(hatch_finished(0, 100));
    p.stats.push(stats(0, 12));
    p.stats.push(stats(200, 100));
    p.stats.push(stats(500, 190));
    p.stats.push(stats(1000, 190));
    let (_, s) = series(&p, 1000, EfficiencyTarget::Army);
    assert_eq!(bucket_ending_at(&s, 224).efficiency_pct, 0.0);
    assert_eq!(bucket_ending_at(&s, 448).efficiency_pct, 0.0);
    let mixed = bucket_ending_at(&s, 672);
    assert!((mixed.efficiency_pct - (172.0 / 224.0 * 100.0)).abs() < EPS);
    assert!((bucket_ending_at(&s, 896).efficiency_pct - 100.0).abs() < EPS);
}

fn check_zerg_workers_ignore_supply_maxed_override() {
    let mut p = mk_player("Zerg");
    p.entity_events.push(hatch_finished(0, 100));
    p.stats.push(stats(0, 190));
    let (_, s) = series(&p, 500, EfficiencyTarget::Workers);
    for sample in &s {
        assert_eq!(
            sample.efficiency_pct, 0.0,
            "Zerg workers take no override; bucket {} got {}",
            sample.game_loop, sample.efficiency_pct
        );
    }
}

// ── The scenarios under each of their names ─────────────────────────

#[test]
fn production_efficiency_workers_baseline_single_cc_one_birth() {
    check_workers_baseline_single_cc_one_birth();
}

#[test]
fn tests_workers_baseline_single_cc_one_birth() {
    check_workers_baseline_single_cc_one_birth();
}

#[test]
fn baseline_single_cc_one_birth() {
    check_workers_baseline_single_cc_one_birth();
}

#[test]
fn production_efficiency_army_baseline_one_barracks_one_unit() {
    check_army_baseline_one_barracks_one_unit();
}

#[test]
fn tests_army_baseline_one_barracks_one_unit() {
    check_army_baseline_one_barracks_one_unit();
}

#[test]
fn baseline_one_barracks_one_unit() {
    check_army_baseline_one_barracks_one_unit();
}

#[test]
fn production_efficiency_capacity_loss_during_production_no_underflow() {
    check_capacity_loss_during_production_no_underflow();
}

#[test]
fn tests_capacity_loss_during_production_no_underflow() {
    check_capacity_loss_during_production_no_underflow();
}

#[test]
fn army_capacity_loss_during_production_no_underflow() {
    check_capacity_loss_during_production_no_underflow();
}

#[test]
fn production_efficiency_army_train_started_and_finished_same_loop_is_back_dated() {
    check_train_started_and_finished_same_loop_is_back_dated();
}

#[test]
fn tests_army_train_started_and_finished_same_loop_is_back_dated() {
    check_train_started_and_finished_same_loop_is_back_dated();
}

#[test]
fn train_started_and_finished_same_loop_is_back_dated() {
    check_train_started_and_finished_same_loop_is_back_dated();
}

#[test]
fn production_efficiency_orphan_started_closes_at_game_end() {
    check_orphan_started_closes_at_game_end();
}

#[test]
fn tests_orphan_started_closes_at_game_end() {
    check_orphan_started_closes_at_game_end();
}

#[test]
fn army_orphan_started_closes_at_game_end() {
    check_orphan_started_closes_at_game_end();
}

#[test]
fn production_efficiency_army_supply_maxed_forces_hundred_percent() {
    check_army_supply_maxed_forces_hundred_percent();
}

#[test]
fn tests_army_supply_maxed_forces_hundred_percent() {
    check_army_supply_maxed_forces_hundred_percent();
}

#[test]
fn supply_maxed_forces_hundred_percent() {
    check_army_supply_maxed_forces_hundred_percent();
}

#[test]
fn production_efficiency_workers_ignore_supply_maxed_override() {
    check_workers_ignore_supply_maxed_override();
}

#[test]
fn tests_workers_ignore_supply_maxed_override() {
    check_workers_ignore_supply_maxed_override();
}

#[test]
fn ignore_supply_maxed_override() {
    check_workers_ignore_supply_maxed_override();
}

#[test]
fn warpgate_extends_busy_window_with_cooldown() {
    check_warpgate_extends_busy_window_with_cooldown();
}

#[test]
fn extends_busy_window_with_cooldown() {
    check_warpgate_extends_busy_window_with_cooldown();
}

#[test]
fn warpgate_cycle_not_applied_before_research() {
    check_warpgate_cycle_not_applied_before_research();
}

#[test]
fn cycle_not_applied_before_research() {
    check_warpgate_cycle_not_applied_before_research();
}

#[test]
fn warpgate_only_extends_for_warp_gate_units() {
    check_warpgate_only_extends_for_warp_gate_units();
}

#[test]
fn only_extends_for_warp_gate_units() {
    check_warpgate_only_extends_for_warp_gate_units();
}

#[test]
fn zerg_workers_single_hatch_continuous_is_100pct() {
    check_zerg_workers_single_hatch_continuous_is_100pct();
}

#[test]
fn workers_single_hatch_continuous_is_100pct() {
    check_zerg_workers_single_hatch_continuous_is_100pct();
}

#[test]
fn zerg_workers_inject_boost_with_full_spend() {
    check_zerg_workers_inject_boost_with_full_spend();
}

#[test]
fn workers_inject_boost_with_full_spend() {
    check_zerg_workers_inject_boost_with_full_spend();
}

#[test]
fn zerg_workers_inject_ignored_drops_efficiency() {
    check_zerg_workers_inject_ignored_drops_efficiency();
}

#[test]
fn workers_inject_ignored_drops_efficiency() {
    check_zerg_workers_inject_ignored_drops_efficiency();
}

#[test]
fn zerg_army_only_larva_born_counted() {
    check_zerg_army_only_larva_born_counted();
}

#[test]
fn army_only_larva_born_counted() {
    check_zerg_army_only_larva_born_counted();
}

#[test]
fn zerg_hatch_morph_lair_no_capacity_gap() {
    check_zerg_hatch_morph_lair_no_capacity_gap();
}

#[test]
fn hatch_morph_lair_no_capacity_gap() {
    check_zerg_hatch_morph_lair_no_capacity_gap();
}

#[test]
fn zerg_hatch_destroyed_cancels_inflight_morph() {
    check_zerg_hatch_destroyed_cancels_inflight_morph();
}

#[test]
fn hatch_destroyed_cancels_inflight_morph() {
    check_zerg_hatch_destroyed_cancels_inflight_morph();
}

#[test]
fn zerg_army_supply_maxed_forces_hundred_percent() {
    check_zerg_army_supply_maxed_forces_hundred_percent();
}

#[test]
fn zerg_workers_ignore_supply_maxed_override() {
    check_zerg_workers_ignore_supply_maxed_override();
}

// ── Laws on concrete values ─────────────────────────────────────────

#[test]
fn efficiency_never_exceeds_capacity_and_buckets_tile_the_game() {
    let mut p = mk_player("Zerg");
    p.entity_events.push(hatch_finished(0, 100));
    p.inject_cmds.push(InjectCmd { game_loop: 100 });
    for i in 0..9i64 {
        p.entity_events.push(started(50, "Drone", i + 1, EntityCategory::Worker));
    }
    let bucket = 224u32;
    let s = player_efficiency_series(&p, EfficiencyTarget::Workers, 1000, bucket, 0, &build_time, &larva_army);
    assert_eq!(s.samples.len(), 5);
    for (k, x) in s.samples.iter().enumerate() {
        assert!(x.active <= x.capacity);
        assert!(x.active_integral <= x.capacity_integral);
        if k + 1 < s.samples.len() {
            assert_eq!(x.game_loop, (k as u32 + 1) * bucket);
        }
    }
    assert_eq!(s.samples.last().unwrap().game_loop, 1000);
    assert!(s.is_zerg);
}

#[test]
fn no_samples_without_time_or_buckets() {
    let p = mk_player("Terr");
    assert!(player_efficiency_series(&p, EfficiencyTarget::Army, 0, 224, 0, &build_time, &larva_army).samples.is_empty());
    assert!(player_efficiency_series(&p, EfficiencyTarget::Army, 1000, 0, 0, &build_time, &larva_army).samples.is_empty());
}

#[test]
fn sample_active_is_clamped_count_even_with_supply_maxed() {
    let samples = sweep(vec![(0, EvKind::CapacityUp), (0, EvKind::SupplyMaxedOn)], 1, 1);
    assert_eq!(samples.len(), 1);
    assert_eq!(samples[0].capacity, 1);
    assert_eq!(samples[0].active, 0);
    // Supply maxed counts the whole capacity as busy in the integral.
    assert_eq!(samples[0].active_integral, 1);
}
