use sc2_replay_utils::insights::{
    active_count_at, detect_turning_point, format_signed, human_duration, is_protoss_race, milestone_loop,
    milestones_for, net_trade_severity, nth_townhall_loop, severity_rgb, supply_block_severity,
    timing_delta_severity, unspent_severity, worker_delta_style, workers_at, Milestone, Outcome, Severity,
};
use sc2_replay_utils::replay::{
    ArmySnapshot, EntityCategory, EntityEvent, EntityEventKind, PlayerTimeline, StatsSnapshot, UpgradeEntry,
};

fn finished(loop_: u32, ty: &str) -> EntityEvent {
    EntityEvent {
        game_loop: loop_,
        kind: EntityEventKind::ProductionFinished,
        entity_type: ty.to_string(),
        category: EntityCategory::Structure,
        tag: loop_ as i64,
        pos_x: 0,
        pos_y: 0,
        killer_player_id: None,
    }
}

fn started(loop_: u32, ty: &str) -> EntityEvent {
    EntityEvent { kind: EntityEventKind::ProductionStarted, ..finished(loop_, ty) }
}

fn snap(loop_: u32, army: i32) -> ArmySnapshot {
    ArmySnapshot { game_loop: loop_, army_total: army }
}

#[test]
fn human_duration_seconds_and_minutes() {
    assert_eq!(human_duration(0), "0s");
    assert_eq!(human_duration(45), "45s");
    assert_eq!(human_duration(59), "59s");
    assert_eq!(human_duration(60), "1:00");
    assert_eq!(human_duration(61), "1:01");
    assert_eq!(human_duration(605), "10:05");
    assert_eq!(human_duration(3599), "59:59");
    assert_eq!(human_duration(3725), "62:05");
}

#[test]
fn format_signed_marks_non_negative() {
    assert_eq!(format_signed(0), "+0");
    assert_eq!(format_signed(300), "+300");
    assert_eq!(format_signed(-50), "-50");
    assert_eq!(format_signed(i64::MIN), "-9223372036854775808");
    assert_eq!(format_signed(i64::MAX), "+9223372036854775807");
}

#[test]
fn protoss_race_by_initial() {
    assert!(is_protoss_race("Protoss"));
    assert!(is_protoss_race("prot"));
    assert!(!is_protoss_race("Terran"));
    assert!(!is_protoss_race(""));
}

#[test]
fn nth_townhall_counts_new_constructions_only() {
    let mut p = PlayerTimeline::empty(1);
    p.entity_events = vec![
        finished(0, "CommandCenter"),
        started(1000, "CommandCenter"),
        finished(1500, "OrbitalCommand"),
        finished(2000, "CommandCenter"),
        finished(3000, "CommandCenter"),
    ];
    assert_eq!(nth_townhall_loop(&p, "CommandCenter", 1), Some(0));
    assert_eq!(nth_townhall_loop(&p, "CommandCenter", 2), Some(2000));
    assert_eq!(nth_townhall_loop(&p, "CommandCenter", 3), Some(3000));
    assert_eq!(nth_townhall_loop(&p, "CommandCenter", 4), None);
    assert_eq!(nth_townhall_loop(&p, "CommandCenter", 0), None);
    assert_eq!(nth_townhall_loop(&p, "Nexus", 1), None);
}

#[test]
fn milestones_per_race() {
    let t = milestones_for('T');
    assert_eq!(t.len(), 3);
    assert_eq!(t[0].0, "insight.tech_timings.tr.factory");
    assert!(matches!(t[0].1, Milestone::Structure("Factory")));
    assert!(matches!(t[1].1, Milestone::Upgrade("Stimpack")));
    assert!(matches!(t[2].1, Milestone::Structure("Starport")));
    let p = milestones_for('P');
    assert!(matches!(p[1].1, Milestone::Upgrade("WarpGate")));
    let z = milestones_for('Z');
    assert_eq!(z[1].0, "insight.tech_timings.zr.roach_warren");
    assert!(matches!(z[2].1, Milestone::Structure("Hive")));
    assert!(milestones_for('R').is_empty());
}

#[test]
fn milestone_loop_structures_and_upgrades() {
    let mut p = PlayerTimeline::empty(1);
    p.entity_events = vec![started(100, "Factory"), finished(900, "Factory"), finished(1200, "Factory")];
    p.upgrades = vec![
        UpgradeEntry { game_loop: 3000, name: "ShieldWall".to_string() },
        UpgradeEntry { game_loop: 4000, name: "Stimpack".to_string() },
    ];
    assert_eq!(milestone_loop(&p, &Milestone::Structure("Factory")), Some(900));
    assert_eq!(milestone_loop(&p, &Milestone::Structure("Starport")), None);
    assert_eq!(milestone_loop(&p, &Milestone::Upgrade("Stimpack")), Some(4000));
    assert_eq!(milestone_loop(&p, &Milestone::Upgrade("Concussive")), None);
}

#[test]
fn workers_at_takes_last_snapshot_before() {
    let mut p = PlayerTimeline::empty(1);
    p.stats = vec![
        StatsSnapshot { game_loop: 160, workers: 12, supply_used: 12 },
        StatsSnapshot { game_loop: 320, workers: 14, supply_used: 14 },
        StatsSnapshot { game_loop: 480, workers: 17, supply_used: 17 },
    ];
    assert_eq!(workers_at(&p, 0), 0);
    assert_eq!(workers_at(&p, 159), 0);
    assert_eq!(workers_at(&p, 160), 12);
    assert_eq!(workers_at(&p, 400), 14);
    assert_eq!(workers_at(&p, 480), 17);
    assert_eq!(workers_at(&p, 10_000), 17);
}

#[test]
fn active_count_reads_the_type_series() {
    let mut p = PlayerTimeline::empty(1);
    p.alive_count = vec![
        ("MULE".to_string(), vec![(100, 1), (200, 2), (500, 0)]),
        ("SCV".to_string(), vec![(0, 12)]),
    ];
    assert_eq!(active_count_at(&p, "MULE", 50), 0);
    assert_eq!(active_count_at(&p, "MULE", 250), 2);
    assert_eq!(active_count_at(&p, "MULE", 500), 0);
    assert_eq!(active_count_at(&p, "SCV", 9), 12);
    assert_eq!(active_count_at(&p, "Probe", 9), 0);
}

#[test]
fn turning_point_needs_three_samples() {
    let pov = vec![snap(0, 1000), snap(160, 1000)];
    let opp = vec![snap(0, 0), snap(160, 0)];
    assert_eq!(detect_turning_point(&pov, &opp), Outcome::InsufficientData);
}

#[test]
fn turning_point_ignores_small_armies() {
    let pov = vec![snap(0, 100), snap(160, 200), snap(320, 100)];
    let opp = vec![snap(0, 100), snap(160, 200), snap(320, 300)];
    assert_eq!(detect_turning_point(&pov, &opp), Outcome::InsufficientData);
}

#[test]
fn turning_point_never_ahead() {
    let pov = vec![snap(0, 500), snap(160, 600), snap(320, 700)];
    let opp = vec![snap(0, 500), snap(160, 900), snap(320, 1000)];
    assert_eq!(detect_turning_point(&pov, &opp), Outcome::NeverAhead);
}

#[test]
fn turning_point_overtaken_after_peak() {
    let pov = vec![snap(0, 600), snap(160, 2000), snap(320, 1500), snap(480, 800), snap(640, 900)];
    let opp = vec![snap(0, 500), snap(160, 800), snap(320, 1400), snap(480, 1200), snap(640, 500)];
    assert_eq!(
        detect_turning_point(&pov, &opp),
        Outcome::Overtaken { peak_loop: 160, peak_diff: 1200, turning_loop: 480 }
    );
}

#[test]
fn turning_point_held_advantage() {
    let pov = vec![snap(0, 600), snap(160, 2000), snap(320, 1500)];
    let opp = vec![snap(0, 500), snap(160, 800), snap(320, 1400)];
    assert_eq!(detect_turning_point(&pov, &opp), Outcome::HeldAdvantage { peak_diff: 1200 });
}

#[test]
fn turning_point_first_peak_wins_ties_and_truncates() {
    let pov = vec![snap(0, 900), snap(160, 900), snap(320, 100), snap(480, 5000)];
    let opp = vec![snap(0, 400), snap(160, 400), snap(320, 600)];
    assert_eq!(
        detect_turning_point(&pov, &opp),
        Outcome::Overtaken { peak_loop: 0, peak_diff: 500, turning_loop: 320 }
    );
}

#[test]
fn severity_tiers() {
    assert_eq!(unspent_severity(299), Severity::Good);
    assert_eq!(unspent_severity(300), Severity::Warning);
    assert_eq!(unspent_severity(600), Severity::Bad);
    assert_eq!(supply_block_severity(4), Severity::Good);
    assert_eq!(supply_block_severity(14), Severity::Warning);
    assert_eq!(supply_block_severity(15), Severity::Bad);
    assert_eq!(net_trade_severity(0), Severity::Good);
    assert_eq!(net_trade_severity(-500), Severity::Warning);
    assert_eq!(net_trade_severity(-501), Severity::Bad);
    assert_eq!(timing_delta_severity(-3), Severity::Good);
    assert_eq!(timing_delta_severity(3), Severity::Bad);
    assert_eq!(timing_delta_severity(0), Severity::Neutral);
    assert_eq!(severity_rgb(Severity::Warning), (220, 190, 90));
    assert_eq!(worker_delta_style(5), (Severity::Good, "+5".to_string()));
    assert_eq!(worker_delta_style(-2), (Severity::Bad, "-2".to_string()));
    assert_eq!(worker_delta_style(0), (Severity::Neutral, "0".to_string()));
}

#[test]
fn mule_bonus_rounds_three_and_a_half_per_mule() {
    use_mule_bonus_cases();
}

fn use_mule_bonus_cases() {
    assert_eq!(sc2_replay_utils::insights::mule_bonus(0), 0);
    assert_eq!(sc2_replay_utils::insights::mule_bonus(1), 4);
    assert_eq!(sc2_replay_utils::insights::mule_bonus(2), 7);
    assert_eq!(sc2_replay_utils::insights::mule_bonus(3), 11);
    assert_eq!(sc2_replay_utils::insights::mule_bonus(-1), -4);
    for m in -1000i32..1000 {
        assert_eq!(sc2_replay_utils::insights::mule_bonus(m), (m as f32 * 3.5).round() as i32, "{m}");
    }
    assert_eq!(sc2_replay_utils::insights::mule_bonus(i32::MAX), i32::MAX);
    assert_eq!(sc2_replay_utils::insights::mule_bonus(i32::MIN), i32::MIN);
}
