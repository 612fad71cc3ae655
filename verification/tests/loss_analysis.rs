use sc2_replay_utils::loss_analysis::{
    cluster_engagements, player_kills, player_losses, DeathEvent, Engagement,
};
use sc2_replay_utils::replay::{
    EntityCategory, EntityEvent, EntityEventKind, PlayerTimeline, ReplayTimeline,
};

fn cost(name: &String, _build: u32) -> (u32, u32) {
    match name.as_str() {
        "Marine" => (50, 0),
        "Marauder" => (100, 25),
        "Barracks" => (150, 0),
        _ => (0, 0),
    }
}

fn died(loop_: u32, ty: &str, cat: EntityCategory, killer: Option<u8>) -> EntityEvent {
    EntityEvent {
        game_loop: loop_,
        kind: EntityEventKind::Died,
        entity_type: ty.to_string(),
        category: cat,
        tag: loop_ as i64,
        pos_x: 0,
        pos_y: 0,
        killer_player_id: killer,
    }
}

fn timeline() -> ReplayTimeline {
    let mut p1 = PlayerTimeline::empty(1);
    p1.entity_events = vec![
        died(10, "Marine", EntityCategory::Unit, Some(2)),
        died(20, "Marine", EntityCategory::Unit, None),
        died(30, "Marauder", EntityCategory::Unit, Some(1)),
        died(40, "Barracks", EntityCategory::Structure, Some(2)),
    ];
    let mut p2 = PlayerTimeline::empty(2);
    p2.entity_events = vec![
        died(50, "Marauder", EntityCategory::Unit, Some(1)),
        died(5, "Marine", EntityCategory::Unit, Some(1)),
        died(60, "Marine", EntityCategory::Unit, Some(2)),
    ];
    ReplayTimeline { game_loops: 100, base_build: 0, max_time_seconds: 0, players: vec![p1, p2] }
}

fn death(loop_: u32, cat: EntityCategory, minerals: u32, vespene: u32) -> DeathEvent {
    DeathEvent { game_loop: loop_, entity_type: "X".to_string(), category: cat, minerals, vespene }
}

#[test]
fn losses_exclude_morphs_and_self_kills() {
    let t = timeline();
    let l = player_losses(&t, 0, &cost);
    let loops: Vec<u32> = l.iter().map(|d| d.game_loop).collect();
    assert_eq!(loops, vec![10, 40]);
    assert_eq!((l[0].minerals, l[0].vespene), (50, 0));
    assert_eq!(l[1].entity_type, "Barracks");
    assert!(player_losses(&t, 7, &cost).is_empty());
}

#[test]
fn kills_come_from_other_players_sorted_by_loop() {
    let t = timeline();
    let k = player_kills(&t, 0, &cost);
    let loops: Vec<u32> = k.iter().map(|d| d.game_loop).collect();
    assert_eq!(loops, vec![5, 50]);
    assert_eq!(k[1].total_value(), 125);
    assert!(player_kills(&t, 2, &cost).is_empty());
}

#[test]
fn engagements_split_on_gaps_and_skip_structures() {
    let losses = vec![
        death(100, EntityCategory::Unit, 50, 0),
        death(105, EntityCategory::Structure, 400, 0),
        death(300, EntityCategory::Unit, 100, 25),
    ];
    let kills = vec![death(110, EntityCategory::Unit, 75, 25), death(290, EntityCategory::Worker, 50, 0)];
    let e = cluster_engagements(&losses, &kills, 20);
    assert_eq!(
        e,
        vec![
            Engagement { start_loop: 100, end_loop: 110, lost_value: 50, killed_value: 100 },
            Engagement { start_loop: 290, end_loop: 300, lost_value: 125, killed_value: 50 },
        ]
    );
    assert_eq!(e[0].net_trade(), 50);
    assert_eq!(e[1].net_trade(), -75);
    assert_eq!(e[1].total_value(), 175);
}

#[test]
fn engagement_gap_is_inclusive() {
    let losses = vec![death(0, EntityCategory::Unit, 1, 0), death(10, EntityCategory::Unit, 1, 0)];
    assert_eq!(cluster_engagements(&losses, &[], 10).len(), 1);
    assert_eq!(cluster_engagements(&losses, &[], 9).len(), 2);
    assert!(cluster_engagements(&[], &[], 9).is_empty());
}

#[test]
fn engagements_account_for_every_army_death_once() {
    let losses = vec![
        death(500, EntityCategory::Unit, 100, 0),
        death(10, EntityCategory::Unit, 50, 25),
        death(12, EntityCategory::Structure, 400, 0),
        death(900, EntityCategory::Worker, 50, 0),
    ];
    let kills = vec![death(20, EntityCategory::Unit, 75, 0), death(520, EntityCategory::Unit, 150, 100)];
    let e = cluster_engagements(&losses, &kills, 30);
    let lost: u32 = e.iter().map(|x| x.lost_value).sum();
    let killed: u32 = e.iter().map(|x| x.killed_value).sum();
    assert_eq!(lost, 100 + 75 + 50);
    assert_eq!(killed, 75 + 250);
    for w in e.windows(2) {
        assert!(w[1].start_loop > w[0].end_loop + 30);
    }
    for x in &e {
        assert!(x.start_loop <= x.end_loop);
    }
    assert_eq!(e.len(), 3);
}

#[test]
fn losses_come_out_sorted_by_loop() {
    let t = timeline();
    let l = player_losses(&t, 1, &cost);
    let loops: Vec<u32> = l.iter().map(|d| d.game_loop).collect();
    assert_eq!(loops, vec![5, 50]);
}

#[test]
fn in_two_player_game_kills_of_one_are_losses_of_other() {
    let t = timeline();
    let kills: Vec<(u32, String)> =
        player_kills(&t, 0, &cost).iter().map(|d| (d.game_loop, d.entity_type.clone())).collect();
    let losses: Vec<(u32, String)> =
        player_losses(&t, 1, &cost).iter().map(|d| (d.game_loop, d.entity_type.clone())).collect();
    assert_eq!(kills, losses);
}

#[test]
fn structure_values_need_not_fit() {
    let losses = vec![death(10, EntityCategory::Structure, u32::MAX, 5), death(12, EntityCategory::Unit, 50, 0)];
    let e = cluster_engagements(&losses, &[], 20);
    assert_eq!(e.len(), 1);
    assert_eq!(e[0].lost_value, 50);
}
