use sc2_replay_utils::replay::{CameraPosition, EntityCategory, EntityEvent, EntityEventKind, PlayerTimeline};
use sc2_replay_utils::timeline::structure_attention_at;

fn empty_player() -> PlayerTimeline {
    PlayerTimeline::empty(1)
}

fn ev_finished(tag: i64, loop_: u32, x: u8, y: u8, ty: &str) -> EntityEvent {
    EntityEvent {
        game_loop: loop_,
        kind: EntityEventKind::ProductionFinished,
        entity_type: ty.to_string(),
        category: EntityCategory::Structure,
        tag,
        pos_x: x,
        pos_y: y,
        killer_player_id: None,
    }
}

fn ev_died(tag: i64, loop_: u32, x: u8, y: u8, ty: &str) -> EntityEvent {
    EntityEvent {
        game_loop: loop_,
        kind: EntityEventKind::Died,
        entity_type: ty.to_string(),
        category: EntityCategory::Structure,
        tag,
        pos_x: x,
        pos_y: y,
        killer_player_id: None,
    }
}

fn cam(loop_: u32, x: u8, y: u8) -> CameraPosition {
    CameraPosition { game_loop: loop_, x, y }
}

#[test]
fn timeline_empty_returns_zero_over_zero() {
    let p = empty_player();
    assert_eq!(structure_attention_at(&p, 1000), (0, 0));
}

#[test]
fn timeline_camera_without_structures_is_fully_distracted() {
    let mut p = empty_player();
    p.camera_positions = vec![cam(0, 100, 100), cam(100, 200, 200)];
    let (att, tot) = structure_attention_at(&p, 200);
    assert_eq!(att, 0);
    assert_eq!(tot, 201);
}

#[test]
fn timeline_alternating_camera_splits_attention() {
    let mut p = empty_player();
    p.entity_events = vec![ev_finished(1, 0, 50, 50, "Barracks")];
    p.camera_positions = vec![cam(0, 50, 50), cam(100, 200, 200)];
    let (att, tot) = structure_attention_at(&p, 200);
    assert_eq!(att, 100);
    assert_eq!(tot, 201);
}

#[test]
fn timeline_viewport_edge_still_counts() {
    let mut p = empty_player();
    p.entity_events = vec![ev_finished(1, 0, 62, 57, "Barracks")];
    p.camera_positions = vec![cam(0, 50, 50)];
    let (att, tot) = structure_attention_at(&p, 10);
    assert_eq!(att, 11);
    assert_eq!(tot, 11);
}

#[test]
fn timeline_structure_death_removes_coverage() {
    let mut p = empty_player();
    p.entity_events = vec![
        ev_finished(1, 0, 50, 50, "Barracks"),
        ev_died(1, 50, 50, 50, "Barracks"),
    ];
    p.camera_positions = vec![cam(0, 50, 50), cam(50, 50, 50)];
    let (att, tot) = structure_attention_at(&p, 100);
    assert_eq!(att, 50);
    assert_eq!(tot, 101);
}

#[test]
fn timeline_creep_tumor_is_ignored() {
    let mut p = empty_player();
    p.entity_events = vec![ev_finished(1, 0, 50, 50, "CreepTumorBurrowed")];
    p.camera_positions = vec![cam(0, 50, 50)];
    let (att, tot) = structure_attention_at(&p, 10);
    assert_eq!(att, 0);
    assert_eq!(tot, 11);
}

#[test]
fn entities_empty_returns_zero_over_zero() {
    let p = empty_player();
    assert_eq!(structure_attention_at(&p, 1000), (0, 0));
}

#[test]
fn entities_camera_without_structures_is_fully_distracted() {
    let mut p = empty_player();
    p.camera_positions = vec![cam(0, 100, 100), cam(100, 200, 200)];
    let (att, tot) = structure_attention_at(&p, 200);
    assert_eq!(att, 0);
    assert_eq!(tot, 201);
}

#[test]
fn entities_alternating_camera_splits_attention() {
    let mut p = empty_player();
    p.entity_events = vec![ev_finished(1, 0, 50, 50, "Barracks")];
    p.camera_positions = vec![cam(0, 50, 50), cam(100, 200, 200)];
    let (att, tot) = structure_attention_at(&p, 200);
    assert_eq!(att, 100);
    assert_eq!(tot, 201);
}

#[test]
fn entities_viewport_edge_still_counts() {
    let mut p = empty_player();
    p.entity_events = vec![ev_finished(1, 0, 62, 57, "Barracks")];
    p.camera_positions = vec![cam(0, 50, 50)];
    let (att, tot) = structure_attention_at(&p, 10);
    assert_eq!(att, 11);
    assert_eq!(tot, 11);
}

#[test]
fn entities_structure_death_removes_coverage() {
    let mut p = empty_player();
    p.entity_events = vec![
        ev_finished(1, 0, 50, 50, "Barracks"),
        ev_died(1, 50, 50, 50, "Barracks"),
    ];
    p.camera_positions = vec![cam(0, 50, 50), cam(50, 50, 50)];
    let (att, tot) = structure_attention_at(&p, 100);
    assert_eq!(att, 50);
    assert_eq!(tot, 101);
}

#[test]
fn entities_creep_tumor_is_ignored() {
    let mut p = empty_player();
    p.entity_events = vec![ev_finished(1, 0, 50, 50, "CreepTumorBurrowed")];
    p.camera_positions = vec![cam(0, 50, 50)];
    let (att, tot) = structure_attention_at(&p, 10);
    assert_eq!(att, 0);
    assert_eq!(tot, 11);
}

#[test]
fn viewport_just_outside_edge_is_distracted() {
    let mut p = empty_player();
    p.entity_events = vec![ev_finished(1, 0, 63, 50, "Barracks")];
    p.camera_positions = vec![cam(0, 50, 50)];
    assert_eq!(structure_attention_at(&p, 10), (0, 11));
}

#[test]
fn samples_after_until_are_ignored() {
    let mut p = empty_player();
    p.entity_events = vec![ev_finished(1, 0, 50, 50, "Barracks")];
    p.camera_positions = vec![cam(10, 50, 50), cam(30, 200, 200)];
    assert_eq!(structure_attention_at(&p, 20), (11, 11));
    assert_eq!(structure_attention_at(&p, 5), (0, 0));
}

#[test]
fn attention_grows_with_the_end_loop() {
    let mut p = empty_player();
    p.entity_events = vec![ev_finished(1, 0, 50, 50, "Barracks"), ev_died(1, 150, 50, 50, "Barracks")];
    p.camera_positions = vec![cam(0, 50, 50), cam(100, 200, 200), cam(120, 52, 50), cam(300, 50, 50)];
    let mut prev = (0u32, 0u32);
    for until in [0u32, 50, 99, 100, 130, 150, 200, 299, 300, 400] {
        let cur = structure_attention_at(&p, until);
        assert!(cur.0 >= prev.0 && cur.1 >= prev.1, "{until}");
        assert!(cur.0 - prev.0 <= cur.1 - prev.1, "{until}");
        prev = cur;
    }
}
