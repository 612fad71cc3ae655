use sc2_replay_utils::charts::{
    alive_at, assign_parallel_tracks, canonical_unit_name, effective_end_loop, snapshot_at, type_kind,
    type_palette_color,
    ArmyChartOptions, ChartMetric, ProductionChartOptions, ProductionView, TypeKind, WorkerProductionOptions,
};
use sc2_replay_utils::replay::ArmySnapshot;

#[test]
fn chart_options_defaults() {
    let a = ArmyChartOptions::default();
    assert_eq!(a.metric, ChartMetric::Value);
    assert!(a.show_army && !a.show_workers && !a.group_by_type && a.show_minor_grid);
    assert_eq!(a.grouped_player, 0);
    assert_eq!(ProductionView::default(), ProductionView::Workers);
    let p = ProductionChartOptions::default();
    assert_eq!(p.view, ProductionView::Workers);
    assert_eq!(p.selected_player, 0);
    assert_eq!(p.viewport, None);
    let w = WorkerProductionOptions::default();
    assert_eq!(w.selected_player, 0);
    assert_eq!(w.view, None);
}

#[test]
fn type_kind_workers_structures_tumors_army() {
    assert_eq!(type_kind("SCV", true, false), TypeKind::Worker);
    assert_eq!(type_kind("Barracks", false, true), TypeKind::Skip);
    assert_eq!(type_kind("CreepTumorBurrowed", false, false), TypeKind::Skip);
    assert_eq!(type_kind("Marine", false, false), TypeKind::Army);
}

#[test]
fn canonical_unit_name_folds_alternate_forms() {
    assert_eq!(canonical_unit_name("SiegeTankSieged"), "SiegeTank");
    assert_eq!(canonical_unit_name("ObserverSiegeMode"), "Observer");
    assert_eq!(canonical_unit_name("Hellbat"), "Hellion");
    assert_eq!(canonical_unit_name("VikingAssault"), "VikingFighter");
    assert_eq!(canonical_unit_name("DroneBurrowed"), "Drone");
    assert_eq!(canonical_unit_name("Marine"), "Marine");
    assert_eq!(canonical_unit_name("Observer"), "Observer");
}

#[test]
fn alive_at_last_sample_never_negative() {
    let s = vec![(10u32, 1i32), (20, 3), (30, -1), (40, 2)];
    assert_eq!(alive_at(&s, 5), 0);
    assert_eq!(alive_at(&s, 10), 1);
    assert_eq!(alive_at(&s, 25), 3);
    assert_eq!(alive_at(&s, 30), 0);
    assert_eq!(alive_at(&s, 1000), 2);
    assert_eq!(alive_at(&[], 5), 0);
}

#[test]
fn snapshot_at_latest_before() {
    let s = vec![
        ArmySnapshot { game_loop: 0, army_total: 0 },
        ArmySnapshot { game_loop: 160, army_total: 300 },
        ArmySnapshot { game_loop: 320, army_total: 650 },
    ];
    assert_eq!(snapshot_at(&s, 100).map(|x| x.army_total), Some(0));
    assert_eq!(snapshot_at(&s, 160).map(|x| x.army_total), Some(300));
    assert_eq!(snapshot_at(&s, 5000).map(|x| x.army_total), Some(650));
    assert!(snapshot_at(&s[1..], 100).is_none());
}

#[test]
fn effective_end_cuts_at_time_limit() {
    assert_eq!(effective_end_loop(1000, 0, 0), 1000);
    assert_eq!(effective_end_loop(0, 0, 0), 1);
    assert_eq!(effective_end_loop(1000, 30, 672), 672);
    assert_eq!(effective_end_loop(1000, 60, 1344), 1000);
    assert_eq!(effective_end_loop(1000, 1, 0), 1);
}

#[test]
fn parallel_tracks_greedy_by_start() {
    // Sorted by start: (0,10) t0, (5,15) t1, (10,20) t0 (t0 free at 10), (12,30) t1? t1 ends 15 > 12 -> t2.
    let blocks = vec![(10u32, 20u32), (0, 10), (12, 30), (5, 15)];
    assert_eq!(assign_parallel_tracks(&blocks), vec![0, 0, 2, 1]);
    assert_eq!(assign_parallel_tracks(&[]), Vec::<usize>::new());
    // Ties on start keep input order.
    assert_eq!(assign_parallel_tracks(&[(0, 5), (0, 5), (5, 6)]), vec![0, 1, 0]);
}

#[test]
fn parallel_tracks_never_overlap_on_a_track() {
    let blocks = vec![(3u32, 9u32), (0, 4), (4, 4), (8, 12), (1, 2), (9, 10), (2, 8)];
    let tracks = assign_parallel_tracks(&blocks);
    for i in 0..blocks.len() {
        for j in 0..blocks.len() {
            if i != j && tracks[i] == tracks[j] {
                assert!(blocks[i].1 <= blocks[j].0 || blocks[j].1 <= blocks[i].0);
            }
        }
    }
}

#[test]
fn palette_color_by_name_hash() {
    assert_eq!(type_palette_color("Marine"), (215, 153, 112));
    assert_eq!(type_palette_color("Zergling"), (255, 142, 142));
    assert_eq!(type_palette_color("Stalker"), (255, 142, 142));
    assert_eq!(type_palette_color(""), (166, 226, 46));
}

#[test]
fn parallel_tracks_are_as_few_as_possible() {
    let blocks = vec![(0u32, 10u32), (2, 5), (3, 8), (5, 12), (9, 11), (12, 14)];
    let tracks = assign_parallel_tracks(&blocks);
    for (i, &t) in tracks.iter().enumerate() {
        for lower in 0..t {
            assert!(
                (0..blocks.len()).any(|j| j != i
                    && tracks[j] == lower
                    && blocks[j].0 <= blocks[i].0
                    && blocks[i].0 < blocks[j].1),
                "block {i} on track {t} has no running block on track {lower}"
            );
        }
    }
    // Three blocks run at loop 3, and three tracks are used.
    assert_eq!(tracks.iter().max(), Some(&2));
}
