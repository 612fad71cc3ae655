use sc2_replay_utils::tabs::{
    entry_kind_full_name, entry_kind_name_key, format_display_name, race_initial, row_visible, BuildOrderFilter, EntryKind, Tab,
};

fn localize(key: &String) -> String {
    match key.as_str() {
        "InjectLarva" => "Inject Larva".to_string(),
        "Hatchery" => "Hatch".to_string(),
        "SCV" => "SCV (worker)".to_string(),
        "tab.timeline" => "Linha do tempo".to_string(),
        "entrykind.worker" => "Trabalhador".to_string(),
        other => other.to_string(),
    }
}

#[test]
fn tab_labels_and_order() {
    assert_eq!(Tab::Timeline.label(&localize), "Linha do tempo");
    assert_eq!(Tab::BuildOrder.label(&localize), "tab.build_order");
    assert_eq!(Tab::Timeline.label_key(), "tab.timeline");
    assert_eq!(Tab::Insights.label_key(), "tab.insights");
    assert_eq!(Tab::all(), vec![Tab::Timeline, Tab::BuildOrder, Tab::Charts, Tab::Chat, Tab::Insights]);
}

#[test]
fn entry_kind_keys() {
    assert_eq!(entry_kind_name_key(EntryKind::Worker), "entrykind.worker");
    assert_eq!(entry_kind_name_key(EntryKind::Inject), "entrykind.inject");
    assert_eq!(entry_kind_full_name(EntryKind::Worker, &localize), "Trabalhador");
}

#[test]
fn filter_allows_and_counts() {
    let mut f = BuildOrderFilter::default();
    assert_eq!(f.active_count(), 6);
    assert!(f.allows(EntryKind::Research));
    f.show_units = false;
    f.show_injects = false;
    assert_eq!(f.active_count(), 4);
    assert!(!f.allows(EntryKind::Unit));
    assert!(!f.allows(EntryKind::Inject));
    assert!(f.allows(EntryKind::Worker));
}

#[test]
fn race_initials() {
    assert_eq!(race_initial("Terran"), 'T');
    assert_eq!(race_initial("protoss"), 'P');
    assert_eq!(race_initial("Zerg"), 'Z');
    assert_eq!(race_initial("random"), 'R');
    assert_eq!(race_initial("Xel'Naga"), '?');
    assert_eq!(race_initial(""), '?');
}

#[test]
fn display_names_parse_injects() {
    assert_eq!(format_display_name("InjectLarva@Hatchery@45_67", &localize), "Inject Larva @ Hatch (45, 67)");
    assert_eq!(format_display_name("InjectLarva@Lair", &localize), "Inject Larva @ Lair");
    assert_eq!(format_display_name("InjectLarva@Hive@_", &localize), "Inject Larva @ Hive (, )");
    assert_eq!(format_display_name("SCV", &localize), "SCV (worker)");
    assert_eq!(format_display_name("InjectLarv", &localize), "InjectLarv");
}

#[test]
fn build_order_rows_follow_filter_and_search() {
    let all = BuildOrderFilter::default();
    assert!(row_visible(&all, EntryKind::Unit, "Marine", "Marine", ""));
    assert!(row_visible(&all, EntryKind::Unit, "Marine", "Fuzileiro", "rin"));
    assert!(row_visible(&all, EntryKind::Unit, "Marine", "Fuzileiro", "fuzil"));
    assert!(!row_visible(&all, EntryKind::Unit, "Marine", "Fuzileiro", "zealot"));
    // The display name is lower-cased in full Unicode, the action in ASCII only.
    assert!(row_visible(&all, EntryKind::Research, "Stimpack", "ÉVOLUTION", "év"));
    let mut no_units = BuildOrderFilter::default();
    no_units.show_units = false;
    assert!(!row_visible(&no_units, EntryKind::Unit, "Marine", "Marine", ""));
    assert!(row_visible(&no_units, EntryKind::Worker, "SCV", "SCV", "scv"));
}
