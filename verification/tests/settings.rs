use sc2_replay_utils::settings::{DateRange, OverlayUiStatus, SettingsOutcome};

#[test]
fn settings_defaults() {
    let o = SettingsOutcome::default();
    assert!(!o.saved && !o.reset_defaults && !o.classify_now && !o.stop_classification);
    assert!(!o.overlay_apply && !o.overlay_open_folder && !o.overlay_restore_defaults);
    let s = OverlayUiStatus::default();
    assert!(!s.running);
    assert_eq!(s.bound_port, 0);
    assert_eq!(s.url, "");
    assert_eq!(s.error, None);
    assert_eq!(DateRange::default(), DateRange::ThisWeek);
}
