use sc2_replay_utils::watch::{announces_replay, is_replay_extension, WatchEventKind};

#[test]
fn replay_extension_any_case() {
    assert!(is_replay_extension("SC2Replay"));
    assert!(is_replay_extension("sc2replay"));
    assert!(!is_replay_extension("SC2Map"));
}

#[test]
fn only_created_or_modified_replays_are_announced() {
    assert!(announces_replay(WatchEventKind::Create, Some("SC2Replay")));
    assert!(announces_replay(WatchEventKind::Modify, Some("SC2REPLAY")));
    assert!(!announces_replay(WatchEventKind::Other, Some("SC2Replay")));
    assert!(!announces_replay(WatchEventKind::Create, Some("txt")));
    assert!(!announces_replay(WatchEventKind::Create, None));
}
