use sc2_replay_utils::playback::{apply_delta, next_speed};

#[test]
fn delta_clamps_to_timeline() {
    let mut l = 100u32;
    apply_delta(&mut l, 50, 1000);
    assert_eq!(l, 150);
    apply_delta(&mut l, -500, 1000);
    assert_eq!(l, 0);
    apply_delta(&mut l, 5000, 1000);
    assert_eq!(l, 1000);
    let mut m = u32::MAX;
    apply_delta(&mut m, 1, u32::MAX);
    assert_eq!(m, u32::MAX);
}

#[test]
fn speed_cycle() {
    assert_eq!(next_speed(1), 2);
    assert_eq!(next_speed(2), 4);
    assert_eq!(next_speed(4), 8);
    assert_eq!(next_speed(8), 1);
    assert_eq!(next_speed(3), 2);
    let mut s = 4u8;
    for _ in 0..4 {
        s = next_speed(s);
    }
    assert_eq!(s, 4);
}
