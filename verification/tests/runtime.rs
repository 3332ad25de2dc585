use tennessee_eastman::runtime::{idv_mask, is_quit_key, LoopState};

#[test]
fn loop_starts_running_with_disturbances_held() {
    let s = LoopState::new();
    assert!(!s.shutdown && !s.disturbances_restored && !s.clean_exit && !s.finished && !s.holding);
}

#[test]
fn disturbances_are_restored_once_when_the_ramp_completes() {
    let mut s = LoopState::new();
    assert!(!s.begin_tick());
    assert!(!s.on_ramp(false));
    assert!(!s.disturbances_restored);
    assert!(s.on_ramp(true));
    assert!(s.disturbances_restored);
    assert!(!s.on_ramp(true));
    assert!(s.disturbances_restored);
}

#[test]
fn frozen_plant_with_alarm_is_a_shutdown() {
    let mut s = LoopState::new();
    s.begin_tick();
    let d = s.on_measurements(true, true, false);
    assert!(d.shutdown_detected);
    assert!(!d.advance_operational_time);
    assert!(!d.stop);
    assert!(s.shutdown);
    // the tick in which the shutdown was detected does not pause
    assert!(!s.on_render(true, true));
    // the next tick holds, and pauses in real-time mode
    assert!(s.begin_tick());
    assert!(s.on_render(true, true));
    assert!(!s.on_render(true, false));
    // quitting in hold is not a clean exit
    assert!(!s.on_render(false, true));
    assert!(s.finished);
    assert!(!s.clean_exit);
    assert!(!s.writes_snapshot(true, true));
}

#[test]
fn alarm_without_frozen_derivatives_only_stops_operational_time() {
    let mut s = LoopState::new();
    s.begin_tick();
    let d = s.on_measurements(true, false, false);
    assert!(!d.shutdown_detected);
    assert!(!d.advance_operational_time);
    let d = s.on_measurements(false, true, false);
    assert!(!d.shutdown_detected);
    assert!(d.advance_operational_time);
    assert!(!s.shutdown);
}

#[test]
fn time_limit_ends_the_loop_cleanly() {
    let mut s = LoopState::new();
    s.begin_tick();
    let d = s.on_measurements(false, false, true);
    assert!(d.stop);
    assert!(s.finished);
    assert!(s.clean_exit);
    assert!(s.writes_snapshot(true, true));
    assert!(!s.writes_snapshot(false, true));
    assert!(!s.writes_snapshot(true, false));
}

#[test]
fn quitting_while_running_is_a_clean_exit() {
    let mut s = LoopState::new();
    s.begin_tick();
    s.on_measurements(false, false, false);
    assert!(s.on_render(true, true));
    assert!(!s.on_render(true, false));
    s.begin_tick();
    assert!(!s.on_render(false, true));
    assert!(s.finished && s.clean_exit);
}

#[test]
fn idv_numbers_are_one_based() {
    let m = idv_mask(&[4], 20);
    assert_eq!(m.len(), 20);
    for (i, on) in m.iter().enumerate() {
        assert_eq!(*on, i == 3);
    }
    let m = idv_mask(&[0, 1, 20, 21, 1], 20);
    assert!(m[0]);
    assert!(m[19]);
    assert_eq!(m.iter().filter(|b| **b).count(), 2);
    assert!(idv_mask(&[], 20).iter().all(|b| !*b));
    assert!(idv_mask(&[1], 0).is_empty());
}

#[test]
fn quit_keys() {
    assert!(is_quit_key(Some('q'), false));
    assert!(is_quit_key(Some('q'), true));
    assert!(is_quit_key(Some('c'), true));
    assert!(!is_quit_key(Some('c'), false));
    assert!(!is_quit_key(Some('x'), true));
    assert!(!is_quit_key(None, true));
}
