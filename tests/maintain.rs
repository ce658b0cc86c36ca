use motoc::maintain::{OffsetController, TickAction, TickInput, ANOMALY_RESET_MS, JUMP_OVERRIDE_TICKS};

fn tick(now_ms: u64) -> TickInput {
    TickInput { located: true, too_fast: false, anomalous: false, jumped: false, now_ms }
}

fn anomaly(now_ms: u64) -> TickInput {
    TickInput { anomalous: true, ..tick(now_ms) }
}

#[test]
fn untracked_tick_changes_nothing() {
    let mut c = OffsetController { anomaly_start: Some(10), override_ticks: 3 };
    let before = c;
    let t = TickInput { located: false, too_fast: true, anomalous: true, jumped: true, now_ms: 99_999 };
    assert_eq!(c.step(t), TickAction::NotTracking);
    assert_eq!(c, before);
}

#[test]
fn velocity_gate_leaves_offset_unchanged() {
    let mut c = OffsetController { anomaly_start: Some(100), override_ticks: 4 };
    let before = c;
    let t = TickInput { too_fast: true, anomalous: true, jumped: true, ..tick(20_000) };
    assert_eq!(c.step(t), TickAction::TooFast);
    assert_eq!(c, before);
}

#[test]
fn anomaly_resets_once_after_five_seconds() {
    let mut c = OffsetController::new();
    let mut resets = 0;
    let mut now: u64 = 1_000;
    while now <= 1_000 + 2 * ANOMALY_RESET_MS {
        let a = c.step(anomaly(now));
        if a == TickAction::AnomalyReset {
            resets += 1;
            assert!(now > 1_000 + ANOMALY_RESET_MS);
            assert_eq!(c.anomaly_start, Some(now));
        } else {
            assert_eq!(a, TickAction::AnomalyHold);
        }
        now += 40;
    }
    assert_eq!(resets, 1);
}

#[test]
fn anomaly_at_exactly_five_seconds_holds() {
    let mut c = OffsetController::new();
    assert_eq!(c.step(anomaly(0)), TickAction::AnomalyHold);
    assert_eq!(c.anomaly_start, Some(0));
    assert_eq!(c.step(anomaly(5_000)), TickAction::AnomalyHold);
    assert_eq!(c.step(anomaly(5_001)), TickAction::AnomalyReset);
    assert_eq!(c.anomaly_start, Some(5_001));
    assert_eq!(c.step(anomaly(10_001)), TickAction::AnomalyHold);
    assert_eq!(c.step(anomaly(10_002)), TickAction::AnomalyReset);
}

#[test]
fn anomaly_cleared_before_timeout() {
    let mut c = OffsetController::new();
    for now in [0u64, 1_000, 2_000, 4_999] {
        assert_eq!(c.step(anomaly(now)), TickAction::AnomalyHold);
    }
    assert_eq!(c.anomaly_start, Some(0));
    assert_eq!(c.step(tick(5_500)), TickAction::Apply { snap: false });
    assert_eq!(c.anomaly_start, None);
    assert_eq!(c.step(anomaly(6_000)), TickAction::AnomalyHold);
    assert_eq!(c.anomaly_start, Some(6_000));
}

#[test]
fn jump_snaps_for_the_override_window() {
    let mut c = OffsetController::new();
    assert_eq!(c.step(tick(0)), TickAction::Apply { snap: false });
    let jump = TickInput { jumped: true, ..tick(40) };
    assert_eq!(c.step(jump), TickAction::Apply { snap: true });
    assert_eq!(c.override_ticks, JUMP_OVERRIDE_TICKS);
    for k in 0..JUMP_OVERRIDE_TICKS {
        assert_eq!(c.step(tick(80 + 40 * k as u64)), TickAction::Apply { snap: true });
    }
    assert_eq!(c.step(tick(1_000)), TickAction::Apply { snap: false });
    assert_eq!(c.override_ticks, 0);
}

#[test]
fn skipped_ticks_keep_the_override_window() {
    let mut c = OffsetController::new();
    let jump = TickInput { jumped: true, ..tick(0) };
    c.step(jump);
    let fast = TickInput { too_fast: true, ..tick(40) };
    assert_eq!(c.step(fast), TickAction::TooFast);
    assert_eq!(c.override_ticks, JUMP_OVERRIDE_TICKS);
    assert_eq!(c.step(anomaly(80)), TickAction::AnomalyHold);
    assert_eq!(c.override_ticks, JUMP_OVERRIDE_TICKS);
}
