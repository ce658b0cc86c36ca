use motoc::monitor::Monitor;
use motoc::pose::{effective, located, LocationFlags, NotTracked};

const ALL: LocationFlags = LocationFlags {
    position_valid: true,
    position_tracked: true,
    orientation_valid: true,
    orientation_tracked: true,
};

#[test]
fn located_needs_every_flag() {
    assert_eq!(located(5u8, ALL), Ok(5));
    assert!(ALL.is_fully_tracked());
    for k in 0..4 {
        let mut f = ALL;
        match k {
            0 => f.position_valid = false,
            1 => f.position_tracked = false,
            2 => f.orientation_valid = false,
            _ => f.orientation_tracked = false,
        }
        assert_eq!(located(5u8, f), Err(NotTracked));
    }
}

#[test]
fn invalid_velocity_counts_as_still() {
    assert_eq!(effective([1.0f32, 2.0, 3.0], true, [0.0; 3]), [1.0, 2.0, 3.0]);
    assert_eq!(effective([1.0f32, 2.0, 3.0], false, [0.0; 3]), [0.0, 0.0, 0.0]);
}

#[test]
fn monitor_builds() {
    let _m = Monitor::new();
}
