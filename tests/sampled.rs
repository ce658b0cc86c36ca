use motoc::session::{SessionAction, SessionEvent, SessionFailure, SessionLoop};
use motoc::protocol::StepResult;
use motoc::sampled::{HandOff, SampledMethod};

#[test]
fn new_sampled_method_is_empty() {
    let m: SampledMethod<u32> = SampledMethod::new(1, 2, true, 500, "last".to_string());
    assert_eq!(m.src_dev, 1);
    assert_eq!(m.dst_dev, 2);
    assert!(m.maintain);
    assert_eq!(m.num_samples, 500);
    assert_eq!(m.profile, "last");
    assert!(m.samples.is_empty());
    assert!(m.collecting());
}

#[test]
fn record_skips_failed_ticks_and_stops_when_full() {
    let mut m: SampledMethod<u32> = SampledMethod::new(0, 1, false, 3, "p".to_string());
    m.record(Some(10));
    m.record(None);
    m.record(Some(11));
    assert!(m.collecting());
    m.record(Some(12));
    assert!(!m.collecting());
    m.record(Some(13));
    assert_eq!(m.samples, vec![10, 11, 12]);
}

#[test]
fn implausible_fit_clears_samples_and_continues() {
    let mut m: SampledMethod<u32> = SampledMethod::new(0, 1, true, 2, "p".to_string());
    m.record(Some(1));
    m.record(Some(2));
    assert_eq!(m.conclude(false), StepResult::Continue);
    assert!(m.samples.is_empty());
    assert!(m.collecting());
}

#[test]
fn plausible_fit_hands_over_when_maintaining() {
    let mut m: SampledMethod<u32> = SampledMethod::new(4, 7, true, 1, "p".to_string());
    m.record(Some(1));
    assert_eq!(m.conclude(true), StepResult::Replace(HandOff { device_a: 4, device_b: 7 }));
    assert_eq!(m.samples, vec![1]);
}

#[test]
fn plausible_fit_ends_without_maintaining() {
    let mut m: SampledMethod<u32> = SampledMethod::new(4, 7, false, 1, "p".to_string());
    m.record(Some(1));
    assert_eq!(m.conclude(true), StepResult::End);
    assert_eq!(m.samples, vec![1]);
}

#[test]
fn session_lifecycle() {
    let mut s = SessionLoop::new();
    assert!(!s.should_step());
    assert_eq!(s.on_event(SessionEvent::Other), SessionAction::Ignore);
    assert_eq!(s.on_event(SessionEvent::Ready), SessionAction::Begin { prepare: true });
    assert!(s.should_step());
    assert_eq!(s.on_event(SessionEvent::EventsLost), SessionAction::Warn);
    assert_eq!(s.on_event(SessionEvent::Stopping), SessionAction::End);
    assert!(!s.should_step());
    assert_eq!(s.on_event(SessionEvent::Ready), SessionAction::Begin { prepare: false });
    assert!(s.should_step());
    assert_eq!(
        s.on_event(SessionEvent::LossPending),
        SessionAction::Fail(SessionFailure::SessionExiting)
    );
    assert_eq!(
        s.on_event(SessionEvent::Exiting),
        SessionAction::Fail(SessionFailure::SessionExiting)
    );
    assert_eq!(
        s.on_event(SessionEvent::InstanceLossPending),
        SessionAction::Fail(SessionFailure::InstanceLost)
    );
}
