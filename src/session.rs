//! The runtime session's lifecycle, as the loop that drives calibration sees
//! it: which session events start and stop the work, and which end the run.
use vstd::prelude::*;

verus! {

/// An event that the runtime reports about the session.
#[derive(Clone, Copy, PartialEq, Eq, Structural, Debug)]
pub enum SessionEvent {
    /// The session is ready to begin.
    Ready,
    /// The session is stopping.
    Stopping,
    /// The session is exiting.
    Exiting,
    /// The session is about to be lost.
    LossPending,
    /// The whole runtime instance is about to be lost.
    InstanceLossPending,
    /// The runtime dropped events it could not queue.
    EventsLost,
    /// Anything else.
    Other,
}

/// Why the run ends.
#[derive(Clone, Copy, PartialEq, Eq, Structural, Debug)]
pub enum SessionFailure {
    SessionExiting,
    InstanceLost,
}

/// What the loop does about an event.
#[derive(Clone, Copy, PartialEq, Eq, Structural, Debug)]
pub enum SessionAction {
    /// Begin the session; with `prepare`, also read the devices and set up
    /// the calibration method, which happens once per run.
    Begin { prepare: bool },
    /// End the session.
    End,
    /// Stop the run with this failure.
    Fail(SessionFailure),
    /// Report that events were lost and go on.
    Warn,
    /// Nothing to do.
    Ignore,
}

/// The loop's view of the session.
#[derive(Clone, Copy, PartialEq, Eq, Structural, Debug)]
pub struct SessionLoop {
    /// The session has begun and not ended since.
    pub running: bool,
    /// The devices were read and the calibration method set up.
    pub prepared: bool,
}

/// The loop's transition on one event.
pub open spec fn on_event_spec(s: SessionLoop, e: SessionEvent) -> (SessionLoop, SessionAction) {
    match e {
        SessionEvent::Ready => (
            SessionLoop { running: true, prepared: true },
            SessionAction::Begin { prepare: !s.prepared },
        ),
        SessionEvent::Stopping => (SessionLoop { running: false, prepared: s.prepared }, SessionAction::End),
        SessionEvent::Exiting => (s, SessionAction::Fail(SessionFailure::SessionExiting)),
        SessionEvent::LossPending => (s, SessionAction::Fail(SessionFailure::SessionExiting)),
        SessionEvent::InstanceLossPending => (s, SessionAction::Fail(SessionFailure::InstanceLost)),
        SessionEvent::EventsLost => (s, SessionAction::Warn),
        SessionEvent::Other => (s, SessionAction::Ignore),
    }
}

impl SessionLoop {
    /// Before the first event: not running, nothing prepared.
    pub fn new() -> (r: Self)
        ensures
            !r.running,
            !r.prepared,
    {
        SessionLoop { running: false, prepared: false }
    }

    /// Decides what to do about an event and updates the view of the session.
    pub fn on_event(&mut self, e: SessionEvent) -> (a: SessionAction)
        ensures
            (*final(self), a) == on_event_spec(*old(self), e),
    {
        match e {
            SessionEvent::Ready => {
                let prepare = !self.prepared;
                self.running = true;
                self.prepared = true;
                SessionAction::Begin { prepare }
            },
            SessionEvent::Stopping => {
                self.running = false;
                SessionAction::End
            },
            SessionEvent::Exiting | SessionEvent::LossPending => SessionAction::Fail(
                SessionFailure::SessionExiting,
            ),
            SessionEvent::InstanceLossPending => SessionAction::Fail(SessionFailure::InstanceLost),
            SessionEvent::EventsLost => SessionAction::Warn,
            SessionEvent::Other => SessionAction::Ignore,
        }
    }

    /// Whether the calibration method is stepped this tick: only while the
    /// session runs.
    pub fn should_step(&self) -> (r: bool)
        ensures
            r == self.running,
    {
        self.running
    }
}

/// The devices are read and the method set up at most once per run: after
/// a first `Ready`, no later event asks for it again.
pub proof fn prepared_once(s: SessionLoop, e: SessionEvent)
    requires
        s.prepared,
    ensures
        on_event_spec(s, e).0.prepared,
        on_event_spec(s, e).1 != (SessionAction::Begin { prepare: true }),
{
}

} // verus!
