//! Per-tick decisions of the continuous offset maintainer.
//!
//! The maintainer keeps a fixed relative transform between two devices by
//! nudging the destination tracking origin's offset every tick. The geometry
//! (poses, interpolation) is done by the caller; this module decides, from
//! what the caller observed on one tick, which of the possible reactions to
//! take, and keeps the two pieces of state that span ticks: the anomaly timer
//! and the snap window that follows a tracking jump.
use vstd::prelude::*;

verus! {

/// How long, in milliseconds, an anomaly must last before the destination
/// offset is reset to identity.
pub const ANOMALY_RESET_MS: u64 = 5000;

/// How many accepted ticks after a tracking jump still snap to the target.
pub const JUMP_OVERRIDE_TICKS: u32 = 9;

/// What the caller observed on one tick.
#[derive(Clone, Copy, PartialEq, Eq, Structural, Debug)]
pub struct TickInput {
    /// Both devices were located (position and orientation valid and tracked).
    pub located: bool,
    /// One of the devices moves faster than the velocity gate allows.
    pub too_fast: bool,
    /// Applying the correction would put the destination origin implausibly
    /// far from the world origin.
    pub anomalous: bool,
    /// Device A moved farther than the jump threshold since the last tick on
    /// which a correction was applied.
    pub jumped: bool,
    /// A monotonic clock reading, in milliseconds.
    pub now_ms: u64,
}

/// The reaction chosen for one tick.
#[derive(Clone, Copy, PartialEq, Eq, Structural, Debug)]
pub enum TickAction {
    /// A device is not tracked: report it and leave everything untouched.
    NotTracking,
    /// A device moves too fast: report it and leave everything untouched.
    TooFast,
    /// An anomaly is present but has not lasted long enough: leave the offset.
    AnomalyHold,
    /// An anomaly has lasted too long: reset the destination offset to identity.
    AnomalyReset,
    /// Move the destination offset toward the target; with `snap` the
    /// smoothing factor is 1 (jump straight to it), else the configured one.
    Apply { snap: bool },
}

/// The state of the maintainer that spans ticks.
#[derive(Clone, Copy, PartialEq, Eq, Structural, Debug)]
pub struct OffsetController {
    /// When the current anomaly was first seen (or last reset), if one is present.
    pub anomaly_start: Option<u64>,
    /// Accepted ticks still to snap after a tracking jump.
    pub override_ticks: u32,
}

/// A tick that passes the tracking check and the velocity gate.
pub open spec fn accepted(t: TickInput) -> bool {
    t.located && !t.too_fast
}

/// The controller's transition: the next state and the action for one tick.
pub open spec fn next(c: OffsetController, t: TickInput) -> (OffsetController, TickAction) {
    if !t.located {
        (c, TickAction::NotTracking)
    } else if t.too_fast {
        (c, TickAction::TooFast)
    } else if t.anomalous {
        match c.anomaly_start {
            None => (
                OffsetController { anomaly_start: Some(t.now_ms), override_ticks: c.override_ticks },
                TickAction::AnomalyHold,
            ),
            Some(s) => if t.now_ms > s + ANOMALY_RESET_MS {
                (
                    OffsetController {
                        anomaly_start: Some(t.now_ms),
                        override_ticks: c.override_ticks,
                    },
                    TickAction::AnomalyReset,
                )
            } else {
                (c, TickAction::AnomalyHold)
            },
        }
    } else if t.jumped {
        (
            OffsetController { anomaly_start: None, override_ticks: JUMP_OVERRIDE_TICKS },
            TickAction::Apply { snap: true },
        )
    } else if c.override_ticks > 0 {
        (
            OffsetController { anomaly_start: None, override_ticks: (c.override_ticks - 1) as u32 },
            TickAction::Apply { snap: true },
        )
    } else {
        (OffsetController { anomaly_start: None, override_ticks: 0 }, TickAction::Apply { snap: false })
    }
}

/// The state after a sequence of ticks.
pub open spec fn run(c: OffsetController, ts: Seq<TickInput>) -> OffsetController
    decreases ts.len(),
{
    if ts.len() == 0 {
        c
    } else {
        run(next(c, ts[0]).0, ts.drop_first())
    }
}

/// The actions taken over a sequence of ticks, one per tick.
pub open spec fn actions(c: OffsetController, ts: Seq<TickInput>) -> Seq<TickAction>
    decreases ts.len(),
{
    if ts.len() == 0 {
        Seq::empty()
    } else {
        seq![next(c, ts[0]).1] + actions(next(c, ts[0]).0, ts.drop_first())
    }
}

/// How many times the destination offset is reset over a sequence of ticks.
pub open spec fn resets(c: OffsetController, ts: Seq<TickInput>) -> nat
    decreases ts.len(),
{
    if ts.len() == 0 {
        0
    } else {
        (if next(c, ts[0]).1 == TickAction::AnomalyReset {
            1nat
        } else {
            0nat
        }) + resets(next(c, ts[0]).0, ts.drop_first())
    }
}

impl OffsetController {
    /// A fresh controller: no anomaly seen, no snap window open.
    pub fn new() -> (r: Self)
        ensures
            r.anomaly_start == None::<u64>,
            r.override_ticks == 0,
    {
        OffsetController { anomaly_start: None, override_ticks: 0 }
    }

    /// Decides one tick and advances the state.
    ///
    /// In order: an untracked device, then a device over the velocity gate,
    /// skip the tick with the state untouched. An anomaly starts the timer,
    /// or, once it has run for more than `ANOMALY_RESET_MS`, asks for a reset
    /// and restarts it. Any other tick clears the timer and applies the
    /// correction, snapping on a jump and for `JUMP_OVERRIDE_TICKS` accepted
    /// ticks after it.
    pub fn step(&mut self, t: TickInput) -> (a: TickAction)
        ensures
            (*final(self), a) == next(*old(self), t),
    {
        if !t.located {
            return TickAction::NotTracking;
        }
        if t.too_fast {
            return TickAction::TooFast;
        }
        if t.anomalous {
            match self.anomaly_start {
                None => {
                    self.anomaly_start = Some(t.now_ms);
                    TickAction::AnomalyHold
                },
                Some(s) => {
                    if t.now_ms >= s && t.now_ms - s > ANOMALY_RESET_MS {
                        self.anomaly_start = Some(t.now_ms);
                        TickAction::AnomalyReset
                    } else {
                        TickAction::AnomalyHold
                    }
                },
            }
        } else {
            self.anomaly_start = None;
            if t.jumped {
                self.override_ticks = JUMP_OVERRIDE_TICKS;
                TickAction::Apply { snap: true }
            } else if self.override_ticks > 0 {
                self.override_ticks = self.override_ticks - 1;
                TickAction::Apply { snap: true }
            } else {
                TickAction::Apply { snap: false }
            }
        }
    }
}

/// A tick that is applied as a correction and that is no tracking jump.
pub open spec fn calm(t: TickInput) -> bool {
    accepted(t) && !t.anomalous && !t.jumped
}

/// A tick that passes the gates and shows an anomaly.
pub open spec fn anomalous(t: TickInput) -> bool {
    accepted(t) && t.anomalous
}

/// A tick over the velocity gate leaves the state as it was and applies no
/// correction: the destination offset stays what it was on the tick before.
pub proof fn velocity_gate_keeps_offset(c: OffsetController, t: TickInput)
    requires
        t.located,
        t.too_fast,
    ensures
        next(c, t).0 == c,
        next(c, t).1 == TickAction::TooFast,
{
}

proof fn lemma_snap_window(c: OffsetController, ts: Seq<TickInput>)
    requires
        forall|i: int| 0 <= i < ts.len() ==> calm(#[trigger] ts[i]),
    ensures
        actions(c, ts).len() == ts.len(),
        forall|i: int|
            0 <= i < ts.len() ==> #[trigger] actions(c, ts)[i] == (TickAction::Apply {
                snap: i < c.override_ticks,
            }),
    decreases ts.len(),
{
    if ts.len() > 0 {
        let rest = ts.drop_first();
        assert(calm(ts[0]));
        assert forall|i: int| 0 <= i < rest.len() implies calm(#[trigger] rest[i]) by {
            assert(rest[i] == ts[i + 1]);
        }
        let c1 = next(c, ts[0]).0;
        lemma_snap_window(c1, rest);
        let acts = actions(c, ts);
        assert(acts == seq![next(c, ts[0]).1] + actions(c1, rest));
        assert forall|i: int| 0 <= i < ts.len() implies #[trigger] acts[i] == (TickAction::Apply {
            snap: i < c.override_ticks,
        }) by {
            if i > 0 {
                assert(acts[i] == actions(c1, rest)[i - 1]);
            }
        }
    }
}

/// A tracking jump makes the correction snap (smoothing factor 1) on that
/// tick and on the `JUMP_OVERRIDE_TICKS` calm ticks that follow it; after
/// that window the configured smoothing factor is used again.
pub proof fn jump_override_window(c: OffsetController, jump: TickInput, rest: Seq<TickInput>)
    requires
        accepted(jump),
        !jump.anomalous,
        jump.jumped,
        forall|i: int| 0 <= i < rest.len() ==> calm(#[trigger] rest[i]),
    ensures
        actions(c, seq![jump] + rest).len() == rest.len() + 1,
        forall|i: int|
            0 <= i <= rest.len() ==> #[trigger] actions(c, seq![jump] + rest)[i] == (
            TickAction::Apply { snap: i <= JUMP_OVERRIDE_TICKS }),
{
    let ts = seq![jump] + rest;
    assert(ts[0] == jump);
    assert(ts.drop_first() =~= rest);
    let c1 = next(c, jump).0;
    lemma_snap_window(c1, rest);
    let acts = actions(c, ts);
    assert(acts == seq![next(c, jump).1] + actions(c1, rest));
    assert forall|i: int| 0 <= i <= rest.len() implies #[trigger] acts[i] == (TickAction::Apply {
        snap: i <= JUMP_OVERRIDE_TICKS,
    }) by {
        if i > 0 {
            assert(acts[i] == actions(c1, rest)[i - 1]);
        }
    }
}

proof fn lemma_hold(c: OffsetController, ts: Seq<TickInput>, s: u64)
    requires
        c.anomaly_start == Some(s),
        forall|i: int|
            0 <= i < ts.len() ==> anomalous(#[trigger] ts[i]) && ts[i].now_ms <= s
                + ANOMALY_RESET_MS,
    ensures
        run(c, ts) == c,
        resets(c, ts) == 0,
    decreases ts.len(),
{
    if ts.len() > 0 {
        let rest = ts.drop_first();
        assert(anomalous(ts[0]));
        assert forall|i: int| 0 <= i < rest.len() implies anomalous(#[trigger] rest[i])
            && rest[i].now_ms <= s + ANOMALY_RESET_MS by {
            assert(rest[i] == ts[i + 1]);
        }
        lemma_hold(c, rest, s);
    }
}

proof fn lemma_hold_then_clear(c: OffsetController, ts: Seq<TickInput>, s: u64, calm_tick: TickInput)
    requires
        c.anomaly_start == Some(s),
        forall|i: int|
            0 <= i < ts.len() ==> anomalous(#[trigger] ts[i]) && ts[i].now_ms <= s
                + ANOMALY_RESET_MS,
        accepted(calm_tick),
        !calm_tick.anomalous,
    ensures
        run(c, ts.push(calm_tick)).anomaly_start == None::<u64>,
        resets(c, ts.push(calm_tick)) == 0,
    decreases ts.len(),
{
    let all = ts.push(calm_tick);
    if ts.len() == 0 {
        assert(all[0] == calm_tick);
        assert(all.drop_first().len() == 0);
        let c1 = next(c, calm_tick).0;
        assert(run(c1, all.drop_first()) == c1);
        assert(resets(c1, all.drop_first()) == 0);
    } else {
        let rest = ts.drop_first();
        assert(anomalous(ts[0]));
        assert(all[0] == ts[0]);
        assert(all.drop_first() =~= rest.push(calm_tick));
        assert(next(c, all[0]) == (c, TickAction::AnomalyHold));
        assert forall|i: int| 0 <= i < rest.len() implies anomalous(#[trigger] rest[i])
            && rest[i].now_ms <= s + ANOMALY_RESET_MS by {
            assert(rest[i] == ts[i + 1]);
        }
        lemma_hold_then_clear(c, rest, s, calm_tick);
    }
}

proof fn lemma_at_most_once(c: OffsetController, ts: Seq<TickInput>, t0: u64)
    requires
        c.anomaly_start == Some(t0),
        forall|i: int|
            0 <= i < ts.len() ==> anomalous(#[trigger] ts[i]) && ts[i].now_ms <= t0 + 2
                * ANOMALY_RESET_MS,
    ensures
        resets(c, ts) == (if exists|i: int|
            0 <= i < ts.len() && #[trigger] ts[i].now_ms > t0 + ANOMALY_RESET_MS {
            1nat
        } else {
            0nat
        }),
    decreases ts.len(),
{
    if ts.len() > 0 {
        let rest = ts.drop_first();
        assert(anomalous(ts[0]));
        assert forall|i: int| 0 <= i < rest.len() implies anomalous(#[trigger] rest[i])
            && rest[i].now_ms <= t0 + 2 * ANOMALY_RESET_MS by {
            assert(rest[i] == ts[i + 1]);
        }
        if ts[0].now_ms > t0 + ANOMALY_RESET_MS {
            let t1 = ts[0].now_ms;
            let c1 = next(c, ts[0]).0;
            assert(c1.anomaly_start == Some(t1));
            lemma_hold(c1, rest, t1);
        } else {
            lemma_at_most_once(c, rest, t0);
            if exists|i: int| 0 <= i < ts.len() && #[trigger] ts[i].now_ms > t0 + ANOMALY_RESET_MS {
                let i = choose|i: int|
                    0 <= i < ts.len() && #[trigger] ts[i].now_ms > t0 + ANOMALY_RESET_MS;
                assert(rest[i - 1] == ts[i]);
            }
            if exists|i: int|
                0 <= i < rest.len() && #[trigger] rest[i].now_ms > t0 + ANOMALY_RESET_MS {
                let i = choose|i: int|
                    0 <= i < rest.len() && #[trigger] rest[i].now_ms > t0 + ANOMALY_RESET_MS;
                assert(rest[i] == ts[i + 1]);
            }
        }
    }
}

/// An anomaly that persists past `ANOMALY_RESET_MS` after it was first seen
/// resets the destination offset exactly once, as long as the run of
/// anomalous ticks ends within twice that time (a longer run resets again
/// each time the restarted timer expires).
pub proof fn anomaly_resets_once(c: OffsetController, ts: Seq<TickInput>)
    requires
        c.anomaly_start == None::<u64>,
        ts.len() > 0,
        forall|i: int| 0 <= i < ts.len() ==> anomalous(#[trigger] ts[i]),
        forall|i: int|
            0 <= i < ts.len() ==> #[trigger] ts[i].now_ms <= ts[0].now_ms + 2 * ANOMALY_RESET_MS,
        exists|i: int| 0 <= i < ts.len() && #[trigger] ts[i].now_ms > ts[0].now_ms + ANOMALY_RESET_MS,
    ensures
        resets(c, ts) == 1,
{
    let t0 = ts[0].now_ms;
    let rest = ts.drop_first();
    let c1 = next(c, ts[0]).0;
    assert(anomalous(ts[0]));
    assert(c1.anomaly_start == Some(t0));
    assert forall|i: int| 0 <= i < rest.len() implies anomalous(#[trigger] rest[i])
        && rest[i].now_ms <= t0 + 2 * ANOMALY_RESET_MS by {
        assert(rest[i] == ts[i + 1]);
    }
    lemma_at_most_once(c1, rest, t0);
    let i = choose|i: int| 0 <= i < ts.len() && #[trigger] ts[i].now_ms > t0 + ANOMALY_RESET_MS;
    assert(rest[i - 1] == ts[i]);
}

/// An anomaly that goes away before `ANOMALY_RESET_MS` has passed since it
/// was first seen causes no reset, and the first tick without it clears the
/// timer.
pub proof fn anomaly_cleared_without_reset(
    c: OffsetController,
    ts: Seq<TickInput>,
    calm_tick: TickInput,
)
    requires
        c.anomaly_start == None::<u64>,
        ts.len() > 0,
        forall|i: int| 0 <= i < ts.len() ==> anomalous(#[trigger] ts[i]),
        forall|i: int|
            0 <= i < ts.len() ==> #[trigger] ts[i].now_ms <= ts[0].now_ms + ANOMALY_RESET_MS,
        accepted(calm_tick),
        !calm_tick.anomalous,
    ensures
        resets(c, ts.push(calm_tick)) == 0,
        run(c, ts.push(calm_tick)).anomaly_start == None::<u64>,
{
    let t0 = ts[0].now_ms;
    let all = ts.push(calm_tick);
    let rest = ts.drop_first();
    let c1 = next(c, ts[0]).0;
    assert(anomalous(ts[0]));
    assert(all[0] == ts[0]);
    assert(all.drop_first() =~= rest.push(calm_tick));
    assert forall|i: int| 0 <= i < rest.len() implies anomalous(#[trigger] rest[i])
        && rest[i].now_ms <= t0 + ANOMALY_RESET_MS by {
        assert(rest[i] == ts[i + 1]);
    }
    lemma_hold_then_clear(c1, rest, t0, calm_tick);
}

} // verus!
