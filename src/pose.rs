//! The pose-sample adapter: which located poses and velocities a
//! calibration method may use.
use vstd::prelude::*;

verus! {

/// The validity flags that come with a located pose.
#[derive(Clone, Copy, PartialEq, Eq, Structural, Debug)]
pub struct LocationFlags {
    pub position_valid: bool,
    pub position_tracked: bool,
    pub orientation_valid: bool,
    pub orientation_tracked: bool,
}

/// A device's pose is momentarily unavailable.
#[derive(Clone, Copy, PartialEq, Eq, Structural, Debug)]
pub struct NotTracked;

/// Position and orientation are both valid and tracked.
pub open spec fn fully_tracked(f: LocationFlags) -> bool {
    f.position_valid && f.position_tracked && f.orientation_valid && f.orientation_tracked
}

impl LocationFlags {
    pub fn is_fully_tracked(&self) -> (r: bool)
        ensures
            r == fully_tracked(*self),
    {
        self.position_valid && self.position_tracked && self.orientation_valid
            && self.orientation_tracked
    }
}

/// A located pose is usable only when position and orientation are both
/// valid and tracked.
pub fn located<T>(pose: T, flags: LocationFlags) -> (r: Result<T, NotTracked>)
    ensures
        fully_tracked(flags) ==> r == Ok::<T, NotTracked>(pose),
        !fully_tracked(flags) ==> r == Err::<T, NotTracked>(NotTracked),
{
    if flags.is_fully_tracked() {
        Ok(pose)
    } else {
        Err(NotTracked)
    }
}

/// A velocity that is not valid counts as standing still: the result is
/// `zero` then, and the velocity itself otherwise.
pub fn effective<V>(velocity: V, valid: bool, zero: V) -> (r: V)
    ensures
        r == (if valid {
            velocity
        } else {
            zero
        }),
{
    if valid {
        velocity
    } else {
        zero
    }
}

} // verus!
