//! The outcome of one step of a calibration method.
use vstd::prelude::*;

verus! {

/// What the loop that drives a calibration method does after a step.
///
/// `C` is whatever the loop needs to build the method that takes over.
#[derive(PartialEq, Eq, Structural, Debug)]
pub enum StepResult<C> {
    /// Keep stepping the current method.
    Continue,
    /// Replace the current method by the one described, and initialise it.
    Replace(C),
    /// The work is done.
    End,
}

} // verus!
