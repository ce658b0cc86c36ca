//! The sample buffer and the outcome rules of the sampled calibrator.
//!
//! Two devices, A (the source) and B (the destination), are observed together
//! over many ticks. Each tick adds one pose pair if both devices could be
//! located. Once enough pairs are in, the caller fits a rigid transform to
//! them; this module decides what comes of the fit.
use vstd::prelude::*;
use crate::protocol::StepResult;

verus! {

/// The devices that the continuous maintainer keeps aligned after a
/// calibration: `device_a` is the reference, `device_b` the one corrected.
#[derive(Clone, Copy, PartialEq, Eq, Structural, Debug)]
pub struct HandOff {
    pub device_a: usize,
    pub device_b: usize,
}

/// A sampled calibration between two devices, over samples of type `S`.
pub struct SampledMethod<S> {
    /// Index of the reference device.
    pub src_dev: usize,
    /// Index of the device whose tracking origin is corrected.
    pub dst_dev: usize,
    /// The samples collected so far, oldest first.
    pub samples: Vec<S>,
    /// Whether the continuous maintainer takes over after a success.
    pub maintain: bool,
    /// How many samples to collect before fitting.
    pub num_samples: usize,
    /// The profile under which a success is saved.
    pub profile: String,
}

impl<S> SampledMethod<S> {
    pub fn new(src_dev: usize, dst_dev: usize, maintain: bool, samples: u32, profile: String) -> (r:
        Self)
        ensures
            r.src_dev == src_dev,
            r.dst_dev == dst_dev,
            r.maintain == maintain,
            r.num_samples == samples as usize,
            r.profile == profile,
            r.samples@ == Seq::<S>::empty(),
    {
        SampledMethod {
            src_dev,
            dst_dev,
            samples: Vec::with_capacity(samples as usize),
            maintain,
            num_samples: samples as usize,
            profile,
        }
    }

    /// Whether more samples are needed before the fit.
    pub fn collecting(&self) -> (r: bool)
        ensures
            r == (self.samples@.len() < self.num_samples),
    {
        self.samples.len() < self.num_samples
    }

    /// Records the outcome of one collection tick: a sample if both devices
    /// were located, none otherwise. Nothing is added once the buffer holds
    /// the requested number of samples.
    pub fn record(&mut self, sample: Option<S>)
        ensures
            final(self).samples@ == (match sample {
                Some(s) => if old(self).samples@.len() < old(self).num_samples {
                    old(self).samples@.push(s)
                } else {
                    old(self).samples@
                },
                None => old(self).samples@,
            }),
            final(self).src_dev == old(self).src_dev,
            final(self).dst_dev == old(self).dst_dev,
            final(self).maintain == old(self).maintain,
            final(self).num_samples == old(self).num_samples,
            final(self).profile == old(self).profile,
    {
        if let Some(s) = sample {
            if self.samples.len() < self.num_samples {
                self.samples.push(s);
            }
        }
    }

    /// Decides what comes of a fit, given whether its translation is
    /// plausible (its squared norm at most 10000).
    ///
    /// An implausible fit drops every sample and returns `Continue`: the
    /// caller resets the destination offset to identity and sampling starts
    /// over. A plausible one keeps the samples (the caller averages over
    /// them) and hands the two devices over to the continuous maintainer when
    /// the method maintains, or ends the run when it does not.
    pub fn conclude(&mut self, plausible: bool) -> (r: StepResult<HandOff>)
        ensures
            !plausible ==> r == StepResult::<HandOff>::Continue && final(self).samples@.len() == 0,
            plausible ==> final(self).samples@ == old(self).samples@,
            plausible && old(self).maintain ==> r == StepResult::Replace(
                HandOff { device_a: old(self).src_dev, device_b: old(self).dst_dev },
            ),
            plausible && !old(self).maintain ==> r == StepResult::<HandOff>::End,
            final(self).src_dev == old(self).src_dev,
            final(self).dst_dev == old(self).dst_dev,
            final(self).maintain == old(self).maintain,
            final(self).num_samples == old(self).num_samples,
            final(self).profile == old(self).profile,
    {
        if !plausible {
            self.samples.clear();
            StepResult::Continue
        } else if self.maintain {
            StepResult::Replace(HandOff { device_a: self.src_dev, device_b: self.dst_dev })
        } else {
            StepResult::End
        }
    }
}

} // verus!
