//! The calibration engine that aligns independent tracking origins of a VR
//! runtime: the lookups in the session's devices and tracking origins, the
//! per-tick decisions of the continuous offset maintainer, the sample buffer
//! and outcome rules of the sampled calibrator, and the names that commands
//! take. The geometry itself (rigid transforms in floating point) is done by
//! the caller.
pub mod devices;
pub mod maintain;
pub mod monitor;
pub mod pairs;
pub mod pose;
pub mod protocol;
pub mod sampled;
pub mod session;
pub mod targets;
pub mod text;
