//! Geometric locator for a stationary multi-sensor rig: fuses lidar point
//! clouds with per-camera 2D detections to estimate 3D robot locations.
//!
//! All scalar quantities are exact rational numbers (`rat::Rat`), so every
//! stage of the pipeline — coordinate transforms, background depth modelling,
//! clustering, and location estimation — is a deterministic function of its
//! inputs with a verified contract.

use vstd::prelude::*;

pub mod cluster;
pub mod estimator;
pub mod labels;
pub mod locator;
pub mod rat;
pub mod transform;
pub mod vecmat;

verus! {

/// Errors that construction of a locator or of a transform can report.
#[derive(Clone, Copy, PartialEq, Eq, Structural, Debug)]
pub enum LocateError {
    /// A supplied matrix (or its rotation block) has determinant zero.
    SingularMatrix,
    /// Exact rational arithmetic left the representable range.
    NumericOverflow,
}

} // verus!
