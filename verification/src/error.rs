//! What can go wrong while fitting a curve.

use vstd::prelude::*;

verus! {

/// The two ways a fit can fail. Neither leaves a partial result behind.
#[derive(Clone, Copy, Debug, PartialEq, Eq, Structural)]
pub enum FitError {
    /// Fewer than two anchors, or sequences whose lengths do not belong
    /// together. The caller can recover by waiting for more anchors.
    InvalidInput,
    /// The linear system for the first control points could not be solved.
    SingularSystem,
}

} // verus!
