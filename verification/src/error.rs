//! Why a conversion can fail.

use vstd::prelude::*;

verus! {

/// Failure of one conversion. The driver never retries on its own: what to do
/// about a failure is the caller's decision.
#[derive(Clone, Copy, Debug, PartialEq, Eq, Structural)]
pub enum AcquisitionError {
    /// The converter did not signal a result before the ready timeout ran out.
    NotReady,
    /// The clock line stayed high for longer than the converter tolerates, so
    /// the bits read cannot be trusted.
    TimingViolation,
}

} // verus!
