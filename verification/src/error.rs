//! The typed failures a simulation run can surface.

use vstd::prelude::*;

verus! {

/// Why a run stopped other than by normal completion.
#[derive(Clone, Copy, Debug, PartialEq, Eq, Structural)]
pub enum SimError {
    /// The event source yielded no events; the run never starts.
    InvalidTrace,
    /// A data-unit event was encountered; handling ordinary data traffic is a
    /// stubbed capability, so the run aborts at that tick.
    NotImplemented,
    /// An exact update no longer fits the dyadic representation.
    Overflow,
}

} // verus!
