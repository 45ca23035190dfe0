use vstd::prelude::*;

verus! {

/// Why a query did not produce a value.
#[derive(Clone, Copy, Debug, PartialEq, Eq, Structural)]
pub enum HyperdriveError {
    /// A number given as text is not a decimal integer of the expected range.
    InvalidNumber,
    /// An intermediate or final value left the 256-bit range.
    Overflow,
    /// Reserves would come out below zero.
    NegativeReserves,
    /// The pool's configuration or reserves break the pool's invariants.
    InvalidPool,
}

} // verus!
