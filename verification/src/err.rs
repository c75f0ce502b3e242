//! The engine's error taxonomy. There is no recoverable-error channel
//! inside the reduction loop: each of these reflects either a bug in the
//! net being reduced (a contract violation), exhaustion of the fixed-size
//! heap, or a deliberately open extension point.

use vstd::prelude::*;

verus! {

#[derive(Clone, Copy, PartialEq, Eq, Structural, Debug)]
pub enum NetError {
    /// A malformed construct reached the runtime: a wire or redirection
    /// port on a redex side, a port pointing outside the heap, a consumed
    /// cell read as live data, or overlapping agent bodies.
    ContractViolation,
    /// The heap cannot satisfy an allocation; the engine has no growth or
    /// compaction policy, so this is fatal.
    AllocExhausted,
    /// The redex hit an interaction left open as an extension point
    /// (algebraic-constructor distribution, mismatched operator pairs).
    Unsupported,
}

/// How a reduction pass ended.
#[derive(Clone, Copy, PartialEq, Eq, Structural, Debug)]
pub enum ReduceEnd {
    /// Every redex was consumed: the net is in normal form.
    Normal,
    /// The step budget ran out first; the net is valid but unfinished.
    Budget,
    /// A fatal condition was met on the redex just popped.
    Fail(NetError),
}

} // verus!
