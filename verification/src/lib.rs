//! A sequential model of an interaction-net runtime: a graph-rewriting
//! machine whose state is a shared heap of cells, a queue of pending
//! redexes, and rewrite counters. Computation proceeds by popping a redex
//! (a pair of principal ports wired to each other) and dispatching it to an
//! interaction rule (annihilation, commutation, numeric folding, pattern
//! matching, erasure, or definition materialization) until no redexes
//! remain or a step budget runs out.
//!
//! Every state change of the runtime is pinned down by a spec-level
//! transition function, so the reduction relation itself is a mathematical
//! function of the starting net; the laws module derives the global
//! properties (linearity accounting, race order-independence, annihilation
//! identity, determinism of normal forms) from those transitions.

pub mod port;
pub mod heap;
pub mod ops;
pub mod err;
pub mod net;
pub mod def;
pub mod interact;
pub mod laws;
