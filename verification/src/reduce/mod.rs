//! Aggregate operators: each one watches a scope until its input is complete
//! and only then emits.

pub mod barrier;
pub mod count;
pub mod group;
pub mod limit;
pub mod order;

use vstd::prelude::*;

verus! {

/// How far an operator has to look before it may call a scope complete.
#[derive(Clone, Copy, Debug, PartialEq, Eq, Structural)]
pub enum Range {
    /// Completion is decided by this worker's partition alone.
    Local,
    /// Completion needs every worker of the cluster to have finished.
    Global,
}

/// Both ranges, the narrower first.
pub const RANGES: [Range; 2] = [Range::Local, Range::Global];

} // verus!
