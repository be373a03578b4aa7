//! Statistics snapshots.

use vstd::prelude::*;

use crate::ids::ClassId;

verus! {

/// Snapshot of runtime-wide statistics.
#[derive(Clone, Copy, Debug, PartialEq, Eq, Structural)]
pub struct RuntimeStats {
    /// Number of registered targets.
    pub targets: usize,
    /// Number of registered generators.
    pub generators: usize,
    /// Number of admitted work items that have not completed.
    pub in_flight: usize,
    /// Number of completed outputs waiting to be returned.
    pub queued_outputs: usize,
    /// Whether graceful shutdown has started.
    pub shutdown_started: bool,
    /// Whether the shutdown output has been emitted.
    pub shutdown_complete: bool,
}

/// Snapshot of the statistics of one scheduling class.
#[derive(Clone, Copy, Debug, PartialEq, Eq, Structural)]
pub struct ClassStats {
    /// The class.
    pub class: ClassId,
    /// Number of registered generators in the class.
    pub generators: usize,
    /// Number of in-flight work items admitted for generators of the class.
    pub in_flight: usize,
}

} // verus!
