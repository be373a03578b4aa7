//! Identifiers and cost units used by the dispatcher.

use vstd::prelude::*;

verus! {

/// Identifier of a target registered with the runtime.
#[derive(Clone, Copy, Debug, PartialEq, Eq, Structural, Hash, PartialOrd, Ord)]
pub struct TargetId(pub u64);

/// Identifier of a generator registered under a target.
#[derive(Clone, Copy, Debug, PartialEq, Eq, Structural, Hash, PartialOrd, Ord)]
pub struct GeneratorId(pub u64);

/// Identifier of a scheduling class.
#[derive(Clone, Copy, Debug, PartialEq, Eq, Structural, Hash, PartialOrd, Ord)]
pub struct ClassId(pub u32);

/// Identifier of one admitted work item.
#[derive(Clone, Copy, Debug, PartialEq, Eq, Structural, Hash, PartialOrd, Ord)]
pub struct WorkId(pub u64);

/// Cost of a work item, charged against a target's per-round budget.
#[derive(Clone, Copy, Debug, PartialEq, Eq, Structural, Hash, PartialOrd, Ord)]
pub struct CostUnits(pub u64);

} // verus!
