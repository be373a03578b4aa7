//! The ordered outputs of the runtime.

use vstd::prelude::*;

use crate::ids::GeneratorId;
use crate::ids::TargetId;
use crate::ids::WorkId;

verus! {

/// One output of [`crate::runtime::Runtime::next`].
#[derive(Debug)]
pub enum RuntimeOutput<Ev, Er> {
    /// A work item finished; `result` is what its future produced.
    Work { work: WorkId, target: TargetId, generator: GeneratorId, result: Result<Ev, Er> },
    /// Graceful shutdown finished. Once emitted it is returned by every later call.
    Shutdown,
}

} // verus!
