//! The generic dispatcher runtime.
//!
//! [`Runtime::next`] is the single ordered output and execution interface.
//! Each poll of the output advances the runtime by at most one selected work
//! item, drains at most one in-flight completion to the output queue, and
//! returns the oldest queued output. When nothing can make progress, the
//! driver parks until a control-plane mutation or an in-flight task completes.
//! The decisions are made here; the driver performs them (it polls the
//! futures, asks generators for readiness and work) and reports back.

use vstd::prelude::*;

use crate::control::AddGeneratorError;
use crate::control::GeneratorConfig;
use crate::control::RuntimeConfig;
use crate::control::RuntimeHandle;
use crate::control::TargetLimits;
use crate::ids::GeneratorId;
use crate::ids::TargetId;
use crate::model::add_generator_spec;
use crate::model::add_target_spec;
use crate::model::class_stats_spec;
use crate::model::graceful_shutdown_spec;
use crate::model::has_target;
use crate::model::initial_model;
use crate::model::next_spec;
use crate::model::NextAction;
use crate::model::NextEvent;
use crate::model::pause_generator_spec;
use crate::model::pause_target_spec;
use crate::model::remove_generator_spec;
use crate::model::remove_target_spec;
use crate::model::resume_generator_spec;
use crate::model::resume_target_spec;
use crate::model::RuntimeModel;
use crate::model::stats_spec;
use crate::model::trigger_generator_spec;
use crate::model::update_generator_spec;
use crate::model::update_target_limits_spec;
use crate::stats::ClassStats;
use crate::stats::RuntimeStats;

verus! {

/// Generic dispatcher runtime parameterized by application work event type
/// `Ev` and work error type `Er`.
///
/// The runtime is *not* `Clone`. Only one consumer drives the output stream
/// via [`Runtime::next`]. Use [`Runtime::handle`] to reach the control
/// surface.
pub struct Runtime<Ev, Er> {
    shared: RuntimeHandle<Ev, Er>,
}

impl<Ev, Er> View for Runtime<Ev, Er> {
    type V = RuntimeModel<Ev, Er>;

    closed spec fn view(&self) -> RuntimeModel<Ev, Er> {
        self.shared@
    }
}

impl<Ev, Er> Runtime<Ev, Er> {
    /// Build a new runtime with the given configuration.
    pub fn new(config: RuntimeConfig) -> (r: Self)
        ensures
            r@ == initial_model::<Ev, Er>(config),
            r@.wf(),
    {
        Runtime { shared: RuntimeHandle::new(config) }
    }

    /// The control surface of this runtime.
    pub fn handle(&mut self) -> (h: &mut RuntimeHandle<Ev, Er>)
        ensures
            h@ == old(self)@,
            final(self)@ == final(h)@,
    {
        &mut self.shared
    }

    /// Add a target to the runtime and return its newly-allocated id.
    ///
    /// Forwarded convenience for [`RuntimeHandle::add_target`].
    pub fn add_target(&mut self, limits: TargetLimits) -> (r: Option<TargetId>)
        requires
            old(self)@.wf(),
            old(self)@.shutdown_started || old(self)@.next_target < u64::MAX,
        ensures
            final(self)@ == add_target_spec(old(self)@, limits).0,
            r == add_target_spec(old(self)@, limits).1,
            final(self)@.wf(),
    {
        self.shared.add_target(limits)
    }

    /// Remove a target. Forwarded convenience for [`RuntimeHandle::remove_target`].
    pub fn remove_target(&mut self, id: TargetId) -> (r: bool)
        requires
            old(self)@.wf(),
            
        ensures
            final(self)@ == remove_target_spec(old(self)@, id).0,
            r == remove_target_spec(old(self)@, id).1,
            final(self)@.wf(),
    {
        self.shared.remove_target(id)
    }

    /// Update target limits. Forwarded convenience.
    pub fn update_target_limits(&mut self, id: TargetId, limits: TargetLimits) -> (r: bool)
        requires
            old(self)@.wf(),
            
        ensures
            final(self)@ == update_target_limits_spec(old(self)@, id, limits).0,
            r == update_target_limits_spec(old(self)@, id, limits).1,
            final(self)@.wf(),
    {
        self.shared.update_target_limits(id, limits)
    }

    /// Pause a target. Forwarded convenience.
    pub fn pause_target(&mut self, id: TargetId) -> (r: bool)
        requires
            old(self)@.wf(),
            
        ensures
            final(self)@ == pause_target_spec(old(self)@, id).0,
            r == pause_target_spec(old(self)@, id).1,
            final(self)@.wf(),
    {
        self.shared.pause_target(id)
    }

    /// Resume a target. Forwarded convenience.
    pub fn resume_target(&mut self, id: TargetId) -> (r: bool)
        requires
            old(self)@.wf(),
            
        ensures
            final(self)@ == resume_target_spec(old(self)@, id).0,
            r == resume_target_spec(old(self)@, id).1,
            final(self)@.wf(),
    {
        self.shared.resume_target(id)
    }

    /// Add a generator. Forwarded convenience for [`RuntimeHandle::add_generator`].
    ///
    /// # Errors
    ///
    /// Forwarded from [`RuntimeHandle::add_generator`].
    pub fn add_generator(&mut self, target: TargetId, config: GeneratorConfig) -> (r: Result<GeneratorId, AddGeneratorError>)
        requires
            old(self)@.wf(),
            old(self)@.shutdown_started || !has_target(old(self)@.targets, target)
                || old(self)@.next_generator < u64::MAX,
        ensures
            final(self)@ == add_generator_spec(old(self)@, target, config).0,
            r == add_generator_spec(old(self)@, target, config).1,
            final(self)@.wf(),
    {
        self.shared.add_generator(target, config)
    }

    /// Remove a generator. Forwarded convenience.
    pub fn remove_generator(&mut self, id: GeneratorId) -> (r: bool)
        requires
            old(self)@.wf(),
            
        ensures
            final(self)@ == remove_generator_spec(old(self)@, id).0,
            r == remove_generator_spec(old(self)@, id).1,
            final(self)@.wf(),
    {
        self.shared.remove_generator(id)
    }

    /// Update generator config. Forwarded convenience.
    pub fn update_generator(&mut self, id: GeneratorId, config: GeneratorConfig) -> (r: bool)
        requires
            old(self)@.wf(),
            
        ensures
            final(self)@ == update_generator_spec(old(self)@, id, config).0,
            r == update_generator_spec(old(self)@, id, config).1,
            final(self)@.wf(),
    {
        self.shared.update_generator(id, config)
    }

    /// Pause a generator. Forwarded convenience.
    pub fn pause_generator(&mut self, id: GeneratorId) -> (r: bool)
        requires
            old(self)@.wf(),
            
        ensures
            final(self)@ == pause_generator_spec(old(self)@, id).0,
            r == pause_generator_spec(old(self)@, id).1,
            final(self)@.wf(),
    {
        self.shared.pause_generator(id)
    }

    /// Resume a generator. Forwarded convenience.
    pub fn resume_generator(&mut self, id: GeneratorId) -> (r: bool)
        requires
            old(self)@.wf(),
            
        ensures
            final(self)@ == resume_generator_spec(old(self)@, id).0,
            r == resume_generator_spec(old(self)@, id).1,
            final(self)@.wf(),
    {
        self.shared.resume_generator(id)
    }

    /// Trigger a generator. Forwarded convenience.
    pub fn trigger_generator(&mut self, id: GeneratorId) -> (r: bool)
        requires
            old(self)@.wf(),
            
        ensures
            final(self)@ == trigger_generator_spec(old(self)@, id).0,
            r == trigger_generator_spec(old(self)@, id).1,
            final(self)@.wf(),
    {
        self.shared.trigger_generator(id)
    }

    /// Begin graceful shutdown. Forwarded convenience.
    pub fn graceful_shutdown(&mut self)
        requires
            old(self)@.wf(),
        ensures
            final(self)@ == graceful_shutdown_spec(old(self)@),
            final(self)@.wf(),
    {
        self.shared.graceful_shutdown()
    }

    /// Snapshot of runtime statistics.
    pub fn stats(&self) -> (r: RuntimeStats)
        ensures
            r == stats_spec(self@),
    {
        self.shared.stats()
    }

    /// Snapshot of per-class statistics.
    pub fn class_stats(&self) -> (r: Vec<ClassStats>)
        ensures
            r@ == class_stats_spec(self@),
    {
        self.shared.class_stats()
    }

    /// Drive the runtime by one decision and return what the driver must do.
    ///
    /// A poll of the output starts with [`NextEvent::Poll`]; the driver
    /// performs each returned action and reports its outcome as the next
    /// event, until the action resolves the output or parks.
    ///
    /// Behavior summary:
    ///
    /// 1. If already-emitted shutdown is sticky, return it again.
    /// 2. Drain at most one already-queued output and return it.
    /// 3. Poll in-flight work; on completion enqueue the corresponding
    ///    `RuntimeOutput::Work`, ask for `on_complete` exactly once, and
    ///    return the oldest queued output.
    /// 4. If shutdown has started and there is no further in-flight work or
    ///    queued output, emit the sticky shutdown output.
    /// 5. Otherwise scan generators for the first ready one, ask for
    ///    `take_next`, and admit the work item to the in-flight set. A poll
    ///    admits at most one work item; after it, the poll yields.
    /// 6. If nothing can make progress, park.
    pub fn next(&mut self, event: NextEvent<Ev, Er>) -> (r: NextAction<Ev, Er>)
        requires
            old(self)@.wf(),
        ensures
            (final(self)@, r) == next_spec(old(self)@, event),
            final(self)@.wf(),
    {
        self.shared.step(event)
    }
}

} // verus!
