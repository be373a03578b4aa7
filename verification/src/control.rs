//! Runtime control surface: configuration types, the control errors and the
//! shared runtime state with its control operations and scheduling steps.

use vstd::prelude::*;

use crate::ids::ClassId;
use crate::ids::CostUnits;
use crate::ids::GeneratorId;
use crate::ids::TargetId;
use crate::ids::WorkId;
use crate::model::add_generator_spec;
use crate::model::add_target_spec;
use crate::model::admissible;
use crate::model::admit_spec;
use crate::model::class_generators;
use crate::model::class_list;
use crate::model::class_load;
use crate::model::class_stats_spec;
use crate::model::complete_spec;
use crate::model::consume_trigger;
use crate::model::decide_spec;
use crate::model::detach_target;
use crate::model::first_selectable;
use crate::model::generator_pos;
use crate::model::GeneratorEntry;
use crate::model::generators_unique;
use crate::model::graceful_shutdown_spec;
use crate::model::has_generator;
use crate::model::has_selectable;
use crate::model::has_target;
use crate::model::has_work;
use crate::model::InFlight;
use crate::model::initial_model;
use crate::model::next_spec;
use crate::model::NextAction;
use crate::model::NextEvent;
use crate::model::pause_generator_spec;
use crate::model::pause_target_spec;
use crate::model::remove_generator_spec;
use crate::model::remove_target_spec;
use crate::model::reset_round;
use crate::model::resume_generator_spec;
use crate::model::resume_target_spec;
use crate::model::RuntimeModel;
use crate::model::select_spec;
use crate::model::selectable;
use crate::model::stats_spec;
use crate::model::target_load;
use crate::model::target_pos;
use crate::model::TargetEntry;
use crate::model::targets_unique;
use crate::model::trigger_generator_spec;
use crate::model::update_generator_spec;
use crate::model::update_target_limits_spec;
use crate::model::work_pos;
use crate::model::works_unique;
use crate::wellformed::lemma_add_generator_wf;
use crate::wellformed::lemma_add_target_wf;
use crate::wellformed::lemma_admit_wf;
use crate::wellformed::lemma_complete_wf;
use crate::wellformed::lemma_first_selectable;
use crate::wellformed::lemma_remove_generator_wf;
use crate::wellformed::lemma_remove_target_wf;
use crate::wellformed::lemma_generator_at;
use crate::wellformed::lemma_reset_round;
use crate::wellformed::lemma_target_at;
use crate::wellformed::lemma_wf_retouch_generators;
use crate::wellformed::lemma_wf_retouch_targets;
use crate::wellformed::lemma_work_at;
use crate::output::RuntimeOutput;
use crate::stats::ClassStats;
use crate::stats::RuntimeStats;

verus! {

/// Runtime-wide configuration set when the runtime is constructed.
#[derive(Clone, Copy, Debug)]
pub struct RuntimeConfig {
    /// Optional global maximum number of in-flight work items.
    pub global_max_in_flight: Option<u32>,
    /// Optional bound on the output queue. When `None` the queue is unbounded.
    pub output_queue_capacity: Option<usize>,
}

impl Default for RuntimeConfig {
    fn default() -> (r: Self)
        ensures
            r.global_max_in_flight is None,
            r.output_queue_capacity is None,
    {
        RuntimeConfig { global_max_in_flight: None, output_queue_capacity: None }
    }
}

/// Per-target limits set when a target is added or updated.
#[derive(Clone, Copy, Debug)]
pub struct TargetLimits {
    /// Maximum number of in-flight work items for this target.
    pub max_in_flight: Option<u32>,
    /// Maximum cost budget per scheduling round for this target.
    pub max_cost_per_round: Option<CostUnits>,
}

impl Default for TargetLimits {
    fn default() -> (r: Self)
        ensures
            r.max_in_flight is None,
            r.max_cost_per_round is None,
    {
        TargetLimits { max_in_flight: None, max_cost_per_round: None }
    }
}

/// Per-generator configuration set when a generator is added or updated.
#[derive(Clone, Copy, Debug)]
pub struct GeneratorConfig {
    /// Optional class identifier for class-based scheduling.
    pub class: Option<ClassId>,
    /// Optional service weight for weighted scheduling.
    pub weight: Option<u32>,
}

impl Default for GeneratorConfig {
    fn default() -> (r: Self)
        ensures
            r.class is None,
            r.weight is None,
    {
        GeneratorConfig { class: None, weight: None }
    }
}

/// Errors returned when adding a generator fails.
#[derive(Clone, Copy, Debug, PartialEq, Eq, Structural)]
#[non_exhaustive]
pub enum AddGeneratorError {
    /// The target id does not exist (never added or already removed).
    TargetNotFound,
    /// Graceful shutdown has started; no new generators may be added.
    ShutdownStarted,
}

impl AddGeneratorError {
    /// The human-readable description of the error.
    pub fn message(&self) -> (r: &'static str)
        ensures
            *self is TargetNotFound ==> r@ == "target not found"@,
            *self is ShutdownStarted ==> r@ == "graceful shutdown already started"@,
    {
        match self {
            AddGeneratorError::TargetNotFound => "target not found",
            AddGeneratorError::ShutdownStarted => "graceful shutdown already started",
        }
    }
}

/// The shared state of a runtime and its synchronous control surface.
///
/// Every operation keeps the state invariant [`RuntimeModel::wf`] and is
/// described exactly by the matching function of [`crate::model`].
pub struct RuntimeHandle<Ev, Er> {
    config: RuntimeConfig,
    targets: Vec<TargetEntry>,
    generators: Vec<GeneratorEntry>,
    in_flight: Vec<InFlight>,
    outputs: Vec<RuntimeOutput<Ev, Er>>,
    next_target: u64,
    next_generator: u64,
    next_work: u64,
    shutdown_started: bool,
    shutdown_emitted: bool,
    wake: bool,
    admitted_in_poll: bool,
    selected_in_poll: bool,
}

impl<Ev, Er> View for RuntimeHandle<Ev, Er> {
    type V = RuntimeModel<Ev, Er>;

    closed spec fn view(&self) -> RuntimeModel<Ev, Er> {
        RuntimeModel {
            config: self.config,
            targets: self.targets@,
            generators: self.generators@,
            in_flight: self.in_flight@,
            outputs: self.outputs@,
            next_target: self.next_target,
            next_generator: self.next_generator,
            next_work: self.next_work,
            shutdown_started: self.shutdown_started,
            shutdown_emitted: self.shutdown_emitted,
            wake: self.wake,
            admitted_in_poll: self.admitted_in_poll,
            selected_in_poll: self.selected_in_poll,
        }
    }
}

/// The state a scan judges: the current one, or the one at the start of a
/// fresh round.
spec fn scan_model<Ev, Er>(m: RuntimeModel<Ev, Er>, fresh: bool) -> RuntimeModel<Ev, Er> {
    if fresh {
        reset_round(m)
    } else {
        m
    }
}

fn contains_class(v: &Vec<ClassId>, c: ClassId) -> (r: bool)
    ensures
        r == v@.contains(c),
{
    let mut i: usize = 0;
    while i < v.len()
        invariant
            i <= v@.len(),
            forall|k: int| 0 <= k < i ==> v@[k] != c,
        decreases v@.len() - i,
    {
        if v[i] == c {
            return true;
        }
        i = i + 1;
    }
    false
}

impl<Ev, Er> RuntimeHandle<Ev, Er> {
    fn find_target(&self, id: TargetId) -> (r: Option<usize>)
        requires
            targets_unique(self@.targets),
        ensures
            r matches Some(i) ==> i < self@.targets.len() && has_target(self@.targets, id)
                && target_pos(self@.targets, id) == i,
            r is None ==> !has_target(self@.targets, id),
    {
        let mut i: usize = 0;
        while i < self.targets.len()
            invariant
                i <= self.targets@.len(),
                targets_unique(self@.targets),
                forall|k: int| 0 <= k < i ==> (#[trigger] self.targets@[k]).id != id,
            decreases self.targets@.len() - i,
        {
            if self.targets[i].id == id {
                proof {
                    lemma_target_at(self@.targets, id, i as int);
                }
                return Some(i);
            }
            i = i + 1;
        }
        None
    }

    fn find_generator(&self, id: GeneratorId) -> (r: Option<usize>)
        requires
            generators_unique(self@.generators),
        ensures
            r matches Some(i) ==> i < self@.generators.len() && has_generator(
                self@.generators,
                id,
            ) && generator_pos(self@.generators, id) == i,
            r is None ==> !has_generator(self@.generators, id),
    {
        let mut i: usize = 0;
        while i < self.generators.len()
            invariant
                i <= self.generators@.len(),
                generators_unique(self@.generators),
                forall|k: int| 0 <= k < i ==> (#[trigger] self.generators@[k]).id != id,
            decreases self.generators@.len() - i,
        {
            if self.generators[i].id == id {
                proof {
                    lemma_generator_at(self@.generators, id, i as int);
                }
                return Some(i);
            }
            i = i + 1;
        }
        None
    }

    fn find_work(&self, id: WorkId) -> (r: Option<usize>)
        requires
            works_unique(self@.in_flight),
        ensures
            r matches Some(i) ==> i < self@.in_flight.len() && has_work(self@.in_flight, id)
                && work_pos(self@.in_flight, id) == i,
            r is None ==> !has_work(self@.in_flight, id),
    {
        let mut i: usize = 0;
        while i < self.in_flight.len()
            invariant
                i <= self.in_flight@.len(),
                works_unique(self@.in_flight),
                forall|k: int| 0 <= k < i ==> (#[trigger] self.in_flight@[k]).work != id,
            decreases self.in_flight@.len() - i,
        {
            if self.in_flight[i].work == id {
                proof {
                    lemma_work_at(self@.in_flight, id, i as int);
                }
                return Some(i);
            }
            i = i + 1;
        }
        None
    }

    /// Pause an existing target. Returns `true` on success.
    ///
    /// Pausing never wakes the parked runtime: a paused target only excludes
    /// itself from future selections, it does not produce any new ready
    /// work to consume.
    pub fn pause_target(&mut self, id: TargetId) -> (r: bool)
        requires
            old(self)@.wf(),
        ensures
            final(self)@ == pause_target_spec(old(self)@, id).0,
            r == pause_target_spec(old(self)@, id).1,
            final(self)@.wf(),
    {
        if self.shutdown_started {
            return false;
        }
        match self.find_target(id) {
            Some(i) => {
                let mut t = self.targets[i];
                t.paused = true;
                self.targets.set(i, t);
                proof {
                    lemma_wf_retouch_targets(old(self)@, self@.targets);
                    assert(self@ =~= pause_target_spec(old(self)@, id).0);
                }
                true
            },
            None => false,
        }
    }

    /// Update the limits of an existing target. Returns `true` on success.
    pub fn update_target_limits(&mut self, id: TargetId, limits: TargetLimits) -> (r: bool)
        requires
            old(self)@.wf(),
        ensures
            final(self)@ == update_target_limits_spec(old(self)@, id, limits).0,
            r == update_target_limits_spec(old(self)@, id, limits).1,
            final(self)@.wf(),
    {
        if self.shutdown_started {
            return false;
        }
        match self.find_target(id) {
            Some(i) => {
                let mut t = self.targets[i];
                t.limits = limits;
                self.targets.set(i, t);
                self.wake = true;
                proof {
                    lemma_wf_retouch_targets(old(self)@, self@.targets);
                    assert(self@ =~= update_target_limits_spec(old(self)@, id, limits).0);
                }
                true
            },
            None => false,
        }
    }

    /// Resume a paused target. Returns `true` on success.
    pub fn resume_target(&mut self, id: TargetId) -> (r: bool)
        requires
            old(self)@.wf(),
        ensures
            final(self)@ == resume_target_spec(old(self)@, id).0,
            r == resume_target_spec(old(self)@, id).1,
            final(self)@.wf(),
    {
        if self.shutdown_started {
            return false;
        }
        match self.find_target(id) {
            Some(i) => {
                let mut t = self.targets[i];
                t.paused = false;
                self.targets.set(i, t);
                self.wake = true;
                proof {
                    lemma_wf_retouch_targets(old(self)@, self@.targets);
                    assert(self@ =~= resume_target_spec(old(self)@, id).0);
                }
                true
            },
            None => false,
        }
    }

    /// Update generator configuration. Returns `true` on success.
    pub fn update_generator(&mut self, id: GeneratorId, config: GeneratorConfig) -> (r: bool)
        requires
            old(self)@.wf(),
        ensures
            final(self)@ == update_generator_spec(old(self)@, id, config).0,
            r == update_generator_spec(old(self)@, id, config).1,
            final(self)@.wf(),
    {
        if self.shutdown_started {
            return false;
        }
        match self.find_generator(id) {
            Some(i) => {
                let mut g = self.generators[i];
                g.config = config;
                self.generators.set(i, g);
                self.wake = true;
                proof {
                    lemma_wf_retouch_generators(old(self)@, self@.generators);
                    assert(self@ =~= update_generator_spec(old(self)@, id, config).0);
                }
                true
            },
            None => false,
        }
    }

    /// Pause a generator. Returns `true` on success.
    ///
    /// Pausing never wakes the parked runtime; see [`Self::pause_target`].
    pub fn pause_generator(&mut self, id: GeneratorId) -> (r: bool)
        requires
            old(self)@.wf(),
        ensures
            final(self)@ == pause_generator_spec(old(self)@, id).0,
            r == pause_generator_spec(old(self)@, id).1,
            final(self)@.wf(),
    {
        if self.shutdown_started {
            return false;
        }
        match self.find_generator(id) {
            Some(i) => {
                let mut g = self.generators[i];
                g.paused = true;
                self.generators.set(i, g);
                
                proof {
                    lemma_wf_retouch_generators(old(self)@, self@.generators);
                    assert(self@ =~= pause_generator_spec(old(self)@, id).0);
                }
                true
            },
            None => false,
        }
    }

    /// Resume a paused generator. Returns `true` on success.
    pub fn resume_generator(&mut self, id: GeneratorId) -> (r: bool)
        requires
            old(self)@.wf(),
        ensures
            final(self)@ == resume_generator_spec(old(self)@, id).0,
            r == resume_generator_spec(old(self)@, id).1,
            final(self)@.wf(),
    {
        if self.shutdown_started {
            return false;
        }
        match self.find_generator(id) {
            Some(i) => {
                let mut g = self.generators[i];
                g.paused = false;
                self.generators.set(i, g);
                self.wake = true;
                proof {
                    lemma_wf_retouch_generators(old(self)@, self@.generators);
                    assert(self@ =~= resume_generator_spec(old(self)@, id).0);
                }
                true
            },
            None => false,
        }
    }

    /// Hint to the scheduler that a generator should be considered ready now.
    ///
    /// Returns `true` if the generator exists.
    pub fn trigger_generator(&mut self, id: GeneratorId) -> (r: bool)
        requires
            old(self)@.wf(),
        ensures
            final(self)@ == trigger_generator_spec(old(self)@, id).0,
            r == trigger_generator_spec(old(self)@, id).1,
            final(self)@.wf(),
    {
        match self.find_generator(id) {
            Some(i) => {
                let mut g = self.generators[i];
                g.triggered = true;
                self.generators.set(i, g);
                self.wake = true;
                proof {
                    lemma_wf_retouch_generators(old(self)@, self@.generators);
                    assert(self@ =~= trigger_generator_spec(old(self)@, id).0);
                }
                true
            },
            None => false,
        }
    }

    /// Begin graceful shutdown. Idempotent: subsequent calls do nothing.
    ///
    /// After shutdown starts, mutating control operations reject new target
    /// and generator changes (adding, removing, updating, pausing and resuming
    /// fail and change nothing) and no new work is selected; in-flight work is
    /// allowed to complete; queued outputs are still delivered, and finally the
    /// sticky shutdown output is emitted by [`crate::runtime::Runtime::next`].
    pub fn graceful_shutdown(&mut self)
        requires
            old(self)@.wf(),
        ensures
            final(self)@ == graceful_shutdown_spec(old(self)@),
            final(self)@.wf(),
    {
        if !self.shutdown_started {
            self.shutdown_started = true;
            self.wake = true;
        }
    }

    /// Snapshot of runtime statistics.
    pub fn stats(&self) -> (r: RuntimeStats)
        ensures
            r == stats_spec(self@),
    {
        RuntimeStats {
            targets: self.targets.len(),
            generators: self.generators.len(),
            in_flight: self.in_flight.len(),
            queued_outputs: self.outputs.len(),
            shutdown_started: self.shutdown_started,
            shutdown_complete: self.shutdown_emitted,
        }
    }

    /// Whether a control operation asked to wake a parked runtime since the
    /// last call; the request is consumed.
    pub fn take_wake(&mut self) -> (r: bool)
        requires
            old(self)@.wf(),
        ensures
            r == old(self)@.wake,
            final(self)@ == (RuntimeModel { wake: false, ..old(self)@ }),
            final(self)@.wf(),
    {
        let r = self.wake;
        self.wake = false;
        proof {
            assert(self@ =~= (RuntimeModel { wake: false, ..old(self)@ }));
        }
        r
    }

    /// Whether fresh target and generator ids can still be allocated.
    pub fn ids_available(&self) -> (r: bool)
        ensures
            r == self@.ids_available(),
    {
        self.next_target < u64::MAX && self.next_generator < u64::MAX
    }

    /// The state of a runtime built with `config`.
    pub(crate) fn new(config: RuntimeConfig) -> (r: Self)
        ensures
            r@ == initial_model::<Ev, Er>(config),
            r@.wf(),
    {
        let r = RuntimeHandle {
            config,
            targets: Vec::new(),
            generators: Vec::new(),
            in_flight: Vec::new(),
            outputs: Vec::new(),
            next_target: 0,
            next_generator: 0,
            next_work: 0,
            shutdown_started: false,
            shutdown_emitted: false,
            wake: false,
            admitted_in_poll: false,
            selected_in_poll: false,
        };
        proof {
            assert(r@ =~= initial_model::<Ev, Er>(config));
        }
        r
    }

    /// Add a target to the runtime and return its newly-allocated id.
    ///
    /// If graceful shutdown has already started the call returns `None`.
    pub fn add_target(&mut self, limits: TargetLimits) -> (r: Option<TargetId>)
        requires
            old(self)@.wf(),
            old(self)@.shutdown_started || old(self)@.next_target < u64::MAX,
        ensures
            final(self)@ == add_target_spec(old(self)@, limits).0,
            r == add_target_spec(old(self)@, limits).1,
            final(self)@.wf(),
    {
        if self.shutdown_started {
            return None;
        }
        let id = TargetId(self.next_target);
        self.targets.push(TargetEntry { id, limits, paused: false, round_cost: 0 });
        self.next_target = self.next_target + 1;
        self.wake = true;
        proof {
            assert(self@ =~= add_target_spec(old(self)@, limits).0);
            lemma_add_target_wf(old(self)@, limits);
        }
        Some(id)
    }

    /// Add a generator under the specified target.
    ///
    /// The generator object itself stays with the caller, keyed by the
    /// returned id; the runtime keeps its scheduling state.
    ///
    /// # Errors
    ///
    /// Returns [`AddGeneratorError::ShutdownStarted`] if graceful shutdown
    /// has begun, else [`AddGeneratorError::TargetNotFound`] if `target` is
    /// not registered.
    pub fn add_generator(&mut self, target: TargetId, config: GeneratorConfig) -> (r: Result<
        GeneratorId,
        AddGeneratorError,
    >)
        requires
            old(self)@.wf(),
            old(self)@.shutdown_started || !has_target(old(self)@.targets, target)
                || old(self)@.next_generator < u64::MAX,
        ensures
            final(self)@ == add_generator_spec(old(self)@, target, config).0,
            r == add_generator_spec(old(self)@, target, config).1,
            final(self)@.wf(),
    {
        if self.shutdown_started {
            return Err(AddGeneratorError::ShutdownStarted);
        }
        if self.find_target(target).is_none() {
            return Err(AddGeneratorError::TargetNotFound);
        }
        let id = GeneratorId(self.next_generator);
        self.generators.push(
            GeneratorEntry { id, target, config, paused: false, triggered: false, round_picks: 0 },
        );
        self.next_generator = self.next_generator + 1;
        self.wake = true;
        proof {
            assert(self@ =~= add_generator_spec(old(self)@, target, config).0);
            lemma_add_generator_wf(old(self)@, target, config);
        }
        Ok(id)
    }

    /// Remove a generator. Returns `true` if it existed.
    ///
    /// In-flight work for the removed generator continues to completion; only
    /// future selections are prevented.
    pub fn remove_generator(&mut self, id: GeneratorId) -> (r: bool)
        requires
            old(self)@.wf(),
        ensures
            final(self)@ == remove_generator_spec(old(self)@, id).0,
            r == remove_generator_spec(old(self)@, id).1,
            final(self)@.wf(),
    {
        if self.shutdown_started {
            return false;
        }
        match self.find_generator(id) {
            Some(i) => {
                self.generators.remove(i);
                self.wake = true;
                proof {
                    assert(self@ =~= remove_generator_spec(old(self)@, id).0);
                    lemma_remove_generator_wf(old(self)@, id);
                }
                true
            },
            None => false,
        }
    }

    /// Remove the target with the given id.
    ///
    /// Returns `true` if the target existed. All attached generators are
    /// removed as part of this call; in-flight work continues to completion.
    pub fn remove_target(&mut self, id: TargetId) -> (r: bool)
        requires
            old(self)@.wf(),
        ensures
            final(self)@ == remove_target_spec(old(self)@, id).0,
            r == remove_target_spec(old(self)@, id).1,
            final(self)@.wf(),
    {
        if self.shutdown_started {
            return false;
        }
        match self.find_target(id) {
            Some(p) => {
                self.targets.remove(p);
                let mut kept: Vec<GeneratorEntry> = Vec::new();
                let mut k: usize = 0;
                while k < self.generators.len()
                    invariant
                        k <= self.generators@.len(),
                        kept@ == detach_target(self.generators@.take(k as int), id),
                    decreases self.generators@.len() - k,
                {
                    let g = self.generators[k];
                    if g.target != id {
                        kept.push(g);
                    }
                    proof {
                        assert(self.generators@.take(k + 1).drop_last() =~= self.generators@.take(
                            k as int,
                        ));
                    }
                    k = k + 1;
                }
                proof {
                    assert(self.generators@.take(k as int) =~= self.generators@);
                }
                self.generators = kept;
                self.wake = true;
                proof {
                    assert(self@ =~= remove_target_spec(old(self)@, id).0);
                    lemma_remove_target_wf(old(self)@, id);
                }
                true
            },
            None => false,
        }
    }

    fn load_of(&self, t: TargetId) -> (r: usize)
        ensures
            r == target_load(self@.in_flight, t),
    {
        let mut c: usize = 0;
        let mut k: usize = 0;
        while k < self.in_flight.len()
            invariant
                k <= self.in_flight@.len(),
                c <= k,
                c == target_load(self@.in_flight.take(k as int), t),
            decreases self.in_flight@.len() - k,
        {
            if self.in_flight[k].target == t {
                c = c + 1;
            }
            proof {
                assert(self@.in_flight.take(k + 1).drop_last() =~= self@.in_flight.take(k as int));
            }
            k = k + 1;
        }
        proof {
            assert(self@.in_flight.take(k as int) =~= self@.in_flight);
        }
        c
    }

    /// Whether generator `i` is admissible now (`fresh` false) or at the
    /// start of a fresh round (`fresh` true).
    fn is_admissible(&self, i: usize, fresh: bool) -> (r: bool)
        requires
            self@.wf(),
            i < self@.generators.len(),
        ensures
            r == admissible(scan_model(self@, fresh), i as int),
    {
        let ghost m = scan_model(self@, fresh);
        proof {
            lemma_reset_round(self@);
        }
        let g = self.generators[i];
        let ghost mg = m.generators[i as int];
        assert(mg.paused == g.paused && mg.target == g.target && mg.config == g.config);
        if self.shutdown_started || g.paused {
            return false;
        }
        let p = match self.find_target(g.target) {
            Some(p) => p,
            None => {
                proof {
                    assert(has_target(self@.targets, self@.generators[i as int].target));
                }
                return false;
            },
        };
        let t = self.targets[p];
        proof {
            if fresh {
                lemma_target_at(m.targets, g.target, p as int);
            }
            assert(m.targets[target_pos(m.targets, g.target)].paused == t.paused);
            assert(m.targets[target_pos(m.targets, g.target)].limits == t.limits);
            assert(has_target(m.targets, g.target));
        }
        if t.paused {
            return false;
        }
        match self.config.global_max_in_flight {
            Some(mx) => {
                if self.in_flight.len() as u64 >= mx as u64 {
                    return false;
                }
            },
            None => {},
        }
        match self.config.output_queue_capacity {
            Some(c) => {
                if self.in_flight.len() >= c || self.outputs.len() >= c - self.in_flight.len() {
                    return false;
                }
            },
            None => {},
        }
        match t.limits.max_in_flight {
            Some(mx) => {
                if self.load_of(g.target) as u64 >= mx as u64 {
                    return false;
                }
            },
            None => {},
        }
        let round_cost = if fresh {
            0
        } else {
            t.round_cost
        };
        let round_picks = if fresh {
            0
        } else {
            g.round_picks
        };
        proof {
            assert(m.targets[target_pos(m.targets, g.target)].round_cost == round_cost);
            assert(mg.round_picks == round_picks);
        }
        match t.limits.max_cost_per_round {
            Some(b) => {
                if round_cost >= b.0 {
                    return false;
                }
            },
            None => {},
        }
        match g.config.weight {
            Some(w) => {
                if round_picks >= w {
                    return false;
                }
            },
            None => {},
        }
        self.next_work < u64::MAX
    }

    /// The first selectable generator, judged now or at the start of a fresh
    /// round.
    fn scan(&self, ready: &Vec<bool>, fresh: bool) -> (r: Option<usize>)
        requires
            self@.wf(),
        ensures
            r matches Some(i) ==> i < self@.generators.len() && has_selectable(
                scan_model(self@, fresh),
                ready@,
            ) && first_selectable(scan_model(self@, fresh), ready@) == i,
            r is None ==> !has_selectable(scan_model(self@, fresh), ready@),
    {
        let ghost m = scan_model(self@, fresh);
        proof {
            lemma_reset_round(self@);
        }
        let mut i: usize = 0;
        while i < self.generators.len()
            invariant
                i <= self@.generators.len(),
                self@.wf(),
                m == scan_model(self@, fresh),
                m.generators.len() == self@.generators.len(),
                forall|k: int|
                    0 <= k < self@.generators.len() ==> (#[trigger] m.generators[k]).triggered
                        == self@.generators[k].triggered,
                forall|j: int| 0 <= j < i ==> !selectable(m, ready@, j),
            decreases self@.generators.len() - i,
        {
            let ok = self.is_admissible(i, fresh);
            let is_ready = i < ready.len() && ready[i];
            if ok && (is_ready || self.generators[i].triggered) {
                proof {
                    assert(selectable(m, ready@, i as int));
                    lemma_first_selectable(m, ready@, i as int);
                }
                return Some(i);
            }
            proof {
                assert(!selectable(m, ready@, i as int));
            }
            i = i + 1;
        }
        proof {
            assert forall|j: int| !selectable(m, ready@, j) by {
                if 0 <= j < i {
                } else {
                    assert(!admissible(m, j));
                }
            }
        }
        None
    }

    /// Start a fresh round: every round budget is restored.
    fn reset_round_exec(&mut self)
        requires
            old(self)@.wf(),
        ensures
            final(self)@ == reset_round(old(self)@),
            final(self)@.wf(),
    {
        let mut k: usize = 0;
        while k < self.targets.len()
            invariant
                k <= self@.targets.len(),
                self@.targets.len() == old(self)@.targets.len(),
                self@ == (RuntimeModel { targets: self@.targets, ..old(self)@ }),
                forall|j: int|
                    0 <= j < k ==> (#[trigger] self@.targets[j]) == (TargetEntry {
                        round_cost: 0,
                        ..old(self)@.targets[j]
                    }),
                forall|j: int|
                    k <= j < self@.targets.len() ==> (#[trigger] self@.targets[j])
                        == old(self)@.targets[j],
            decreases self@.targets.len() - k,
        {
            let mut t = self.targets[k];
            t.round_cost = 0;
            self.targets.set(k, t);
            k = k + 1;
        }
        let mut k: usize = 0;
        while k < self.generators.len()
            invariant
                k <= self@.generators.len(),
                self@.generators.len() == old(self)@.generators.len(),
                self@.targets.len() == old(self)@.targets.len(),
                self@ == (RuntimeModel {
                    targets: self@.targets,
                    generators: self@.generators,
                    ..old(self)@
                }),
                forall|j: int|
                    0 <= j < self@.targets.len() ==> (#[trigger] self@.targets[j]) == (
                    TargetEntry { round_cost: 0, ..old(self)@.targets[j] }),
                forall|j: int|
                    0 <= j < k ==> (#[trigger] self@.generators[j]) == (GeneratorEntry {
                        round_picks: 0,
                        ..old(self)@.generators[j]
                    }),
                forall|j: int|
                    k <= j < self@.generators.len() ==> (#[trigger] self@.generators[j])
                        == old(self)@.generators[j],
            decreases self@.generators.len() - k,
        {
            let mut g = self.generators[k];
            g.round_picks = 0;
            self.generators.set(k, g);
            k = k + 1;
        }
        proof {
            lemma_reset_round(old(self)@);
            assert(self@.targets =~= reset_round(old(self)@).targets);
            assert(self@.generators =~= reset_round(old(self)@).generators);
            assert(self@ =~= reset_round(old(self)@));
        }
    }

    /// Consume the trigger of generator `i`.
    fn consume_trigger_exec(&mut self, i: usize)
        requires
            old(self)@.wf(),
            !old(self)@.shutdown_started,
            i < old(self)@.generators.len(),
        ensures
            final(self)@ == consume_trigger(old(self)@, i as int),
            final(self)@.wf(),
    {
        let mut g = self.generators[i];
        g.triggered = false;
        self.generators.set(i, g);
        self.selected_in_poll = true;
        proof {
            lemma_wf_retouch_generators(old(self)@, self@.generators);
            assert(self@ =~= consume_trigger(old(self)@, i as int));
        }
    }

    /// Step 5: select the first selectable generator, starting a fresh round
    /// when only the round's budgets stand in the way.
    fn select(&mut self, ready: &Vec<bool>) -> (r: NextAction<Ev, Er>)
        requires
            old(self)@.wf(),
        ensures
            (final(self)@, r) == select_spec(old(self)@, ready@),
            final(self)@.wf(),
    {
        if self.admitted_in_poll {
            return NextAction::Yield;
        }
        if self.selected_in_poll {
            return NextAction::Park;
        }
        if self.shutdown_started {
            proof {
                assert(!has_selectable(self@, ready@));
                assert(!has_selectable(reset_round(self@), ready@));
            }
            return NextAction::Park;
        }
        match self.scan(ready, false) {
            Some(i) => {
                let id = self.generators[i].id;
                self.consume_trigger_exec(i);
                NextAction::TakeNext(id)
            },
            None => match self.scan(ready, true) {
                Some(i) => {
                    self.reset_round_exec();
                    let id = self.generators[i].id;
                    self.consume_trigger_exec(i);
                    NextAction::TakeNext(id)
                },
                None => NextAction::Park,
            },
        }
    }

    /// Admit the work item that generator `id` handed out.
    fn accept_work(&mut self, id: GeneratorId, cost: CostUnits) -> (r: NextAction<Ev, Er>)
        requires
            old(self)@.wf(),
        ensures
            (final(self)@, r) == admit_spec(old(self)@, id, cost.0),
            final(self)@.wf(),
    {
        if self.admitted_in_poll {
            return NextAction::Discard;
        }
        let i = match self.find_generator(id) {
            Some(i) => i,
            None => {
                return NextAction::Discard;
            },
        };
        if !self.is_admissible(i, false) {
            return NextAction::Discard;
        }
        let mut g = self.generators[i];
        let p = match self.find_target(g.target) {
            Some(p) => p,
            None => {
                return NextAction::Discard;
            },
        };
        let mut t = self.targets[p];
        let work = WorkId(self.next_work);
        let record = InFlight { work, generator: id, target: g.target, class: g.config.class };
        t.round_cost = t.round_cost.saturating_add(cost.0);
        if g.config.weight.is_some() {
            g.round_picks = g.round_picks + 1;
        }
        self.targets.set(p, t);
        self.generators.set(i, g);
        self.in_flight.push(record);
        self.next_work = self.next_work + 1;
        self.admitted_in_poll = true;
        proof {
            assert(self@ =~= admit_spec(old(self)@, id, cost.0).0);
            lemma_admit_wf(old(self)@, id, cost.0);
        }
        NextAction::Spawn(work)
    }

    /// Steps 1, 2, 4, 5 and 6 of a poll, and the request for step 3 unless
    /// in-flight work was already polled.
    fn decide(&mut self, polled: bool) -> (r: NextAction<Ev, Er>)
        requires
            old(self)@.wf(),
        ensures
            (final(self)@, r) == decide_spec(old(self)@, polled),
            final(self)@.wf(),
    {
        if self.shutdown_emitted {
            NextAction::Ready(RuntimeOutput::Shutdown)
        } else if self.outputs.len() > 0 {
            let out = self.outputs.remove(0);
            proof {
                let m = old(self)@;
                assert(self@ =~= decide_spec(m, polled).0);
                assert forall|k: int| 0 <= k < self@.outputs.len() implies #[trigger] self@.outputs[k] is Work by {
                    assert(self@.outputs[k] == m.outputs[k + 1]);
                }
            }
            NextAction::Ready(out)
        } else if !polled && self.in_flight.len() > 0 {
            NextAction::PollInFlight
        } else if self.shutdown_started {
            if self.in_flight.len() == 0 {
                self.shutdown_emitted = true;
                self.admitted_in_poll = false;
                self.selected_in_poll = false;
                proof {
                    assert(self@ =~= decide_spec(old(self)@, polled).0);
                }
                NextAction::Ready(RuntimeOutput::Shutdown)
            } else {
                NextAction::Park
            }
        } else if self.admitted_in_poll {
            NextAction::Yield
        } else if self.selected_in_poll {
            NextAction::Park
        } else if self.generators.len() == 0 {
            NextAction::Park
        } else {
            NextAction::QueryReadiness
        }
    }

    /// Step 3: move a completed work item to the output queue and deliver the
    /// oldest queued output.
    fn complete(&mut self, p: usize, result: Result<Ev, Er>) -> (r: NextAction<Ev, Er>)
        requires
            old(self)@.wf(),
            p < old(self)@.in_flight.len(),
        ensures
            (final(self)@, r) == complete_spec(old(self)@, old(self)@.in_flight[p as int].work, result),
            final(self)@.wf(),
    {
        let rec = self.in_flight.remove(p);
        let notify = match self.find_generator(rec.generator) {
            Some(_) => Some(rec.generator),
            None => None,
        };
        self.outputs.push(
            RuntimeOutput::Work {
                work: rec.work,
                target: rec.target,
                generator: rec.generator,
                result,
            },
        );
        let output = self.outputs.remove(0);
        proof {
            lemma_work_at(old(self)@.in_flight, rec.work, p as int);
            assert(self@ =~= complete_spec(old(self)@, rec.work, result).0);
            lemma_complete_wf(old(self)@, rec.work, result);
        }
        NextAction::Deliver { notify, output }
    }

    /// One step of the output future: the next action for `event`.
    pub(crate) fn step(&mut self, event: NextEvent<Ev, Er>) -> (r: NextAction<Ev, Er>)
        requires
            old(self)@.wf(),
        ensures
            (final(self)@, r) == next_spec(old(self)@, event),
            final(self)@.wf(),
    {
        match event {
            NextEvent::Poll => {
                self.admitted_in_poll = false;
                self.selected_in_poll = false;
                proof {
                    assert(self@ =~= (RuntimeModel {
                        admitted_in_poll: false,
                        selected_in_poll: false,
                        ..old(self)@
                    }));
                }
                self.decide(false)
            },
            NextEvent::Spawned => self.decide(false),
            NextEvent::NoneCompleted => self.decide(true),
            NextEvent::Completed { work, result } => match self.find_work(work) {
                Some(p) => self.complete(p, result),
                None => self.decide(true),
            },
            NextEvent::Readiness(ready) => self.select(&ready),
            NextEvent::Taken { generator, cost } => match cost {
                Some(c) => self.accept_work(generator, c),
                None => self.decide(true),
            },
        }
    }

    fn count_class_generators(&self, c: ClassId) -> (r: usize)
        ensures
            r == class_generators(self@.generators, c),
    {
        let mut n: usize = 0;
        let mut k: usize = 0;
        while k < self.generators.len()
            invariant
                k <= self@.generators.len(),
                n <= k,
                n == class_generators(self@.generators.take(k as int), c),
            decreases self@.generators.len() - k,
        {
            if self.generators[k].config.class == Some(c) {
                n = n + 1;
            }
            proof {
                assert(self@.generators.take(k + 1).drop_last() =~= self@.generators.take(
                    k as int,
                ));
            }
            k = k + 1;
        }
        proof {
            assert(self@.generators.take(k as int) =~= self@.generators);
        }
        n
    }

    fn count_class_load(&self, c: ClassId) -> (r: usize)
        ensures
            r == class_load(self@.in_flight, c),
    {
        let mut n: usize = 0;
        let mut k: usize = 0;
        while k < self.in_flight.len()
            invariant
                k <= self@.in_flight.len(),
                n <= k,
                n == class_load(self@.in_flight.take(k as int), c),
            decreases self@.in_flight.len() - k,
        {
            if self.in_flight[k].class == Some(c) {
                n = n + 1;
            }
            proof {
                assert(self@.in_flight.take(k + 1).drop_last() =~= self@.in_flight.take(k as int));
            }
            k = k + 1;
        }
        proof {
            assert(self@.in_flight.take(k as int) =~= self@.in_flight);
        }
        n
    }

    /// Snapshot of per-class statistics.
    pub(crate) fn class_stats(&self) -> (r: Vec<ClassStats>)
        ensures
            r@ == class_stats_spec(self@),
    {
        let mut classes: Vec<ClassId> = Vec::new();
        let mut k: usize = 0;
        while k < self.generators.len()
            invariant
                k <= self@.generators.len(),
                classes@ == class_list(self@.generators.take(k as int)),
            decreases self@.generators.len() - k,
        {
            match self.generators[k].config.class {
                Some(c) => {
                    if !contains_class(&classes, c) {
                        classes.push(c);
                    }
                },
                None => {},
            }
            proof {
                assert(self@.generators.take(k + 1).drop_last() =~= self@.generators.take(
                    k as int,
                ));
            }
            k = k + 1;
        }
        proof {
            assert(self@.generators.take(k as int) =~= self@.generators);
        }
        let mut out: Vec<ClassStats> = Vec::new();
        let mut j: usize = 0;
        while j < classes.len()
            invariant
                j <= classes@.len(),
                classes@ == class_list(self@.generators),
                out@.len() == j,
                forall|a: int| 0 <= a < j ==> (#[trigger] out@[a]) == class_stats_spec(self@)[a],
            decreases classes@.len() - j,
        {
            let c = classes[j];
            let g = self.count_class_generators(c);
            let l = self.count_class_load(c);
            out.push(ClassStats { class: c, generators: g, in_flight: l });
            j = j + 1;
        }
        proof {
            assert(out@ =~= class_stats_spec(self@));
        }
        out
    }

    /// The ids of the registered generators, in scan order: the order in
    /// which readiness is reported with [`crate::model::NextEvent::Readiness`].
    pub fn generator_ids(&self) -> (r: Vec<GeneratorId>)
        ensures
            r@.len() == self@.generators.len(),
            forall|k: int| 0 <= k < r@.len() ==> r@[k] == (#[trigger] self@.generators[k]).id,
    {
        let mut r: Vec<GeneratorId> = Vec::new();
        let mut k: usize = 0;
        while k < self.generators.len()
            invariant
                k <= self@.generators.len(),
                r@.len() == k,
                forall|j: int| 0 <= j < k ==> r@[j] == (#[trigger] self@.generators[j]).id,
            decreases self@.generators.len() - k,
        {
            r.push(self.generators[k].id);
            k = k + 1;
        }
        r
    }
}

} // verus!
