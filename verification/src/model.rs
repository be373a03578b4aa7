//! The mathematical model of the runtime state and the meaning of every
//! control operation and scheduling step, as pure functions on that model.

use vstd::prelude::*;

use crate::control::AddGeneratorError;
use crate::control::GeneratorConfig;
use crate::control::RuntimeConfig;
use crate::control::TargetLimits;
use crate::ids::ClassId;
use crate::ids::CostUnits;
use crate::ids::GeneratorId;
use crate::ids::TargetId;
use crate::ids::WorkId;
use crate::output::RuntimeOutput;
use crate::stats::ClassStats;
use crate::stats::RuntimeStats;

verus! {

/// A registered target and its scheduling state.
#[derive(Clone, Copy, Debug)]
pub struct TargetEntry {
    pub id: TargetId,
    pub limits: TargetLimits,
    pub paused: bool,
    /// Cost admitted for this target in the current scheduling round.
    pub round_cost: u64,
}

/// A registered generator and its scheduling state.
#[derive(Clone, Copy, Debug)]
pub struct GeneratorEntry {
    pub id: GeneratorId,
    pub target: TargetId,
    pub config: GeneratorConfig,
    pub paused: bool,
    /// Set by a trigger: the generator counts as ready at the next scan.
    pub triggered: bool,
    /// Number of times the generator was selected in the current round.
    pub round_picks: u32,
}

/// An admitted work item that has not completed yet.
#[derive(Clone, Copy, Debug)]
pub struct InFlight {
    pub work: WorkId,
    pub generator: GeneratorId,
    pub target: TargetId,
    pub class: Option<ClassId>,
}

/// What the driver of [`crate::runtime::Runtime::next`] reports back.
#[derive(Debug)]
pub enum NextEvent<Ev, Er> {
    /// A poll of the output future begins.
    Poll,
    /// Polling the in-flight work produced this completion.
    Completed { work: WorkId, result: Result<Ev, Er> },
    /// Polling the in-flight work produced no completion.
    NoneCompleted,
    /// Readiness of every registered generator, in scan order.
    Readiness(Vec<bool>),
    /// The work item admitted with `Spawn` was started.
    Spawned,
    /// What `take_next` of the chosen generator returned: the cost of the
    /// work item it handed out, or `None` when it had none.
    Taken { generator: GeneratorId, cost: Option<CostUnits> },
}

/// What the driver of [`crate::runtime::Runtime::next`] must do next.
#[derive(Debug)]
pub enum NextAction<Ev, Er> {
    /// Resolve the output future with this output.
    Ready(RuntimeOutput<Ev, Er>),
    /// A completion was drained: call `on_complete` on `notify` when present,
    /// then resolve the output future with `output`.
    Deliver { notify: Option<GeneratorId>, output: RuntimeOutput<Ev, Er> },
    /// Poll the in-flight work and report with `Completed` or `NoneCompleted`.
    PollInFlight,
    /// Ask every generator whether it is ready and report with `Readiness`.
    QueryReadiness,
    /// Call `take_next` on this generator and report with `Taken`.
    TakeNext(GeneratorId),
    /// The taken work item is admitted under this id; start it and report
    /// with `Spawned`.
    Spawn(WorkId),
    /// A work item was already admitted in this poll: wake the output
    /// future and return pending, so that the next poll continues.
    Yield,
    /// The taken work item cannot be admitted: drop it and report
    /// `NoneCompleted`.
    Discard,
    /// Nothing can make progress: register the waker and wait; when a wake
    /// was requested meanwhile (see `take_wake`), report `Poll` instead.
    Park,
}

/// The abstract state of a runtime.
#[verifier::ext_equal]
pub struct RuntimeModel<Ev, Er> {
    pub config: RuntimeConfig,
    /// Registered targets, in registration order.
    pub targets: Seq<TargetEntry>,
    /// Registered generators, in registration order (the scan order).
    pub generators: Seq<GeneratorEntry>,
    /// Admitted, not yet completed work, in admission order.
    pub in_flight: Seq<InFlight>,
    /// Completed outputs not yet returned, oldest first.
    pub outputs: Seq<RuntimeOutput<Ev, Er>>,
    pub next_target: u64,
    pub next_generator: u64,
    pub next_work: u64,
    pub shutdown_started: bool,
    pub shutdown_emitted: bool,
    /// Whether a control operation asked to wake a parked runtime.
    pub wake: bool,
    /// Whether a work item was admitted since the current poll began.
    pub admitted_in_poll: bool,
    /// Whether a generator was handed `take_next` since the current poll
    /// began.
    pub selected_in_poll: bool,
}

// ---------------------------------------------------------------------------
// Lookup by id.

pub open spec fn has_target(ts: Seq<TargetEntry>, id: TargetId) -> bool {
    exists|i: int| 0 <= i < ts.len() && (#[trigger] ts[i]).id == id
}

pub open spec fn target_pos(ts: Seq<TargetEntry>, id: TargetId) -> int {
    choose|i: int| 0 <= i < ts.len() && (#[trigger] ts[i]).id == id
}

pub open spec fn has_generator(gs: Seq<GeneratorEntry>, id: GeneratorId) -> bool {
    exists|i: int| 0 <= i < gs.len() && (#[trigger] gs[i]).id == id
}

pub open spec fn generator_pos(gs: Seq<GeneratorEntry>, id: GeneratorId) -> int {
    choose|i: int| 0 <= i < gs.len() && (#[trigger] gs[i]).id == id
}

pub open spec fn has_work(fl: Seq<InFlight>, id: WorkId) -> bool {
    exists|i: int| 0 <= i < fl.len() && (#[trigger] fl[i]).work == id
}

pub open spec fn work_pos(fl: Seq<InFlight>, id: WorkId) -> int {
    choose|i: int| 0 <= i < fl.len() && (#[trigger] fl[i]).work == id
}

pub open spec fn targets_unique(ts: Seq<TargetEntry>) -> bool {
    forall|i: int, j: int|
        0 <= i < ts.len() && 0 <= j < ts.len() && i != j ==> (#[trigger] ts[i]).id != (
        #[trigger] ts[j]).id
}

pub open spec fn generators_unique(gs: Seq<GeneratorEntry>) -> bool {
    forall|i: int, j: int|
        0 <= i < gs.len() && 0 <= j < gs.len() && i != j ==> (#[trigger] gs[i]).id != (
        #[trigger] gs[j]).id
}

pub open spec fn works_unique(fl: Seq<InFlight>) -> bool {
    forall|i: int, j: int|
        0 <= i < fl.len() && 0 <= j < fl.len() && i != j ==> (#[trigger] fl[i]).work != (
        #[trigger] fl[j]).work
}

/// The generators that remain when target `t` is removed, in their order.
pub open spec fn detach_target(gs: Seq<GeneratorEntry>, t: TargetId) -> Seq<GeneratorEntry>
    decreases gs.len(),
{
    if gs.len() == 0 {
        gs
    } else {
        let rest = detach_target(gs.drop_last(), t);
        if gs.last().target == t {
            rest
        } else {
            rest.push(gs.last())
        }
    }
}

/// What removing target `t` keeps of a generator list: exactly the generators
/// of the other targets, with unique ids kept unique.
pub proof fn lemma_detach_target(gs: Seq<GeneratorEntry>, t: TargetId)
    ensures
        detach_target(gs, t).len() <= gs.len(),
        forall|k: int|
            0 <= k < detach_target(gs, t).len() ==> (#[trigger] detach_target(gs, t)[k]).target
                != t && gs.contains(detach_target(gs, t)[k]),
        forall|j: int|
            0 <= j < gs.len() && (#[trigger] gs[j]).target != t ==> detach_target(
                gs,
                t,
            ).contains(gs[j]),
        generators_unique(gs) ==> generators_unique(detach_target(gs, t)),
    decreases gs.len(),
{
    if gs.len() > 0 {
        let init = gs.drop_last();
        lemma_detach_target(init, t);
        let rest = detach_target(init, t);
        let d = detach_target(gs, t);
        assert forall|k: int| 0 <= k < d.len() implies (#[trigger] d[k]).target != t
            && gs.contains(d[k]) by {
            if k < rest.len() {
                assert(d[k] == rest[k]);
                let j = choose|j: int| 0 <= j < init.len() && init[j] == rest[k];
                assert(gs[j] == rest[k]);
            } else {
                assert(d[k] == gs.last());
                assert(gs[gs.len() - 1] == d[k]);
            }
        }
        assert forall|j: int| 0 <= j < gs.len() && (#[trigger] gs[j]).target != t implies d.contains(
            gs[j],
        ) by {
            if j < gs.len() - 1 {
                assert(init[j] == gs[j]);
                let k = choose|k: int| 0 <= k < rest.len() && rest[k] == gs[j];
                assert(d[k] == gs[j]);
            } else {
                assert(d[d.len() - 1] == gs[j]);
            }
        }
        if generators_unique(gs) {
            assert(generators_unique(init)) by {
                assert forall|i: int, j: int|
                    0 <= i < init.len() && 0 <= j < init.len() && i != j implies (
                    #[trigger] init[i]).id != (#[trigger] init[j]).id by {
                    assert(gs[i] == init[i] && gs[j] == init[j]);
                }
            }
            assert forall|i: int, j: int|
                0 <= i < d.len() && 0 <= j < d.len() && i != j implies (#[trigger] d[i]).id != (
                #[trigger] d[j]).id by {
                if i < rest.len() && j < rest.len() {
                    assert(d[i] == rest[i] && d[j] == rest[j]);
                } else if i < rest.len() {
                    assert(d[i] == rest[i]);
                    let a = choose|a: int| 0 <= a < init.len() && init[a] == rest[i];
                    assert(gs[a] == init[a]);
                    assert(d[j] == gs[gs.len() - 1]);
                } else if j < rest.len() {
                    assert(d[j] == rest[j]);
                    let a = choose|a: int| 0 <= a < init.len() && init[a] == rest[j];
                    assert(gs[a] == init[a]);
                    assert(d[i] == gs[gs.len() - 1]);
                }
            }
        }
    }
}

/// Number of in-flight work items charged to target `t`.
pub open spec fn target_load(fl: Seq<InFlight>, t: TargetId) -> nat
    decreases fl.len(),
{
    if fl.len() == 0 {
        0
    } else {
        target_load(fl.drop_last(), t) + if fl.last().target == t {
            1nat
        } else {
            0nat
        }
    }
}

pub open spec fn saturating_sum(a: u64, b: u64) -> u64 {
    if a + b > u64::MAX {
        u64::MAX
    } else {
        (a + b) as u64
    }
}

impl<Ev, Er> RuntimeModel<Ev, Er> {
    /// The state invariant kept by every operation.
    pub open spec fn wf(self) -> bool {
        &&& forall|i: int|
            0 <= i < self.targets.len() ==> (#[trigger] self.targets[i]).id.0 < self.next_target
        &&& targets_unique(self.targets)
        &&& forall|i: int|
            0 <= i < self.generators.len() ==> (#[trigger] self.generators[i]).id.0
                < self.next_generator
        &&& generators_unique(self.generators)
        &&& forall|i: int|
            0 <= i < self.generators.len() ==> has_target(
                self.targets,
                (#[trigger] self.generators[i]).target,
            )
        &&& forall|i: int|
            0 <= i < self.in_flight.len() ==> (#[trigger] self.in_flight[i]).work.0
                < self.next_work
        &&& works_unique(self.in_flight)
        &&& (self.config.global_max_in_flight matches Some(mx) ==> self.in_flight.len() <= mx)
        &&& (self.config.output_queue_capacity matches Some(c) ==> self.in_flight.len()
            + self.outputs.len() <= c)
        &&& (self.shutdown_emitted ==> self.shutdown_started && self.in_flight.len() == 0
            && self.outputs.len() == 0 && !self.admitted_in_poll && !self.selected_in_poll)
        &&& forall|i: int| 0 <= i < self.outputs.len() ==> #[trigger] self.outputs[i] is Work
    }

    /// Whether fresh target and generator ids can still be allocated.
    pub open spec fn ids_available(self) -> bool {
        self.next_target < u64::MAX && self.next_generator < u64::MAX
    }
}

/// The state of a freshly built runtime.
pub open spec fn initial_model<Ev, Er>(config: RuntimeConfig) -> RuntimeModel<Ev, Er> {
    RuntimeModel {
        config,
        targets: Seq::empty(),
        generators: Seq::empty(),
        in_flight: Seq::empty(),
        outputs: Seq::empty(),
        next_target: 0,
        next_generator: 0,
        next_work: 0,
        shutdown_started: false,
        shutdown_emitted: false,
        wake: false,
        admitted_in_poll: false,
        selected_in_poll: false,
    }
}

// ---------------------------------------------------------------------------
// Control operations.

pub open spec fn add_target_spec<Ev, Er>(m: RuntimeModel<Ev, Er>, limits: TargetLimits) -> (
    RuntimeModel<Ev, Er>,
    Option<TargetId>,
) {
    if m.shutdown_started {
        (m, None)
    } else {
        let id = TargetId(m.next_target);
        (
            RuntimeModel {
                targets: m.targets.push(TargetEntry { id, limits, paused: false, round_cost: 0 }),
                next_target: (m.next_target + 1) as u64,
                wake: true,
                ..m
            },
            Some(id),
        )
    }
}

pub open spec fn remove_target_spec<Ev, Er>(m: RuntimeModel<Ev, Er>, id: TargetId) -> (
    RuntimeModel<Ev, Er>,
    bool,
) {
    if !m.shutdown_started && has_target(m.targets, id) {
        (
            RuntimeModel {
                targets: m.targets.remove(target_pos(m.targets, id)),
                generators: detach_target(m.generators, id),
                wake: true,
                ..m
            },
            true,
        )
    } else {
        (m, false)
    }
}

pub open spec fn update_target_limits_spec<Ev, Er>(
    m: RuntimeModel<Ev, Er>,
    id: TargetId,
    limits: TargetLimits,
) -> (RuntimeModel<Ev, Er>, bool) {
    if !m.shutdown_started && has_target(m.targets, id) {
        let p = target_pos(m.targets, id);
        (
            RuntimeModel {
                targets: m.targets.update(p, TargetEntry { limits, ..m.targets[p] }),
                wake: true,
                ..m
            },
            true,
        )
    } else {
        (m, false)
    }
}

pub open spec fn pause_target_spec<Ev, Er>(m: RuntimeModel<Ev, Er>, id: TargetId) -> (
    RuntimeModel<Ev, Er>,
    bool,
) {
    if !m.shutdown_started && has_target(m.targets, id) {
        let p = target_pos(m.targets, id);
        (
            RuntimeModel {
                targets: m.targets.update(p, TargetEntry { paused: true, ..m.targets[p] }),
                ..m
            },
            true,
        )
    } else {
        (m, false)
    }
}

pub open spec fn resume_target_spec<Ev, Er>(m: RuntimeModel<Ev, Er>, id: TargetId) -> (
    RuntimeModel<Ev, Er>,
    bool,
) {
    if !m.shutdown_started && has_target(m.targets, id) {
        let p = target_pos(m.targets, id);
        (
            RuntimeModel {
                targets: m.targets.update(p, TargetEntry { paused: false, ..m.targets[p] }),
                wake: true,
                ..m
            },
            true,
        )
    } else {
        (m, false)
    }
}

pub open spec fn add_generator_spec<Ev, Er>(
    m: RuntimeModel<Ev, Er>,
    target: TargetId,
    config: GeneratorConfig,
) -> (RuntimeModel<Ev, Er>, Result<GeneratorId, AddGeneratorError>) {
    if m.shutdown_started {
        (m, Err(AddGeneratorError::ShutdownStarted))
    } else if !has_target(m.targets, target) {
        (m, Err(AddGeneratorError::TargetNotFound))
    } else {
        let id = GeneratorId(m.next_generator);
        let entry = GeneratorEntry {
            id,
            target,
            config,
            paused: false,
            triggered: false,
            round_picks: 0,
        };
        (
            RuntimeModel {
                generators: m.generators.push(entry),
                next_generator: (m.next_generator + 1) as u64,
                wake: true,
                ..m
            },
            Ok(id),
        )
    }
}

pub open spec fn remove_generator_spec<Ev, Er>(m: RuntimeModel<Ev, Er>, id: GeneratorId) -> (
    RuntimeModel<Ev, Er>,
    bool,
) {
    if !m.shutdown_started && has_generator(m.generators, id) {
        (
            RuntimeModel {
                generators: m.generators.remove(generator_pos(m.generators, id)),
                wake: true,
                ..m
            },
            true,
        )
    } else {
        (m, false)
    }
}

pub open spec fn update_generator_spec<Ev, Er>(
    m: RuntimeModel<Ev, Er>,
    id: GeneratorId,
    config: GeneratorConfig,
) -> (RuntimeModel<Ev, Er>, bool) {
    if !m.shutdown_started && has_generator(m.generators, id) {
        let p = generator_pos(m.generators, id);
        (
            RuntimeModel {
                generators: m.generators.update(p, GeneratorEntry { config, ..m.generators[p] }),
                wake: true,
                ..m
            },
            true,
        )
    } else {
        (m, false)
    }
}

pub open spec fn pause_generator_spec<Ev, Er>(m: RuntimeModel<Ev, Er>, id: GeneratorId) -> (
    RuntimeModel<Ev, Er>,
    bool,
) {
    if !m.shutdown_started && has_generator(m.generators, id) {
        let p = generator_pos(m.generators, id);
        (
            RuntimeModel {
                generators: m.generators.update(
                    p,
                    GeneratorEntry { paused: true, ..m.generators[p] },
                ),
                ..m
            },
            true,
        )
    } else {
        (m, false)
    }
}

pub open spec fn resume_generator_spec<Ev, Er>(m: RuntimeModel<Ev, Er>, id: GeneratorId) -> (
    RuntimeModel<Ev, Er>,
    bool,
) {
    if !m.shutdown_started && has_generator(m.generators, id) {
        let p = generator_pos(m.generators, id);
        (
            RuntimeModel {
                generators: m.generators.update(
                    p,
                    GeneratorEntry { paused: false, ..m.generators[p] },
                ),
                wake: true,
                ..m
            },
            true,
        )
    } else {
        (m, false)
    }
}

pub open spec fn trigger_generator_spec<Ev, Er>(m: RuntimeModel<Ev, Er>, id: GeneratorId) -> (
    RuntimeModel<Ev, Er>,
    bool,
) {
    if has_generator(m.generators, id) {
        let p = generator_pos(m.generators, id);
        (
            RuntimeModel {
                generators: m.generators.update(
                    p,
                    GeneratorEntry { triggered: true, ..m.generators[p] },
                ),
                wake: true,
                ..m
            },
            true,
        )
    } else {
        (m, false)
    }
}

pub open spec fn graceful_shutdown_spec<Ev, Er>(m: RuntimeModel<Ev, Er>) -> RuntimeModel<
    Ev,
    Er,
> {
    if m.shutdown_started {
        m
    } else {
        RuntimeModel { shutdown_started: true, wake: true, ..m }
    }
}

pub open spec fn stats_spec<Ev, Er>(m: RuntimeModel<Ev, Er>) -> RuntimeStats {
    RuntimeStats {
        targets: m.targets.len() as usize,
        generators: m.generators.len() as usize,
        in_flight: m.in_flight.len() as usize,
        queued_outputs: m.outputs.len() as usize,
        shutdown_started: m.shutdown_started,
        shutdown_complete: m.shutdown_emitted,
    }
}

// ---------------------------------------------------------------------------
// Scheduling.

/// Whether generator `i` may be handed a new work item now, its own
/// readiness aside: the runtime accepts work, neither the generator nor its
/// target is paused, every in-flight and queue bound has room, and the
/// target's cost budget and the generator's weight allow another selection in
/// the current round (a generator without a weight has no per-round
/// quota).
pub open spec fn admissible<Ev, Er>(m: RuntimeModel<Ev, Er>, i: int) -> bool {
    0 <= i < m.generators.len() && {
        let g = m.generators[i];
        let t = m.targets[target_pos(m.targets, g.target)];
        &&& !m.shutdown_started
        &&& !g.paused
        &&& has_target(m.targets, g.target)
        &&& !t.paused
        &&& (m.config.global_max_in_flight matches Some(mx) ==> m.in_flight.len() < mx)
        &&& (m.config.output_queue_capacity matches Some(c) ==> m.in_flight.len()
            + m.outputs.len() < c)
        &&& (t.limits.max_in_flight matches Some(mx) ==> target_load(m.in_flight, g.target)
            < mx)
        &&& (t.limits.max_cost_per_round matches Some(b) ==> t.round_cost < b.0)
        &&& (g.config.weight matches Some(w) ==> g.round_picks < w)
        &&& m.next_work < u64::MAX
    }
}

/// Whether generator `i` reported itself ready (readiness is given in scan order).
pub open spec fn reported_ready(ready: Seq<bool>, i: int) -> bool {
    0 <= i < ready.len() && ready[i]
}

/// Whether generator `i` is selectable: admissible and ready, or triggered.
pub open spec fn selectable<Ev, Er>(m: RuntimeModel<Ev, Er>, ready: Seq<bool>, i: int) -> bool {
    admissible(m, i) && (reported_ready(ready, i) || m.generators[i].triggered)
}

pub open spec fn has_selectable<Ev, Er>(m: RuntimeModel<Ev, Er>, ready: Seq<bool>) -> bool {
    exists|i: int| #[trigger] selectable(m, ready, i)
}

/// The first selectable generator in scan order.
pub open spec fn first_selectable<Ev, Er>(m: RuntimeModel<Ev, Er>, ready: Seq<bool>) -> int {
    choose|i: int|
        #[trigger] selectable(m, ready, i) && forall|j: int| 0 <= j < i ==> !selectable(m, ready, j)
}

/// Whenever some generator is selectable, there is a first one in scan order.
pub proof fn lemma_first_selectable_exists<Ev, Er>(m: RuntimeModel<Ev, Er>, ready: Seq<bool>)
    requires
        has_selectable(m, ready),
    ensures
        selectable(m, ready, first_selectable(m, ready)),
        forall|j: int| 0 <= j < first_selectable(m, ready) ==> !selectable(m, ready, j),
{
    let i = choose|i: int| #[trigger] selectable(m, ready, i);
    lemma_least_below(m, ready, i);
}

proof fn lemma_least_below<Ev, Er>(m: RuntimeModel<Ev, Er>, ready: Seq<bool>, i: int)
    requires
        selectable(m, ready, i),
    ensures
        exists|k: int|
            #[trigger] selectable(m, ready, k) && forall|j: int| 0 <= j < k ==> !selectable(m, ready, j),
    decreases i,
{
    if exists|j: int| 0 <= j < i && #[trigger] selectable(m, ready, j) {
        let j = choose|j: int| 0 <= j < i && #[trigger] selectable(m, ready, j);
        lemma_least_below(m, ready, j);
    } else {
        assert(selectable(m, ready, i) && forall|j: int| 0 <= j < i ==> !selectable(m, ready, j));
    }
}

/// The state at the start of a new scheduling round: every round budget is
/// restored.
pub open spec fn reset_round<Ev, Er>(m: RuntimeModel<Ev, Er>) -> RuntimeModel<Ev, Er> {
    RuntimeModel {
        targets: Seq::new(
            m.targets.len(),
            |k: int| TargetEntry { round_cost: 0, ..m.targets[k] },
        ),
        generators: Seq::new(
            m.generators.len(),
            |k: int| GeneratorEntry { round_picks: 0, ..m.generators[k] },
        ),
        ..m
    }
}

/// Selecting generator `i` consumes its trigger and ends the scanning of
/// this poll.
pub open spec fn consume_trigger<Ev, Er>(m: RuntimeModel<Ev, Er>, i: int) -> RuntimeModel<Ev, Er> {
    RuntimeModel {
        generators: m.generators.update(i, GeneratorEntry { triggered: false, ..m.generators[i] }),
        selected_in_poll: true,
        ..m
    }
}

/// Step 5: pick the first selectable generator. When none is selectable only
/// because the round's budgets are spent, a new round starts and the scan is
/// repeated. A poll selects at most once: after a selection it yields when a
/// work item was admitted and parks when the generator declined.
pub open spec fn select_spec<Ev, Er>(m: RuntimeModel<Ev, Er>, ready: Seq<bool>) -> (
    RuntimeModel<Ev, Er>,
    NextAction<Ev, Er>,
) {
    if m.admitted_in_poll {
        (m, NextAction::Yield)
    } else if m.selected_in_poll {
        (m, NextAction::Park)
    } else if has_selectable(m, ready) {
        let i = first_selectable(m, ready);
        (consume_trigger(m, i), NextAction::TakeNext(m.generators[i].id))
    } else if has_selectable(reset_round(m), ready) {
        let r = reset_round(m);
        let i = first_selectable(r, ready);
        (consume_trigger(r, i), NextAction::TakeNext(r.generators[i].id))
    } else {
        (m, NextAction::Park)
    }
}

/// Admit the work item that generator `id` handed out, charging `cost` to its
/// target's round budget; refused when an item was already admitted in this
/// poll.
pub open spec fn admit_spec<Ev, Er>(m: RuntimeModel<Ev, Er>, id: GeneratorId, cost: u64) -> (
    RuntimeModel<Ev, Er>,
    NextAction<Ev, Er>,
) {
    let i = generator_pos(m.generators, id);
    if !m.admitted_in_poll && has_generator(m.generators, id) && admissible(m, i) {
        let g = m.generators[i];
        let p = target_pos(m.targets, g.target);
        let t = m.targets[p];
        let work = WorkId(m.next_work);
        let record = InFlight { work, generator: id, target: g.target, class: g.config.class };
        (
            RuntimeModel {
                targets: m.targets.update(
                    p,
                    TargetEntry { round_cost: saturating_sum(t.round_cost, cost), ..t },
                ),
                generators: m.generators.update(
                    i,
                    GeneratorEntry {
                        round_picks: if g.config.weight is Some {
                            (g.round_picks + 1) as u32
                        } else {
                            g.round_picks
                        },
                        ..g
                    },
                ),
                in_flight: m.in_flight.push(record),
                next_work: (m.next_work + 1) as u64,
                admitted_in_poll: true,
                ..m
            },
            NextAction::Spawn(work),
        )
    } else {
        (m, NextAction::Discard)
    }
}

/// Step 3: a completed work item moves from the in-flight set to the output
/// queue, and the oldest queued output is delivered.
pub open spec fn complete_spec<Ev, Er>(m: RuntimeModel<Ev, Er>, work: WorkId, result: Result<Ev, Er>) -> (
    RuntimeModel<Ev, Er>,
    NextAction<Ev, Er>,
) {
    let p = work_pos(m.in_flight, work);
    let rec = m.in_flight[p];
    let queued = m.outputs.push(
        RuntimeOutput::Work { work, target: rec.target, generator: rec.generator, result },
    );
    let notify = if has_generator(m.generators, rec.generator) {
        Some(rec.generator)
    } else {
        None
    };
    (
        RuntimeModel { in_flight: m.in_flight.remove(p), outputs: queued.drop_first(), ..m },
        NextAction::Deliver { notify, output: queued[0] },
    )
}

/// Steps 1, 2, 4, 5 and 6 of a poll; step 3 (polling in-flight work) is
/// requested unless it was already done in this poll (`polled`). A poll
/// selects at most one generator: once one was selected, step 5 yields when
/// its work item was admitted and parks when it declined.
pub open spec fn decide_spec<Ev, Er>(m: RuntimeModel<Ev, Er>, polled: bool) -> (
    RuntimeModel<Ev, Er>,
    NextAction<Ev, Er>,
) {
    if m.shutdown_emitted {
        (m, NextAction::Ready(RuntimeOutput::Shutdown))
    } else if m.outputs.len() > 0 {
        (RuntimeModel { outputs: m.outputs.drop_first(), ..m }, NextAction::Ready(m.outputs[0]))
    } else if !polled && m.in_flight.len() > 0 {
        (m, NextAction::PollInFlight)
    } else if m.shutdown_started {
        if m.in_flight.len() == 0 {
            (
                RuntimeModel {
                    shutdown_emitted: true,
                    admitted_in_poll: false,
                    selected_in_poll: false,
                    ..m
                },
                NextAction::Ready(RuntimeOutput::Shutdown),
            )
        } else {
            (m, NextAction::Park)
        }
    } else if m.admitted_in_poll {
        (m, NextAction::Yield)
    } else if m.selected_in_poll {
        (m, NextAction::Park)
    } else if m.generators.len() == 0 {
        (m, NextAction::Park)
    } else {
        (m, NextAction::QueryReadiness)
    }
}

/// One step of [`crate::runtime::Runtime::next`]: the next state and action
/// for the event that the driver reports.
pub open spec fn next_spec<Ev, Er>(m: RuntimeModel<Ev, Er>, event: NextEvent<Ev, Er>) -> (
    RuntimeModel<Ev, Er>,
    NextAction<Ev, Er>,
) {
    match event {
        NextEvent::Poll => decide_spec(
            RuntimeModel { admitted_in_poll: false, selected_in_poll: false, ..m },
            false,
        ),
        NextEvent::Spawned => decide_spec(m, false),
        NextEvent::NoneCompleted => decide_spec(m, true),
        NextEvent::Completed { work, result } => if has_work(m.in_flight, work) {
            complete_spec(m, work, result)
        } else {
            decide_spec(m, true)
        },
        NextEvent::Readiness(ready) => select_spec(m, ready@),
        NextEvent::Taken { generator, cost } => match cost {
            Some(c) => admit_spec(m, generator, c.0),
            None => decide_spec(m, true),
        },
    }
}

// ---------------------------------------------------------------------------
// Per-class statistics.

/// The classes of the registered generators, in order of first appearance.
pub open spec fn class_list(gs: Seq<GeneratorEntry>) -> Seq<ClassId>
    decreases gs.len(),
{
    if gs.len() == 0 {
        Seq::empty()
    } else {
        let rest = class_list(gs.drop_last());
        match gs.last().config.class {
            Some(c) => if rest.contains(c) {
                rest
            } else {
                rest.push(c)
            },
            None => rest,
        }
    }
}

/// Number of generators in class `c`.
pub open spec fn class_generators(gs: Seq<GeneratorEntry>, c: ClassId) -> nat
    decreases gs.len(),
{
    if gs.len() == 0 {
        0
    } else {
        class_generators(gs.drop_last(), c) + if gs.last().config.class == Some(c) {
            1nat
        } else {
            0nat
        }
    }
}

/// Number of in-flight work items admitted for generators of class `c`.
pub open spec fn class_load(fl: Seq<InFlight>, c: ClassId) -> nat
    decreases fl.len(),
{
    if fl.len() == 0 {
        0
    } else {
        class_load(fl.drop_last(), c) + if fl.last().class == Some(c) {
            1nat
        } else {
            0nat
        }
    }
}

/// One entry per class of the registered generators, in order of first
/// appearance.
pub open spec fn class_stats_spec<Ev, Er>(m: RuntimeModel<Ev, Er>) -> Seq<ClassStats> {
    let classes = class_list(m.generators);
    Seq::new(
        classes.len(),
        |k: int|
            ClassStats {
                class: classes[k],
                generators: class_generators(m.generators, classes[k]) as usize,
                in_flight: class_load(m.in_flight, classes[k]) as usize,
            },
    )
}

// ---------------------------------------------------------------------------
// Call sequences.

/// One call on a runtime: a control operation or one scheduling step. Used to
/// state properties of call sequences.
pub enum Operation<Ev, Er> {
    AddTarget(TargetLimits),
    RemoveTarget(TargetId),
    UpdateTargetLimits(TargetId, TargetLimits),
    PauseTarget(TargetId),
    ResumeTarget(TargetId),
    AddGenerator(TargetId, GeneratorConfig),
    RemoveGenerator(GeneratorId),
    UpdateGenerator(GeneratorId, GeneratorConfig),
    PauseGenerator(GeneratorId),
    ResumeGenerator(GeneratorId),
    TriggerGenerator(GeneratorId),
    GracefulShutdown,
    TakeWake,
    Next(NextEvent<Ev, Er>),
}

/// The state after one call.
pub open spec fn apply_operation<Ev, Er>(m: RuntimeModel<Ev, Er>, op: Operation<Ev, Er>) -> RuntimeModel<Ev, Er> {
    match op {
        Operation::AddTarget(l) => add_target_spec(m, l).0,
        Operation::RemoveTarget(t) => remove_target_spec(m, t).0,
        Operation::UpdateTargetLimits(t, l) => update_target_limits_spec(m, t, l).0,
        Operation::PauseTarget(t) => pause_target_spec(m, t).0,
        Operation::ResumeTarget(t) => resume_target_spec(m, t).0,
        Operation::AddGenerator(t, c) => add_generator_spec(m, t, c).0,
        Operation::RemoveGenerator(g) => remove_generator_spec(m, g).0,
        Operation::UpdateGenerator(g, c) => update_generator_spec(m, g, c).0,
        Operation::PauseGenerator(g) => pause_generator_spec(m, g).0,
        Operation::ResumeGenerator(g) => resume_generator_spec(m, g).0,
        Operation::TriggerGenerator(g) => trigger_generator_spec(m, g).0,
        Operation::GracefulShutdown => graceful_shutdown_spec(m),
        Operation::TakeWake => RuntimeModel { wake: false, ..m },
        Operation::Next(ev) => next_spec(m, ev).0,
    }
}

/// The target id that a call hands out, if it is a successful `add_target`.
pub open spec fn added_target<Ev, Er>(m: RuntimeModel<Ev, Er>, op: Operation<Ev, Er>) -> Option<TargetId> {
    match op {
        Operation::AddTarget(l) => add_target_spec(m, l).1,
        _ => None,
    }
}

/// The generator id that a call hands out, if it is a successful `add_generator`.
pub open spec fn added_generator<Ev, Er>(m: RuntimeModel<Ev, Er>, op: Operation<Ev, Er>) -> Option<GeneratorId> {
    match op {
        Operation::AddGenerator(t, c) => match add_generator_spec(m, t, c).1 {
            Ok(g) => Some(g),
            Err(_) => None,
        },
        _ => None,
    }
}

/// Whether a call meets its precondition in state `m`: an addition that
/// would succeed needs a free id.
pub open spec fn call_allowed<Ev, Er>(m: RuntimeModel<Ev, Er>, op: Operation<Ev, Er>) -> bool {
    match op {
        Operation::AddTarget(_) => m.shutdown_started || m.next_target < u64::MAX,
        Operation::AddGenerator(t, _) => m.shutdown_started || !has_target(m.targets, t)
            || m.next_generator < u64::MAX,
        _ => true,
    }
}

/// Whether every call of `ops` meets its precondition when it is made.
pub open spec fn run_allowed<Ev, Er>(m: RuntimeModel<Ev, Er>, ops: Seq<Operation<Ev, Er>>) -> bool {
    forall|k: nat| k < ops.len() ==> #[trigger] call_allowed(state_after(m, ops, k), ops[k as int])
}

/// The state after the first `k` calls of `ops`.
pub open spec fn state_after<Ev, Er>(m: RuntimeModel<Ev, Er>, ops: Seq<Operation<Ev, Er>>, k: nat) -> RuntimeModel<Ev, Er>
    decreases k,
{
    if k == 0 || k > ops.len() {
        m
    } else {
        apply_operation(state_after(m, ops, (k - 1) as nat), ops[k - 1])
    }
}

/// The actions of the scheduling steps in a run of events, in order.
pub open spec fn run_events<Ev, Er>(m: RuntimeModel<Ev, Er>, events: Seq<NextEvent<Ev, Er>>) -> (
    RuntimeModel<Ev, Er>,
    Seq<NextAction<Ev, Er>>,
)
    decreases events.len(),
{
    if events.len() == 0 {
        (m, Seq::empty())
    } else {
        let (m1, a) = next_spec(m, events[0]);
        let (m2, rest) = run_events(m1, events.drop_first());
        (m2, seq![a] + rest)
    }
}

/// Number of `TakeNext` actions in `actions`.
pub open spec fn take_next_count<Ev, Er>(actions: Seq<NextAction<Ev, Er>>) -> nat
    decreases actions.len(),
{
    if actions.len() == 0 {
        0
    } else {
        (if actions[0] is TakeNext {
            1nat
        } else {
            0nat
        }) + take_next_count(actions.drop_first())
    }
}

/// Number of `Spawn` actions in `actions`.
pub open spec fn spawn_count<Ev, Er>(actions: Seq<NextAction<Ev, Er>>) -> nat
    decreases actions.len(),
{
    if actions.len() == 0 {
        0
    } else {
        (if actions[0] is Spawn {
            1nat
        } else {
            0nat
        }) + spawn_count(actions.drop_first())
    }
}

} // verus!
