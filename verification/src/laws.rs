//! Properties of the runtime that span operations, proved over the model.

use vstd::prelude::*;

use crate::control::AddGeneratorError;
use crate::control::GeneratorConfig;
use crate::control::TargetLimits;
use crate::ids::ClassId;
use crate::ids::GeneratorId;
use crate::ids::TargetId;
use crate::ids::WorkId;
use crate::model::add_generator_spec;
use crate::model::add_target_spec;
use crate::model::admissible;
use crate::model::admit_spec;
use crate::model::complete_spec;
use crate::model::first_selectable;
use crate::model::generator_pos;
use crate::model::graceful_shutdown_spec;
use crate::model::has_generator;
use crate::model::has_selectable;
use crate::model::has_target;
use crate::model::has_work;
use crate::model::lemma_detach_target;
use crate::model::lemma_first_selectable_exists;
use crate::model::next_spec;
use crate::model::Operation;
use crate::model::apply_operation;
use crate::model::added_target;
use crate::model::added_generator;
use crate::model::state_after;
use crate::model::run_events;
use crate::model::spawn_count;
use crate::model::call_allowed;
use crate::model::run_allowed;
use crate::model::take_next_count;
use crate::model::class_list;
use crate::model::stats_spec;
use crate::model::class_generators;
use crate::model::class_stats_spec;
use crate::model::update_target_limits_spec;
use crate::model::resume_target_spec;
use crate::model::update_generator_spec;
use crate::model::resume_generator_spec;
use crate::model::NextAction;
use crate::model::NextEvent;
use crate::model::pause_generator_spec;
use crate::model::pause_target_spec;
use crate::model::remove_generator_spec;
use crate::model::remove_target_spec;
use crate::model::reported_ready;
use crate::model::reset_round;
use crate::model::RuntimeModel;
use crate::model::select_spec;
use crate::model::selectable;
use crate::model::target_load;
use crate::model::target_pos;
use crate::model::trigger_generator_spec;
use crate::model::work_pos;
use crate::model::GeneratorEntry;
use crate::output::RuntimeOutput;
use crate::wellformed::lemma_apply_wf;

verus! {

/// A new target gets an id that no registered target has and that is below
/// every id handed out later: ids are never reused.
pub proof fn law_target_ids_fresh<Ev, Er>(m: RuntimeModel<Ev, Er>, limits: TargetLimits)
    requires
        m.wf(),
        m.shutdown_started || m.next_target < u64::MAX,
    ensures
        add_target_spec(m, limits).1 matches Some(id) ==> !has_target(m.targets, id) && id.0
            == m.next_target && add_target_spec(m, limits).0.next_target > id.0,
        add_target_spec(m, limits).0.next_target >= m.next_target,
{
    if let Some(id) = add_target_spec(m, limits).1 {
        if has_target(m.targets, id) {
            let i = choose|i: int| 0 <= i < m.targets.len() && (#[trigger] m.targets[i]).id == id;
            assert(m.targets[i].id.0 < m.next_target);
        }
    }
}

/// A new generator gets an id that no registered generator has and that is
/// below every id handed out later: ids are never reused.
pub proof fn law_generator_ids_fresh<Ev, Er>(
    m: RuntimeModel<Ev, Er>,
    target: TargetId,
    config: GeneratorConfig,
)
    requires
        m.wf(),
        m.shutdown_started || !has_target(m.targets, target) || m.next_generator < u64::MAX,
    ensures
        add_generator_spec(m, target, config).1 matches Ok(id) ==> !has_generator(
            m.generators,
            id,
        ) && id.0 == m.next_generator && add_generator_spec(m, target, config).0.next_generator
            > id.0,
        add_generator_spec(m, target, config).0.next_generator >= m.next_generator,
{
    if let Ok(id) = add_generator_spec(m, target, config).1 {
        if has_generator(m.generators, id) {
            let i = choose|i: int|
                0 <= i < m.generators.len() && (#[trigger] m.generators[i]).id == id;
            assert(m.generators[i].id.0 < m.next_generator);
        }
    }
}

/// Removing a target (before shutdown) removes it and every generator
/// attached to it, keeps every generator of the other targets, and leaves
/// in-flight work and queued outputs alone; otherwise nothing changes.
pub proof fn law_remove_target_cascades<Ev, Er>(m: RuntimeModel<Ev, Er>, id: TargetId)
    requires
        m.wf(),
    ensures
        ({
            let (n, existed) = remove_target_spec(m, id);
            &&& existed == (!m.shutdown_started && has_target(m.targets, id))
            &&& !existed ==> n == m
            &&& existed ==> !has_target(n.targets, id)
            &&& existed ==> forall|k: int|
                0 <= k < n.generators.len() ==> (#[trigger] n.generators[k]).target != id
            &&& forall|j: int|
                0 <= j < m.generators.len() && (#[trigger] m.generators[j]).target != id
                    ==> n.generators.contains(m.generators[j])
            &&& n.in_flight == m.in_flight
            &&& n.outputs == m.outputs
        }),
{
    let (n, existed) = remove_target_spec(m, id);
    lemma_detach_target(m.generators, id);
    if existed {
        let p = target_pos(m.targets, id);
        if has_target(n.targets, id) {
            let q = choose|q: int| 0 <= q < n.targets.len() && (#[trigger] n.targets[q]).id == id;
            if q < p {
                assert(n.targets[q] == m.targets[q]);
            } else {
                assert(n.targets[q] == m.targets[q + 1]);
            }
        }
        assert forall|j: int|
            0 <= j < m.generators.len() && (#[trigger] m.generators[j]).target != id implies n.generators.contains(
            m.generators[j],
        ) by {}
    } else {
        assert forall|j: int|
            0 <= j < m.generators.len() && (#[trigger] m.generators[j]).target != id implies n.generators.contains(
            m.generators[j],
        ) by {
            assert(n.generators[j] == m.generators[j]);
        }
    }
}

/// Generator `g` is registered, neither it nor its target is paused, and it
/// reported itself ready or was triggered.
pub open spec fn selection_allowed<Ev, Er>(m: RuntimeModel<Ev, Er>, ready: Seq<bool>, g: GeneratorId) -> bool {
    exists|i: int|
        0 <= i < m.generators.len() && (#[trigger] m.generators[i]).id == g
            && !m.generators[i].paused && has_target(m.targets, m.generators[i].target)
            && !m.targets[target_pos(m.targets, m.generators[i].target)].paused && (
        reported_ready(ready, i) || m.generators[i].triggered)
}

proof fn lemma_selected_generator<Ev, Er>(
    m: RuntimeModel<Ev, Er>,
    fresh: bool,
    ready: Seq<bool>,
    i: int,
)
    requires
        m.wf(),
        selectable(if fresh { reset_round(m) } else { m }, ready, i),
    ensures
        0 <= i < m.generators.len(),
        (if fresh { reset_round(m) } else { m }).generators[i].id == m.generators[i].id,
        !m.generators[i].paused,
        has_target(m.targets, m.generators[i].target),
        !m.targets[target_pos(m.targets, m.generators[i].target)].paused,
        reported_ready(ready, i) || m.generators[i].triggered,
        selection_allowed(m, ready, m.generators[i].id),
{
    let r = if fresh { reset_round(m) } else { m };
    let g = m.generators[i];
    assert(r.generators[i].id == g.id && r.generators[i].target == g.target);
    assert(r.generators[i].paused == g.paused && r.generators[i].triggered == g.triggered);
    let p = target_pos(r.targets, g.target);
    assert(0 <= p < r.targets.len() && r.targets[p].id == g.target);
    assert(r.targets[p].id == m.targets[p].id && r.targets[p].paused == m.targets[p].paused);
    assert(has_target(m.targets, g.target));
    let q = target_pos(m.targets, g.target);
    assert(m.targets[q].id == g.target);
    if q != p {
        assert(m.targets[q].id != m.targets[p].id);
    }
}

/// A selected generator is neither paused nor under a paused target, and
/// reported itself ready or was triggered.
pub proof fn law_selection_respects_pauses<Ev, Er>(m: RuntimeModel<Ev, Er>, ready: Seq<bool>)
    requires
        m.wf(),
    ensures
        select_spec(m, ready).1 matches NextAction::TakeNext(g) ==> selection_allowed(m, ready, g),
{
    let a = select_spec(m, ready).1;
    if m.admitted_in_poll || m.selected_in_poll {
    } else if has_selectable(m, ready) {
        let i = first_selectable(m, ready);
        lemma_first_selectable_exists(m, ready);
        lemma_selected_generator(m, false, ready, i);
        assert(a == NextAction::<Ev, Er>::TakeNext(m.generators[i].id));
        assert(selection_allowed(m, ready, m.generators[i].id));
    } else if has_selectable(reset_round(m), ready) {
        let r = reset_round(m);
        let i = first_selectable(r, ready);
        lemma_first_selectable_exists(r, ready);
        lemma_selected_generator(m, true, ready, i);
        assert(a == NextAction::<Ev, Er>::TakeNext(r.generators[i].id));
        assert(selection_allowed(m, ready, m.generators[i].id));
    }
}

/// After graceful shutdown has started, no target and no generator can be
/// added, and the state is left as it was.
pub proof fn law_shutdown_rejects_additions<Ev, Er>(
    m: RuntimeModel<Ev, Er>,
    limits: TargetLimits,
    target: TargetId,
    config: GeneratorConfig,
)
    requires
        m.shutdown_started,
    ensures
        add_target_spec(m, limits) == (m, None::<TargetId>),
        add_generator_spec(m, target, config) == (m, Err::<GeneratorId, AddGeneratorError>(
            AddGeneratorError::ShutdownStarted,
        )),
{
}

/// Graceful shutdown is idempotent, and once started it stays started.
pub proof fn law_shutdown_idempotent<Ev, Er>(m: RuntimeModel<Ev, Er>)
    ensures
        graceful_shutdown_spec(m).shutdown_started,
        graceful_shutdown_spec(graceful_shutdown_spec(m)) == graceful_shutdown_spec(m),
        m.shutdown_started ==> graceful_shutdown_spec(m) == m,
{
}

/// Once the shutdown output was emitted, every step leaves the state as it is
/// and returns the shutdown output again, or parks, or drops a work item it
/// cannot admit.
pub proof fn law_shutdown_sticky<Ev, Er>(m: RuntimeModel<Ev, Er>, event: NextEvent<Ev, Er>)
    requires
        m.wf(),
        m.shutdown_emitted,
    ensures
        next_spec(m, event).0 == m,
        next_spec(m, event).1 == NextAction::<Ev, Er>::Ready(RuntimeOutput::Shutdown)
            || next_spec(m, event).1 == NextAction::<Ev, Er>::Park || next_spec(m, event).1
            == NextAction::<Ev, Er>::Discard,
{
    match event {
        NextEvent::Readiness(ready) => {
            assert(!has_selectable(m, ready@));
            assert(!has_selectable(reset_round(m), ready@));
        },
        NextEvent::Completed { work, result } => {
            assert(!has_work(m.in_flight, work));
        },
        _ => {},
    }
}

/// Shutdown drains: once shutdown has started, a poll returns the oldest
/// queued output if there is one, asks to poll in-flight work if there is
/// some, and otherwise emits the shutdown output; a reported completion
/// shrinks the in-flight set and is returned. So the shutdown output comes
/// once every in-flight item has completed and every output was returned.
pub proof fn law_shutdown_drains<Ev, Er>(m: RuntimeModel<Ev, Er>, work: WorkId, result: Result<Ev, Er>)
    requires
        m.wf(),
        m.shutdown_started,
        !m.shutdown_emitted,
    ensures
        m.outputs.len() > 0 ==> next_spec(m, NextEvent::Poll).1 == NextAction::<Ev, Er>::Ready(
            m.outputs[0],
        ) && next_spec(m, NextEvent::Poll).0.outputs.len() + 1 == m.outputs.len(),
        m.outputs.len() == 0 && m.in_flight.len() > 0 ==> next_spec(m, NextEvent::Poll).1
            == NextAction::<Ev, Er>::PollInFlight,
        m.outputs.len() == 0 && m.in_flight.len() == 0 ==> next_spec(m, NextEvent::Poll).1
            == NextAction::<Ev, Er>::Ready(RuntimeOutput::Shutdown) && next_spec(
            m,
            NextEvent::Poll,
        ).0.shutdown_emitted,
        has_work(m.in_flight, work) ==> next_spec(m, NextEvent::Completed { work, result }).1 is Deliver
            && next_spec(m, NextEvent::Completed { work, result }).0.in_flight.len() + 1
            == m.in_flight.len() && next_spec(m, NextEvent::Completed { work, result }).0.outputs.len()
            == m.outputs.len(),
{
}

/// After graceful shutdown has started, no generator is selected and no work
/// is admitted: the in-flight set only shrinks.
pub proof fn law_no_new_work_after_shutdown<Ev, Er>(
    m: RuntimeModel<Ev, Er>,
    event: NextEvent<Ev, Er>,
)
    requires
        m.wf(),
        m.shutdown_started,
    ensures
        !(next_spec(m, event).1 is TakeNext),
        !(next_spec(m, event).1 is Spawn),
        next_spec(m, event).0.in_flight.len() <= m.in_flight.len(),
{
    match event {
        NextEvent::Readiness(ready) => {
            assert(!has_selectable(m, ready@));
            assert(!has_selectable(reset_round(m), ready@));
        },
        _ => {},
    }
}

/// The shutdown output is emitted only after shutdown started, once no work
/// is in flight and no output is queued.
pub proof fn law_shutdown_only_when_drained<Ev, Er>(
    m: RuntimeModel<Ev, Er>,
    event: NextEvent<Ev, Er>,
)
    requires
        m.wf(),
        !m.shutdown_emitted,
        next_spec(m, event).0.shutdown_emitted,
    ensures
        m.shutdown_started,
        next_spec(m, event).0.in_flight.len() == 0,
        next_spec(m, event).0.outputs.len() == 0,
        next_spec(m, event).1 == NextAction::<Ev, Er>::Ready(RuntimeOutput::Shutdown),
{
    match event {
        NextEvent::Readiness(ready) => {
            if has_selectable(m, ready@) {
            } else if has_selectable(reset_round(m), ready@) {
            }
        },
        _ => {},
    }
}

/// Admission never exceeds a limit: the in-flight set grows by one and stays
/// within the global bound, the output queue bound and the target's own
/// in-flight bound, and the runtime, generator and target all accept work.
pub proof fn law_admission_respects_limits<Ev, Er>(
    m: RuntimeModel<Ev, Er>,
    id: GeneratorId,
    cost: u64,
)
    requires
        m.wf(),
        admit_spec(m, id, cost).1 is Spawn,
    ensures
        ({
            let n = admit_spec(m, id, cost).0;
            let g = m.generators[generator_pos(m.generators, id)];
            let t = m.targets[target_pos(m.targets, g.target)];
            &&& !m.shutdown_started && !g.paused && !t.paused
            &&& n.in_flight.len() == m.in_flight.len() + 1
            &&& (m.config.global_max_in_flight matches Some(mx) ==> n.in_flight.len() <= mx)
            &&& (m.config.output_queue_capacity matches Some(c) ==> n.in_flight.len()
                + n.outputs.len() <= c)
            &&& (t.limits.max_in_flight matches Some(mx) ==> target_load(n.in_flight, g.target)
                <= mx)
        }),
{
    let n = admit_spec(m, id, cost).0;
    let g = m.generators[generator_pos(m.generators, id)];
    assert(n.in_flight.drop_last() =~= m.in_flight);
}

/// Every reachable state keeps the in-flight set within the global bound and
/// the in-flight work plus the queued outputs within the output queue bound.
pub proof fn law_bounds_hold<Ev, Er>(m: RuntimeModel<Ev, Er>)
    requires
        m.wf(),
    ensures
        m.config.global_max_in_flight matches Some(mx) ==> m.in_flight.len() <= mx,
        m.config.output_queue_capacity matches Some(c) ==> m.outputs.len() <= c,
{
}

/// Queued outputs are returned oldest first, one per poll.
pub proof fn law_oldest_output_first<Ev, Er>(m: RuntimeModel<Ev, Er>)
    requires
        m.wf(),
        !m.shutdown_emitted,
        m.outputs.len() > 0,
    ensures
        next_spec(m, NextEvent::Poll) == (RuntimeModel {
            outputs: m.outputs.drop_first(),
            admitted_in_poll: false,
            selected_in_poll: false,
            ..m
        }, NextAction::Ready(m.outputs[0])),
{
}

/// A completed work item leaves the in-flight set: its completion is
/// delivered once, and a repeated report of it is ignored.
pub proof fn law_completion_delivered_once<Ev, Er>(
    m: RuntimeModel<Ev, Er>,
    work: WorkId,
    result: Result<Ev, Er>,
)
    requires
        m.wf(),
        has_work(m.in_flight, work),
    ensures
        !has_work(complete_spec(m, work, result).0.in_flight, work),
        complete_spec(m, work, result).0.in_flight.len() + 1 == m.in_flight.len(),
        complete_spec(m, work, result).1 is Deliver,
{
    let n = complete_spec(m, work, result).0;
    let p = work_pos(m.in_flight, work);
    if has_work(n.in_flight, work) {
        let q = choose|q: int| 0 <= q < n.in_flight.len() && (#[trigger] n.in_flight[q]).work == work;
        if q < p {
            assert(n.in_flight[q] == m.in_flight[q]);
        } else {
            assert(n.in_flight[q] == m.in_flight[q + 1]);
        }
    }
}

/// Removing a generator leaves its in-flight work and the queued outputs
/// alone: the work continues to completion.
pub proof fn law_removed_generator_work_continues<Ev, Er>(m: RuntimeModel<Ev, Er>, id: GeneratorId)
    ensures
        remove_generator_spec(m, id).0.in_flight == m.in_flight,
        remove_generator_spec(m, id).0.outputs == m.outputs,
{
}

/// A triggered generator counts as ready: once triggered, it is selectable
/// whenever it is admissible, whatever it reports.
pub proof fn law_trigger_counts_as_ready<Ev, Er>(
    m: RuntimeModel<Ev, Er>,
    id: GeneratorId,
    ready: Seq<bool>,
)
    requires
        m.wf(),
        has_generator(m.generators, id),
        admissible(trigger_generator_spec(m, id).0, generator_pos(m.generators, id)),
    ensures
        trigger_generator_spec(m, id).1,
        selectable(trigger_generator_spec(m, id).0, ready, generator_pos(m.generators, id)),
{
}


/// Every control change other than a pause asks to wake a parked output, so
/// a parked poll resumes after it; pausing never does.
pub proof fn law_control_changes_wake<Ev, Er>(
    m: RuntimeModel<Ev, Er>,
    target: TargetId,
    generator: GeneratorId,
    limits: TargetLimits,
    config: GeneratorConfig,
)
    ensures
        add_target_spec(m, limits).1 is Some ==> add_target_spec(m, limits).0.wake,
        remove_target_spec(m, target).1 ==> remove_target_spec(m, target).0.wake,
        update_target_limits_spec(m, target, limits).1 ==> update_target_limits_spec(
            m,
            target,
            limits,
        ).0.wake,
        resume_target_spec(m, target).1 ==> resume_target_spec(m, target).0.wake,
        add_generator_spec(m, target, config).1 is Ok ==> add_generator_spec(
            m,
            target,
            config,
        ).0.wake,
        remove_generator_spec(m, generator).1 ==> remove_generator_spec(m, generator).0.wake,
        update_generator_spec(m, generator, config).1 ==> update_generator_spec(
            m,
            generator,
            config,
        ).0.wake,
        resume_generator_spec(m, generator).1 ==> resume_generator_spec(m, generator).0.wake,
        trigger_generator_spec(m, generator).1 ==> trigger_generator_spec(m, generator).0.wake,
        !m.shutdown_started ==> graceful_shutdown_spec(m).wake,
        pause_target_spec(m, target).0.wake == m.wake,
        pause_generator_spec(m, generator).0.wake == m.wake,
{
}

/// After graceful shutdown has started, every target and generator change
/// is rejected and changes nothing.
pub proof fn law_shutdown_rejects_changes<Ev, Er>(
    m: RuntimeModel<Ev, Er>,
    target: TargetId,
    generator: GeneratorId,
    limits: TargetLimits,
    config: GeneratorConfig,
)
    requires
        m.shutdown_started,
    ensures
        remove_target_spec(m, target) == (m, false),
        update_target_limits_spec(m, target, limits) == (m, false),
        pause_target_spec(m, target) == (m, false),
        resume_target_spec(m, target) == (m, false),
        remove_generator_spec(m, generator) == (m, false),
        update_generator_spec(m, generator, config) == (m, false),
        pause_generator_spec(m, generator) == (m, false),
        resume_generator_spec(m, generator) == (m, false),
{
}

proof fn lemma_step_blocked<Ev, Er>(m: RuntimeModel<Ev, Er>, event: NextEvent<Ev, Er>)
    requires
        !(event is Poll),
    ensures
        (m.admitted_in_poll || m.shutdown_started) ==> (next_spec(m, event).0.admitted_in_poll
            || next_spec(m, event).0.shutdown_started) && !(next_spec(m, event).1 is Spawn),
        next_spec(m, event).1 is Spawn ==> next_spec(m, event).0.admitted_in_poll,
        (m.selected_in_poll || m.shutdown_started) ==> (next_spec(m, event).0.selected_in_poll
            || next_spec(m, event).0.shutdown_started) && !(next_spec(m, event).1 is TakeNext),
        next_spec(m, event).1 is TakeNext ==> next_spec(m, event).0.selected_in_poll,
{
    match event {
        NextEvent::Readiness(ready) => {
            if m.shutdown_started {
                assert(!has_selectable(m, ready@));
                assert(!has_selectable(reset_round(m), ready@));
            }
        },
        _ => {},
    }
}

/// One poll hands `take_next` to at most one generator and admits at most
/// one work item: in a run of scheduling steps that starts no new poll, at
/// most one step returns `TakeNext` and at most one returns `Spawn`; none
/// does once a generator was selected (respectively an item admitted) in the
/// current poll, or once shutdown has started. A generator that declines is
/// therefore not asked again in the same poll.
pub proof fn law_one_selection_per_poll<Ev, Er>(
    m: RuntimeModel<Ev, Er>,
    events: Seq<NextEvent<Ev, Er>>,
)
    requires
        forall|i: int| 0 <= i < events.len() ==> !(#[trigger] events[i] is Poll),
    ensures
        take_next_count(run_events(m, events).1) <= 1,
        m.selected_in_poll || m.shutdown_started ==> take_next_count(run_events(m, events).1)
            == 0,
        spawn_count(run_events(m, events).1) <= 1,
        m.admitted_in_poll || m.shutdown_started ==> spawn_count(run_events(m, events).1) == 0,
    decreases events.len(),
{
    if events.len() > 0 {
        let (m1, a) = next_spec(m, events[0]);
        lemma_step_blocked(m, events[0]);
        let rest = events.drop_first();
        assert forall|i: int| 0 <= i < rest.len() implies !(#[trigger] rest[i] is Poll) by {
            assert(rest[i] == events[i + 1]);
        }
        law_one_selection_per_poll(m1, rest);
        let acts = run_events(m, events).1;
        let tail = run_events(m1, rest).1;
        assert(acts == seq![a] + tail);
        assert(acts[0] == a);
        assert(acts.drop_first() =~= tail);
    }
}

/// The registered classes are distinct: `class_stats` lists each class once.
pub proof fn law_class_stats_distinct<Ev, Er>(m: RuntimeModel<Ev, Er>)
    ensures
        class_list(m.generators).no_duplicates(),
        forall|i: int, j: int|
            0 <= i < class_stats_spec(m).len() && 0 <= j < class_stats_spec(m).len() && i != j
                ==> (#[trigger] class_stats_spec(m)[i]).class != (#[trigger] class_stats_spec(
                m,
            )[j]).class,
{
    lemma_class_list_distinct(m.generators);
}

proof fn lemma_class_list_distinct(gs: Seq<GeneratorEntry>)
    ensures
        class_list(gs).no_duplicates(),
    decreases gs.len(),
{
    if gs.len() > 0 {
        lemma_class_list_distinct(gs.drop_last());
        let rest = class_list(gs.drop_last());
        if let Some(c) = gs.last().config.class {
            if !rest.contains(c) {
                let l = rest.push(c);
                assert forall|i: int, j: int|
                    0 <= i < l.len() && 0 <= j < l.len() && i != j implies l[i] != l[j] by {
                    if i < rest.len() && j < rest.len() {
                    } else if i < rest.len() {
                        assert(rest.contains(rest[i]));
                    } else {
                        assert(rest.contains(rest[j]));
                    }
                }
            }
        }
    }
}

// ---------------------------------------------------------------------------
// Call sequences.

proof fn lemma_next_keeps_ids<Ev, Er>(m: RuntimeModel<Ev, Er>, event: NextEvent<Ev, Er>)
    ensures
        next_spec(m, event).0.next_target == m.next_target,
        next_spec(m, event).0.next_generator == m.next_generator,
        next_spec(m, event).0.generators.len() == m.generators.len(),
        forall|k: int|
            0 <= k < m.generators.len() ==> (#[trigger] next_spec(m, event).0.generators[k]).id
                == m.generators[k].id,
{
    match event {
        NextEvent::Readiness(ready) => {
            let r = reset_round(m);
            if m.admitted_in_poll || m.selected_in_poll {
            } else if has_selectable(m, ready@) {
                lemma_first_selectable_exists(m, ready@);
            } else if has_selectable(r, ready@) {
                lemma_first_selectable_exists(r, ready@);
            }
        },
        _ => {},
    }
}

proof fn lemma_apply_counters<Ev, Er>(m: RuntimeModel<Ev, Er>, op: Operation<Ev, Er>)
    requires
        call_allowed(m, op),
    ensures
        apply_operation(m, op).next_target == m.next_target + if added_target(m, op) is Some {
            1int
        } else {
            0int
        },
        apply_operation(m, op).next_generator == m.next_generator + if added_generator(
            m,
            op,
        ) is Some {
            1int
        } else {
            0int
        },
        added_target(m, op) matches Some(a) ==> a.0 == m.next_target,
        added_generator(m, op) matches Some(g) ==> g.0 == m.next_generator,
{
    match op {
        Operation::Next(ev) => lemma_next_keeps_ids(m, ev),
        _ => {},
    }
}

proof fn lemma_run_counters<Ev, Er>(m: RuntimeModel<Ev, Er>, ops: Seq<Operation<Ev, Er>>, k: nat)
    requires
        k <= ops.len(),
        run_allowed(m, ops),
    ensures
        m.next_target <= state_after(m, ops, k).next_target,
        m.next_generator <= state_after(m, ops, k).next_generator,
    decreases k,
{
    if k > 0 {
        lemma_run_counters(m, ops, (k - 1) as nat);
        assert(call_allowed(state_after(m, ops, (k - 1) as nat), ops[((k - 1) as nat) as int]));
        lemma_apply_counters(state_after(m, ops, (k - 1) as nat), ops[k - 1]);
    }
}

proof fn lemma_run_monotone<Ev, Er>(
    m: RuntimeModel<Ev, Er>,
    ops: Seq<Operation<Ev, Er>>,
    i: nat,
    j: nat,
)
    requires
        i <= j <= ops.len(),
        run_allowed(m, ops),
    ensures
        state_after(m, ops, i).next_target <= state_after(m, ops, j).next_target,
        state_after(m, ops, i).next_generator <= state_after(m, ops, j).next_generator,
    decreases j - i,
{
    if i < j {
        lemma_run_monotone(m, ops, i, (j - 1) as nat);
        lemma_run_counters(m, ops, (j - 1) as nat);
        assert(call_allowed(state_after(m, ops, (j - 1) as nat), ops[((j - 1) as nat) as int]));
        lemma_apply_counters(state_after(m, ops, (j - 1) as nat), ops[j - 1]);
    }
}

proof fn lemma_run_wf<Ev, Er>(m: RuntimeModel<Ev, Er>, ops: Seq<Operation<Ev, Er>>, k: nat)
    requires
        m.wf(),
        k <= ops.len(),
        run_allowed(m, ops),
    ensures
        state_after(m, ops, k).wf(),
    decreases k,
{
    if k > 0 {
        lemma_run_wf(m, ops, (k - 1) as nat);
        assert(call_allowed(state_after(m, ops, (k - 1) as nat), ops[((k - 1) as nat) as int]));
        lemma_apply_wf(state_after(m, ops, (k - 1) as nat), ops[k - 1]);
    }
}

/// Ids are never handed out twice: over any sequence of calls, a target id
/// handed out by `add_target` is not registered at the start and is handed
/// out by no other call of the sequence, and likewise for generator ids.
pub proof fn law_ids_never_reused<Ev, Er>(
    m: RuntimeModel<Ev, Er>,
    ops: Seq<Operation<Ev, Er>>,
    i: nat,
    j: nat,
)
    requires
        m.wf(),
        i < j < ops.len(),
        run_allowed(m, ops),
    ensures
        added_target(state_after(m, ops, i), ops[i as int]) matches Some(a) ==> !has_target(
            m.targets,
            a,
        ) && added_target(state_after(m, ops, j), ops[j as int]) != Some(a),
        added_generator(state_after(m, ops, i), ops[i as int]) matches Some(g) ==> !has_generator(
            m.generators,
            g,
        ) && added_generator(state_after(m, ops, j), ops[j as int]) != Some(g),
{
    let si = state_after(m, ops, i);
    let sj = state_after(m, ops, j);
    lemma_run_counters(m, ops, i);
    lemma_run_counters(m, ops, j);
    assert(call_allowed(si, ops[i as int]));
    assert(call_allowed(sj, ops[j as int]));
    lemma_apply_counters(si, ops[i as int]);
    lemma_apply_counters(sj, ops[j as int]);
    lemma_run_monotone(m, ops, i + 1, j);
    assert(state_after(m, ops, i + 1) == apply_operation(si, ops[i as int]));
    if let Some(a) = added_target(si, ops[i as int]) {
        if has_target(m.targets, a) {
            let k = choose|k: int| 0 <= k < m.targets.len() && (#[trigger] m.targets[k]).id == a;
            assert(m.targets[k].id.0 < m.next_target);
        }
    }
    if let Some(g) = added_generator(si, ops[i as int]) {
        if has_generator(m.generators, g) {
            let k = choose|k: int|
                0 <= k < m.generators.len() && (#[trigger] m.generators[k]).id == g;
            assert(m.generators[k].id.0 < m.next_generator);
        }
    }
}

/// Whether every generator id after a call was registered before it or is
/// the fresh id.
spec fn ids_within(before: Seq<GeneratorEntry>, after: Seq<GeneratorEntry>, fresh: u64) -> bool {
    forall|k: int|
        0 <= k < after.len() ==> (#[trigger] after[k]).id.0 == fresh || has_generator(
            before,
            after[k].id,
        )
}

proof fn lemma_apply_ids_within<Ev, Er>(m: RuntimeModel<Ev, Er>, op: Operation<Ev, Er>)
    requires
        m.wf(),
    ensures
        ids_within(m.generators, apply_operation(m, op).generators, m.next_generator),
{
    let after = apply_operation(m, op).generators;
    match op {
        Operation::RemoveTarget(t) => {
            lemma_detach_target(m.generators, t);
            if !m.shutdown_started && has_target(m.targets, t) {
                assert forall|k: int| 0 <= k < after.len() implies has_generator(
                    m.generators,
                    (#[trigger] after[k]).id,
                ) by {
                    let j = choose|j: int| 0 <= j < m.generators.len() && m.generators[j] == after[k];
                }
            } else {
                assert forall|k: int| 0 <= k < after.len() implies has_generator(
                    m.generators,
                    (#[trigger] after[k]).id,
                ) by {
                    assert(m.generators[k] == after[k]);
                }
            }
        },
        Operation::RemoveGenerator(g) => {
            let p = generator_pos(m.generators, g);
            assert forall|k: int| 0 <= k < after.len() implies has_generator(
                m.generators,
                (#[trigger] after[k]).id,
            ) by {
                if !m.shutdown_started && has_generator(m.generators, g) {
                    if k < p {
                        assert(after[k] == m.generators[k]);
                    } else {
                        assert(after[k] == m.generators[k + 1]);
                    }
                } else {
                    assert(after[k] == m.generators[k]);
                }
            }
        },
        Operation::AddGenerator(t, c) => {
            assert forall|k: int| 0 <= k < after.len() implies (#[trigger] after[k]).id.0
                == m.next_generator || has_generator(m.generators, after[k].id) by {
                if k < m.generators.len() {
                    assert(after[k] == m.generators[k]);
                }
            }
        },
        Operation::Next(ev) => {
            lemma_next_keeps_ids(m, ev);
            assert forall|k: int| 0 <= k < after.len() implies has_generator(
                m.generators,
                (#[trigger] after[k]).id,
            ) by {
                assert(m.generators[k].id == after[k].id);
            }
        },
        _ => {
            assert(after.len() == m.generators.len());
            assert forall|k: int| 0 <= k < after.len() implies has_generator(
                m.generators,
                (#[trigger] after[k]).id,
            ) by {
                assert(m.generators[k].id == after[k].id);
            }
        },
    }
}

proof fn lemma_stays_absent<Ev, Er>(
    m: RuntimeModel<Ev, Er>,
    ops: Seq<Operation<Ev, Er>>,
    g: GeneratorId,
    i: nat,
    j: nat,
)
    requires
        m.wf(),
        i <= j <= ops.len(),
        run_allowed(m, ops),
        !has_generator(state_after(m, ops, i).generators, g),
        g.0 < state_after(m, ops, i).next_generator,
    ensures
        !has_generator(state_after(m, ops, j).generators, g),
        g.0 < state_after(m, ops, j).next_generator,
    decreases j - i,
{
    if i < j {
        lemma_stays_absent(m, ops, g, i, (j - 1) as nat);
        let s = state_after(m, ops, (j - 1) as nat);
        lemma_run_wf(m, ops, (j - 1) as nat);
        lemma_run_counters(m, ops, (j - 1) as nat);
        lemma_apply_counters(s, ops[j - 1]);
        lemma_apply_ids_within(s, ops[j - 1]);
        let after = state_after(m, ops, j).generators;
        if has_generator(after, g) {
            let k = choose|k: int| 0 <= k < after.len() && (#[trigger] after[k]).id == g;
            assert(after[k].id.0 == s.next_generator || has_generator(s.generators, after[k].id));
        }
    }
}

/// A removed generator stays removed: over any sequence of calls after a
/// successful `remove_generator(g)`, `g` is never registered again and no
/// scheduling step asks for `take_next` on it.
pub proof fn law_removed_generator_stays_removed<Ev, Er>(
    m: RuntimeModel<Ev, Er>,
    ops: Seq<Operation<Ev, Er>>,
    g: GeneratorId,
    i: nat,
    j: nat,
)
    requires
        m.wf(),
        i < j <= ops.len(),
        run_allowed(m, ops),
        ops[i as int] == Operation::<Ev, Er>::RemoveGenerator(g),
        remove_generator_spec(state_after(m, ops, i), g).1,
    ensures
        !has_generator(state_after(m, ops, j).generators, g),
        j < ops.len() ==> (ops[j as int] matches Operation::Next(ev) ==> next_spec(
            state_after(m, ops, j),
            ev,
        ).1 != NextAction::<Ev, Er>::TakeNext(g)),
{
    let s = state_after(m, ops, i);
    lemma_run_wf(m, ops, i);
    let p = generator_pos(s.generators, g);
    let after = state_after(m, ops, i + 1).generators;
    assert(after == s.generators.remove(p));
    if has_generator(after, g) {
        let k = choose|k: int| 0 <= k < after.len() && (#[trigger] after[k]).id == g;
        if k < p {
            assert(after[k] == s.generators[k]);
        } else {
            assert(after[k] == s.generators[k + 1]);
        }
    }
    assert(s.generators[p].id.0 < s.next_generator);
    lemma_run_monotone(m, ops, i, i + 1);
    lemma_stays_absent(m, ops, g, i + 1, j);
    if j < ops.len() {
        if let Operation::Next(ev) = ops[j as int] {
            let sj = state_after(m, ops, j);
            lemma_run_wf(m, ops, j);
            lemma_take_next_registered(sj, ev);
        }
    }
}

proof fn lemma_take_next_registered<Ev, Er>(m: RuntimeModel<Ev, Er>, event: NextEvent<Ev, Er>)
    requires
        m.wf(),
    ensures
        next_spec(m, event).1 matches NextAction::TakeNext(g) ==> has_generator(m.generators, g),
{
    if let NextEvent::Readiness(ready) = event {
        law_selection_respects_pauses(m, ready@);
        if let NextAction::TakeNext(g) = next_spec(m, event).1 {
            let i = choose|i: int|
                0 <= i < m.generators.len() && (#[trigger] m.generators[i]).id == g
                    && !m.generators[i].paused && has_target(m.targets, m.generators[i].target)
                    && !m.targets[target_pos(m.targets, m.generators[i].target)].paused && (
                reported_ready(ready@, i) || m.generators[i].triggered);
        }
    }
}


// ---------------------------------------------------------------------------
// One poll of the output future.

/// Whether event `e` is the report that action `a` asks the driver for.
/// `Ready`, `Deliver`, `Yield` and `Park` end the poll and ask for none.
pub open spec fn answers<Ev, Er>(a: NextAction<Ev, Er>, e: NextEvent<Ev, Er>) -> bool {
    match a {
        NextAction::PollInFlight => e is Completed || e is NoneCompleted,
        NextAction::QueryReadiness => e is Readiness,
        NextAction::TakeNext(g) => e matches NextEvent::Taken { generator, .. } && generator == g,
        NextAction::Spawn(_) => e is Spawned,
        NextAction::Discard => e is NoneCompleted,
        _ => false,
    }
}

/// Whether action `a` asks the driver for a report; the other actions end
/// the poll.
pub open spec fn asks_report<Ev, Er>(a: NextAction<Ev, Er>) -> bool {
    a is PollInFlight || a is QueryReadiness || a is TakeNext || a is Spawn || a is Discard
}

/// Whether the `i`-th action of `actions` is answered by the next event.
pub open spec fn answered_at<Ev, Er>(
    actions: Seq<NextAction<Ev, Er>>,
    events: Seq<NextEvent<Ev, Er>>,
    i: int,
) -> bool {
    answers(actions[i], events[i + 1])
}

/// Whether `events`, from state `m`, is (a prefix of) one poll of the output
/// future as the driver runs it: a `Poll`, then for every action the report
/// it asks for.
pub open spec fn poll_run<Ev, Er>(m: RuntimeModel<Ev, Er>, events: Seq<NextEvent<Ev, Er>>) -> bool {
    &&& events.len() > 0
    &&& events[0] is Poll
    &&& forall|i: int| 0 <= i < events.len() - 1 ==> #[trigger] answered_at(run_events(m, events).1, events, i)
}

/// How many more report-asking actions the poll can produce after action
/// `a` in state `m`.
spec fn requests_left<Ev, Er>(m: RuntimeModel<Ev, Er>, a: NextAction<Ev, Er>) -> nat {
    match a {
        NextAction::PollInFlight => if m.admitted_in_poll {
            0
        } else {
            4
        },
        NextAction::QueryReadiness => 3,
        NextAction::TakeNext(_) => 2,
        NextAction::Spawn(_) => 1,
        _ => 0,
    }
}

/// What holds of the state after a report-asking action inside a poll.
spec fn inside_poll<Ev, Er>(m: RuntimeModel<Ev, Er>, a: NextAction<Ev, Er>) -> bool {
    match a {
        NextAction::TakeNext(_) => m.selected_in_poll,
        NextAction::Spawn(_) => m.admitted_in_poll,
        NextAction::Discard => m.selected_in_poll || m.admitted_in_poll,
        _ => true,
    }
}

/// A report moves the poll forward: the next action ends the poll or asks
/// for fewer further reports.
proof fn lemma_poll_step<Ev, Er>(
    m: RuntimeModel<Ev, Er>,
    a: NextAction<Ev, Er>,
    e: NextEvent<Ev, Er>,
    a1: NextAction<Ev, Er>,
)
    requires
        inside_poll(m, a),
        answers(a, e),
        asks_report(a1),
        a1 == next_spec(m, e).1,
    ensures
        inside_poll(next_spec(m, e).0, a1),
        requests_left(next_spec(m, e).0, a1) < requests_left(m, a),
{
    match e {
        NextEvent::Readiness(ready) => {
            if has_selectable(m, ready@) {
                lemma_first_selectable_exists(m, ready@);
            } else if has_selectable(reset_round(m), ready@) {
                lemma_first_selectable_exists(reset_round(m), ready@);
            }
        },
        _ => {},
    }
}

/// A poll ends: run by the driver, one poll of the output future takes at
/// most six scheduling steps (the `Poll` and at most five reports) before an
/// action that ends it. Within it, at most one generator is asked for
/// `take_next`, at most one work item is admitted, and only the last action
/// can deliver a completion.
pub proof fn law_poll_ends<Ev, Er>(m: RuntimeModel<Ev, Er>, events: Seq<NextEvent<Ev, Er>>)
    requires
        poll_run(m, events),
    ensures
        events.len() <= 6,
        take_next_count(run_events(m, events).1) <= 1,
        spawn_count(run_events(m, events).1) <= 1,
        forall|i: int|
            0 <= i < events.len() - 1 ==> !(#[trigger] run_events(m, events).1[i] is Deliver),
{
    let (m1, a1) = next_spec(m, events[0]);
    let rest = events.drop_first();
    let acts = run_events(m, events).1;
    let tail = run_events(m1, rest).1;
    assert(acts == seq![a1] + tail);
    lemma_run_events_len(m1, rest);
    assert forall|i: int| 0 <= i < rest.len() implies !(#[trigger] rest[i] is Poll) by {
        assert(answered_at(acts, events, i));
        assert(rest[i] == events[i + 1]);
    }
    law_one_selection_per_poll(m1, rest);
    assert(acts.drop_first() =~= tail);
    assert(!(a1 is TakeNext) && !(a1 is Spawn));
    assert forall|i: int| 0 <= i < events.len() - 1 implies !(#[trigger] acts[i] is Deliver) by {
        assert(answered_at(acts, events, i));
    }
    if events.len() > 1 {
        assert(answered_at(acts, events, 0));
        assert forall|i: int| 0 <= i < rest.len() - 1 implies #[trigger] answered_at(tail, rest, i) by {
            assert(answered_at(acts, events, i + 1));
            assert(acts[i + 1] == tail[i]);
            assert(rest[i + 1] == events[i + 2]);
        }
        lemma_poll_rest(m1, a1, rest);
    }
}

proof fn lemma_run_events_len<Ev, Er>(m: RuntimeModel<Ev, Er>, events: Seq<NextEvent<Ev, Er>>)
    ensures
        run_events(m, events).1.len() == events.len(),
    decreases events.len(),
{
    if events.len() > 0 {
        lemma_run_events_len(next_spec(m, events[0]).0, events.drop_first());
    }
}

/// After action `a` in state `m`, a run of reports that each answer the
/// action before has at most one more event than the requests left.
proof fn lemma_poll_rest<Ev, Er>(m: RuntimeModel<Ev, Er>, a: NextAction<Ev, Er>, events: Seq<NextEvent<Ev, Er>>)
    requires
        inside_poll(m, a),
        events.len() > 0,
        answers(a, events[0]),
        forall|i: int| 0 <= i < events.len() - 1 ==> #[trigger] answered_at(run_events(m, events).1, events, i),
    ensures
        events.len() <= requests_left(m, a) + 1,
    decreases events.len(),
{
    if events.len() > 1 {
        let (m1, a1) = next_spec(m, events[0]);
        let rest = events.drop_first();
        let acts = run_events(m, events).1;
        let tail = run_events(m1, rest).1;
        assert(acts == seq![a1] + tail);
        lemma_run_events_len(m1, rest);
        assert(answered_at(acts, events, 0));
        assert(acts[0] == a1);
        lemma_poll_step(m, a, events[0], a1);
        assert forall|i: int| 0 <= i < rest.len() - 1 implies #[trigger] answered_at(tail, rest, i) by {
            assert(answered_at(acts, events, i + 1));
            assert(acts[i + 1] == tail[i]);
            assert(rest[i + 1] == events[i + 2]);
        }
        lemma_poll_rest(m1, a1, rest);
    }
}


// ---------------------------------------------------------------------------
// Draining after shutdown.

/// Whether `events`, from state `m` after action `last`, is run by a driver
/// that polls the output future again and again and whose in-flight work
/// completes when asked: after an action that ends a poll comes a `Poll`,
/// a `PollInFlight` is answered by the completion of a work item in flight,
/// and every other request by its report.
pub open spec fn driven_run<Ev, Er>(
    m: RuntimeModel<Ev, Er>,
    last: NextAction<Ev, Er>,
    events: Seq<NextEvent<Ev, Er>>,
) -> bool
    decreases events.len(),
{
    if events.len() == 0 {
        true
    } else {
        let e = events[0];
        &&& if last is PollInFlight {
            e matches NextEvent::Completed { work, .. } && has_work(m.in_flight, work)
        } else if asks_report(last) {
            answers(last, e)
        } else {
            e is Poll
        }
        &&& driven_run(next_spec(m, e).0, next_spec(m, e).1, events.drop_first())
    }
}

/// The action that draining returns at step `j` (shifted by one when the
/// run starts after a `PollInFlight`), given the queued outputs and the
/// number of in-flight items when the run starts: each queued output in
/// order, then for each in-flight item a `PollInFlight` and a `Deliver`,
/// then the shutdown output.
pub open spec fn drain_step<Ev, Er>(
    a: NextAction<Ev, Er>,
    j: int,
    outputs: Seq<RuntimeOutput<Ev, Er>>,
    in_flight: nat,
    mid: bool,
) -> bool {
    let p = if mid {
        j + 1
    } else {
        j
    };
    if p < outputs.len() {
        a == NextAction::<Ev, Er>::Ready(outputs[p])
    } else if p < outputs.len() + 2 * in_flight {
        if (p - outputs.len()) % 2 == 0 {
            a is PollInFlight
        } else {
            a is Deliver
        }
    } else if p == outputs.len() + 2 * in_flight {
        a == NextAction::<Ev, Er>::Ready(RuntimeOutput::Shutdown)
    } else {
        true
    }
}

proof fn lemma_drain<Ev, Er>(
    m: RuntimeModel<Ev, Er>,
    last: NextAction<Ev, Er>,
    events: Seq<NextEvent<Ev, Er>>,
)
    requires
        m.shutdown_started,
        !m.shutdown_emitted,
        !asks_report(last) || (last is PollInFlight && m.outputs.len() == 0 && m.in_flight.len()
            > 0),
        driven_run(m, last, events),
    ensures
        forall|j: int|
            0 <= j < events.len() ==> #[trigger] drain_step(
                run_events(m, events).1[j],
                j,
                m.outputs,
                m.in_flight.len(),
                last is PollInFlight,
            ),
    decreases events.len(),
{
    if events.len() > 0 {
        let e = events[0];
        let (m1, a1) = next_spec(m, e);
        let rest = events.drop_first();
        let acts = run_events(m, events).1;
        let tail = run_events(m1, rest).1;
        assert(acts == seq![a1] + tail);
        lemma_run_events_len(m1, rest);
        let o = m.outputs.len();
        let f = m.in_flight.len();
        if last is PollInFlight {
            if let NextEvent::Completed { work, result } = e {
                let p = work_pos(m.in_flight, work);
                assert(m1.in_flight == m.in_flight.remove(p));
                assert(m1.outputs.len() == 0);
                assert(a1 is Deliver);
                assert(m1.shutdown_started && !m1.shutdown_emitted);
                assert(driven_run(m1, a1, rest));
                lemma_drain(m1, a1, rest);
                assert(m1.in_flight.len() + 1 == f);
                assert forall|j: int| 0 <= j < events.len() implies #[trigger] drain_step(
                    acts[j],
                    j,
                    m.outputs,
                    f,
                    true,
                ) by {
                    if j > 0 {
                        assert(acts[j] == tail[j - 1]);
                        assert(drain_step(tail[j - 1], j - 1, m1.outputs, m1.in_flight.len(), false));
                    }
                }
            }
        } else if o > 0 {
            assert(a1 == NextAction::<Ev, Er>::Ready(m.outputs[0]));
            assert(m1.outputs == m.outputs.drop_first());
            lemma_drain(m1, a1, rest);
            assert forall|j: int| 0 <= j < events.len() implies #[trigger] drain_step(
                acts[j],
                j,
                m.outputs,
                f,
                false,
            ) by {
                if j > 0 {
                    assert(acts[j] == tail[j - 1]);
                    assert(drain_step(tail[j - 1], j - 1, m1.outputs, m1.in_flight.len(), false));
                    if j < o {
                        assert(m1.outputs[j - 1] == m.outputs[j]);
                    }
                }
            }
        } else if f > 0 {
            assert(a1 is PollInFlight);
            lemma_drain(m1, a1, rest);
            assert forall|j: int| 0 <= j < events.len() implies #[trigger] drain_step(
                acts[j],
                j,
                m.outputs,
                f,
                false,
            ) by {
                if j > 0 {
                    assert(acts[j] == tail[j - 1]);
                    assert(drain_step(tail[j - 1], j - 1, m1.outputs, m1.in_flight.len(), true));
                }
            }
        } else {
            assert(a1 == NextAction::<Ev, Er>::Ready(RuntimeOutput::Shutdown));
            assert(drain_step(acts[0], 0, m.outputs, f, false));
        }
    }
}

/// Shutdown is eventually emitted: after graceful shutdown, when the driver
/// polls the output future again and again and every in-flight item
/// completes when asked, the polls return each queued output in order, then
/// each in-flight item's completion (a `PollInFlight` and a `Deliver` each),
/// and then the shutdown output.
pub proof fn law_shutdown_emitted<Ev, Er>(
    m: RuntimeModel<Ev, Er>,
    last: NextAction<Ev, Er>,
    events: Seq<NextEvent<Ev, Er>>,
)
    requires
        m.shutdown_started,
        !m.shutdown_emitted,
        !asks_report(last),
        driven_run(m, last, events),
    ensures
        forall|j: int|
            0 <= j < events.len() ==> #[trigger] drain_step(
                run_events(m, events).1[j],
                j,
                m.outputs,
                m.in_flight.len(),
                false,
            ),
        events.len() > m.outputs.len() + 2 * m.in_flight.len() ==> run_events(m, events).1[(m.outputs.len()
            + 2 * m.in_flight.len()) as int] == NextAction::<Ev, Er>::Ready(RuntimeOutput::Shutdown),
{
    lemma_drain(m, last, events);
    let n = m.outputs.len() + 2 * m.in_flight.len();
    if events.len() > n {
        assert(drain_step(run_events(m, events).1[n as int], n as int, m.outputs, m.in_flight.len(), false));
    }
}


// ---------------------------------------------------------------------------
// What single control operations change.

/// A successful `update_target_limits(id, limits)` gives target `id` exactly
/// the new `limits` (both its in-flight bound and its cost budget) and
/// changes nothing else: the target keeps its id, pause state and round
/// cost, every other target, every generator and all work stay as they were.
/// The call succeeds exactly when shutdown has not started and `id` is
/// registered.
pub proof fn law_update_target_limits_replaces_limits<Ev, Er>(
    m: RuntimeModel<Ev, Er>,
    id: TargetId,
    limits: TargetLimits,
)
    requires
        m.wf(),
    ensures
        update_target_limits_spec(m, id, limits).1 <==> !m.shutdown_started && has_target(
            m.targets,
            id,
        ),
        update_target_limits_spec(m, id, limits).1 ==> ({
            let n = update_target_limits_spec(m, id, limits).0;
            let p = target_pos(m.targets, id);
            &&& n.targets.len() == m.targets.len()
            &&& has_target(n.targets, id)
            &&& target_pos(n.targets, id) == p
            &&& n.targets[p].limits == limits
            &&& n.targets[p].limits.max_in_flight == limits.max_in_flight
            &&& n.targets[p].limits.max_cost_per_round == limits.max_cost_per_round
            &&& n.targets[p].id == id
            &&& n.targets[p].paused == m.targets[p].paused
            &&& n.targets[p].round_cost == m.targets[p].round_cost
            &&& forall|k: int| 0 <= k < m.targets.len() && k != p ==> n.targets[k] == m.targets[k]
            &&& n.generators == m.generators
            &&& n.in_flight == m.in_flight
            &&& n.outputs == m.outputs
        }),
{
    if update_target_limits_spec(m, id, limits).1 {
        let n = update_target_limits_spec(m, id, limits).0;
        let p = target_pos(m.targets, id);
        assert(n.targets[p].id == id);
        let q = target_pos(n.targets, id);
        assert(n.targets[q].id == id);
        if q != p {
            assert(m.targets[q].id == n.targets[q].id);
        }
    }
}

/// A successful `update_generator(id, config)` gives generator `id` exactly
/// the new `config` (both its class and its weight) and changes nothing
/// else: the generator keeps its id, target, pause and trigger state and
/// round picks, and every other generator, every target and all work stay
/// as they were. The call succeeds exactly when shutdown has not started
/// and `id` is registered.
pub proof fn law_update_generator_replaces_config<Ev, Er>(
    m: RuntimeModel<Ev, Er>,
    id: GeneratorId,
    config: GeneratorConfig,
)
    requires
        m.wf(),
    ensures
        update_generator_spec(m, id, config).1 <==> !m.shutdown_started && has_generator(
            m.generators,
            id,
        ),
        update_generator_spec(m, id, config).1 ==> ({
            let n = update_generator_spec(m, id, config).0;
            let p = generator_pos(m.generators, id);
            &&& n.generators.len() == m.generators.len()
            &&& has_generator(n.generators, id)
            &&& generator_pos(n.generators, id) == p
            &&& n.generators[p].config == config
            &&& n.generators[p].config.class == config.class
            &&& n.generators[p].config.weight == config.weight
            &&& n.generators[p].id == id
            &&& n.generators[p].target == m.generators[p].target
            &&& n.generators[p].paused == m.generators[p].paused
            &&& n.generators[p].triggered == m.generators[p].triggered
            &&& n.generators[p].round_picks == m.generators[p].round_picks
            &&& forall|k: int|
                0 <= k < m.generators.len() && k != p ==> n.generators[k] == m.generators[k]
            &&& n.targets == m.targets
            &&& n.in_flight == m.in_flight
            &&& n.outputs == m.outputs
        }),
{
    if update_generator_spec(m, id, config).1 {
        let n = update_generator_spec(m, id, config).0;
        let p = generator_pos(m.generators, id);
        assert(n.generators[p].id == id);
        let q = generator_pos(n.generators, id);
        assert(n.generators[q].id == id);
        if q != p {
            assert(m.generators[q].id == n.generators[q].id);
        }
    }
}

/// A successful `resume_generator(id)` leaves generator `id` unpaused and
/// changes nothing else about it or the other generators; it succeeds
/// exactly when shutdown has not started and `id` is registered. Pausing a
/// running generator and resuming it gives back the state it had, up to the
/// wake request, so the generator is selectable again exactly when it was.
pub proof fn law_resume_generator_unpauses<Ev, Er>(
    m: RuntimeModel<Ev, Er>,
    id: GeneratorId,
    ready: Seq<bool>,
)
    requires
        m.wf(),
    ensures
        resume_generator_spec(m, id).1 <==> !m.shutdown_started && has_generator(m.generators, id),
        resume_generator_spec(m, id).1 ==> ({
            let n = resume_generator_spec(m, id).0;
            let p = generator_pos(m.generators, id);
            &&& n.generators.len() == m.generators.len()
            &&& n.generators[p].id == id
            &&& !n.generators[p].paused
            &&& n.generators[p].config == m.generators[p].config
            &&& n.generators[p].target == m.generators[p].target
            &&& n.generators[p].triggered == m.generators[p].triggered
            &&& n.generators[p].round_picks == m.generators[p].round_picks
            &&& forall|k: int|
                0 <= k < m.generators.len() && k != p ==> n.generators[k] == m.generators[k]
            &&& n.targets == m.targets
            &&& n.in_flight == m.in_flight
        }),
        !m.shutdown_started && has_generator(m.generators, id) && !m.generators[generator_pos(
            m.generators,
            id,
        )].paused ==> ({
            let n = resume_generator_spec(pause_generator_spec(m, id).0, id).0;
            &&& n == RuntimeModel { wake: true, ..m }
            &&& forall|i: int| #[trigger] selectable(n, ready, i) == selectable(m, ready, i)
        }),
{
    if !m.shutdown_started && has_generator(m.generators, id) {
        let p = generator_pos(m.generators, id);
        let m1 = pause_generator_spec(m, id).0;
        assert(m1.generators[p].id == id);
        let q = generator_pos(m1.generators, id);
        assert(m1.generators[q].id == id);
        if q != p {
            assert(m.generators[q].id == m1.generators[q].id);
        }
        if !m.generators[p].paused {
            let n = resume_generator_spec(m1, id).0;
            assert(n.generators =~= m.generators);
            assert(n =~= RuntimeModel { wake: true, ..m });
        }
    }
}

/// A completion of in-flight work asks for `on_complete` on the generator
/// that the work was admitted for exactly when that generator is still
/// registered, whether it is paused or not, and hands back the work's output
/// with its own id, target, generator and result when nothing else is
/// queued. Pausing a generator does not change what a completion delivers.
pub proof fn law_completion_notifies_registered_generator<Ev, Er>(
    m: RuntimeModel<Ev, Er>,
    work: WorkId,
    result: Result<Ev, Er>,
    g: GeneratorId,
)
    requires
        m.wf(),
        has_work(m.in_flight, work),
    ensures
        ({
            let rec = m.in_flight[work_pos(m.in_flight, work)];
            let a = complete_spec(m, work, result).1;
            &&& rec.work == work
            &&& a matches NextAction::Deliver { notify, output } && (has_generator(
                m.generators,
                rec.generator,
            ) ==> notify == Some(rec.generator)) && (!has_generator(m.generators, rec.generator)
                ==> notify is None) && (m.outputs.len() == 0 ==> output == RuntimeOutput::<
                Ev,
                Er,
            >::Work { work, target: rec.target, generator: rec.generator, result })
        }),
        complete_spec(pause_generator_spec(m, g).0, work, result).1 == complete_spec(
            m,
            work,
            result,
        ).1,
{
    let m1 = pause_generator_spec(m, g).0;
    let rec = m.in_flight[work_pos(m.in_flight, work)];
    if !m.shutdown_started && has_generator(m.generators, g) {
        let p = generator_pos(m.generators, g);
        assert(has_generator(m1.generators, rec.generator) == has_generator(
            m.generators,
            rec.generator,
        )) by {
            if has_generator(m.generators, rec.generator) {
                let k = choose|k: int|
                    0 <= k < m.generators.len() && (#[trigger] m.generators[k]).id == rec.generator;
                assert(m1.generators[k].id == rec.generator);
            }
            if has_generator(m1.generators, rec.generator) {
                let k = choose|k: int|
                    0 <= k < m1.generators.len() && (#[trigger] m1.generators[k]).id
                        == rec.generator;
                assert(m.generators[k].id == rec.generator);
            }
        }
    }
}

/// Per-class statistics depend only on the classes of the registered
/// generators, in order, and on the work in flight: two states whose
/// generators have the same classes and whose in-flight work is the same
/// have the same statistics. So pausing, resuming or triggering a generator
/// never changes them, and a class counts every registered generator of it.
pub proof fn law_class_stats_depend_on_classes<Ev, Er>(
    m1: RuntimeModel<Ev, Er>,
    m2: RuntimeModel<Ev, Er>,
    id: GeneratorId,
)
    requires
        m1.generators.len() == m2.generators.len(),
        forall|k: int|
            0 <= k < m1.generators.len() ==> (#[trigger] m1.generators[k]).config.class
                == m2.generators[k].config.class,
        m1.in_flight == m2.in_flight,
    ensures
        class_stats_spec(m1) == class_stats_spec(m2),
        class_stats_spec(pause_generator_spec(m1, id).0) == class_stats_spec(m1),
        class_stats_spec(resume_generator_spec(m1, id).0) == class_stats_spec(m1),
        class_stats_spec(trigger_generator_spec(m1, id).0) == class_stats_spec(m1),
        forall|c: ClassId|
            #[trigger] class_generators(m1.generators, c) == class_generators(m2.generators, c),
{
    lemma_same_classes(m1.generators, m2.generators);
    assert(class_stats_spec(m1) =~= class_stats_spec(m2));
    let a = pause_generator_spec(m1, id).0;
    let b = resume_generator_spec(m1, id).0;
    let t = trigger_generator_spec(m1, id).0;
    lemma_same_classes(a.generators, m1.generators);
    lemma_same_classes(b.generators, m1.generators);
    lemma_same_classes(t.generators, m1.generators);
    assert(class_stats_spec(a) =~= class_stats_spec(m1));
    assert(class_stats_spec(b) =~= class_stats_spec(m1));
    assert(class_stats_spec(t) =~= class_stats_spec(m1));
}

proof fn lemma_same_classes(g1: Seq<GeneratorEntry>, g2: Seq<GeneratorEntry>)
    requires
        g1.len() == g2.len(),
        forall|k: int| 0 <= k < g1.len() ==> (#[trigger] g1[k]).config.class == g2[k].config.class,
    ensures
        class_list(g1) == class_list(g2),
        forall|c: ClassId| #[trigger] class_generators(g1, c) == class_generators(g2, c),
    decreases g1.len(),
{
    if g1.len() > 0 {
        let r1 = g1.drop_last();
        let r2 = g2.drop_last();
        assert forall|k: int| 0 <= k < r1.len() implies (#[trigger] r1[k]).config.class
            == r2[k].config.class by {
            assert(r1[k] == g1[k] && r2[k] == g2[k]);
        }
        lemma_same_classes(r1, r2);
        assert(g1.last().config.class == g2.last().config.class);
        assert forall|c: ClassId| #[trigger] class_generators(g1, c) == class_generators(g2, c) by {
            assert(class_generators(r1, c) == class_generators(r2, c));
        }
    }
}


/// A successful `add_target(limits)` appends one target, unpaused, with
/// exactly `limits` and nothing spent in the round, under the returned id;
/// the targets before it, the generators and all work stay as they were.
pub proof fn law_add_target_appends<Ev, Er>(m: RuntimeModel<Ev, Er>, limits: TargetLimits)
    ensures
        add_target_spec(m, limits).1 is Some <==> !m.shutdown_started,
        add_target_spec(m, limits).1 matches Some(id) ==> ({
            let n = add_target_spec(m, limits).0;
            &&& n.targets.len() == m.targets.len() + 1
            &&& n.targets.last().id == id
            &&& n.targets.last().limits == limits
            &&& !n.targets.last().paused
            &&& n.targets.last().round_cost == 0
            &&& forall|k: int| 0 <= k < m.targets.len() ==> n.targets[k] == m.targets[k]
            &&& n.generators == m.generators
            &&& n.in_flight == m.in_flight
            &&& n.outputs == m.outputs
        }),
{
}

/// A successful `add_generator(target, config)` appends one generator under
/// the returned id, attached to `target`, with exactly `config`, unpaused,
/// untriggered and with no picks in the round; the generators before it,
/// the targets and all work stay as they were.
pub proof fn law_add_generator_appends<Ev, Er>(
    m: RuntimeModel<Ev, Er>,
    target: TargetId,
    config: GeneratorConfig,
)
    ensures
        add_generator_spec(m, target, config).1 is Ok <==> !m.shutdown_started && has_target(
            m.targets,
            target,
        ),
        add_generator_spec(m, target, config).1 matches Ok(id) ==> ({
            let n = add_generator_spec(m, target, config).0;
            &&& n.generators.len() == m.generators.len() + 1
            &&& n.generators.last().id == id
            &&& n.generators.last().target == target
            &&& n.generators.last().config == config
            &&& !n.generators.last().paused
            &&& !n.generators.last().triggered
            &&& n.generators.last().round_picks == 0
            &&& forall|k: int| 0 <= k < m.generators.len() ==> n.generators[k] == m.generators[k]
            &&& n.targets == m.targets
            &&& n.in_flight == m.in_flight
            &&& n.outputs == m.outputs
        }),
{
}

/// Pausing or resuming a target sets exactly its pause state and changes
/// nothing else; each succeeds exactly when shutdown has not started and the
/// target is registered.
pub proof fn law_pause_resume_target<Ev, Er>(m: RuntimeModel<Ev, Er>, id: TargetId)
    ensures
        pause_target_spec(m, id).1 <==> !m.shutdown_started && has_target(m.targets, id),
        resume_target_spec(m, id).1 <==> !m.shutdown_started && has_target(m.targets, id),
        pause_target_spec(m, id).1 ==> ({
            let p = target_pos(m.targets, id);
            let a = pause_target_spec(m, id).0;
            let b = resume_target_spec(m, id).0;
            &&& a.targets.len() == m.targets.len() && b.targets.len() == m.targets.len()
            &&& a.targets[p].paused && !b.targets[p].paused
            &&& a.targets[p].id == id && b.targets[p].id == id
            &&& a.targets[p].limits == m.targets[p].limits && b.targets[p].limits
                == m.targets[p].limits
            &&& a.targets[p].round_cost == m.targets[p].round_cost && b.targets[p].round_cost
                == m.targets[p].round_cost
            &&& forall|k: int|
                0 <= k < m.targets.len() && k != p ==> a.targets[k] == m.targets[k]
                    && b.targets[k] == m.targets[k]
            &&& a.generators == m.generators && b.generators == m.generators
            &&& a.in_flight == m.in_flight && b.in_flight == m.in_flight
        }),
{
}

/// Pausing or triggering a generator sets exactly that flag and changes
/// nothing else. Pausing succeeds exactly when shutdown has not started and
/// the generator is registered; triggering whenever it is registered.
pub proof fn law_pause_trigger_generator<Ev, Er>(m: RuntimeModel<Ev, Er>, id: GeneratorId)
    ensures
        pause_generator_spec(m, id).1 <==> !m.shutdown_started && has_generator(m.generators, id),
        trigger_generator_spec(m, id).1 <==> has_generator(m.generators, id),
        pause_generator_spec(m, id).1 ==> ({
            let p = generator_pos(m.generators, id);
            let a = pause_generator_spec(m, id).0;
            &&& a.generators.len() == m.generators.len()
            &&& a.generators[p].paused
            &&& a.generators[p] == GeneratorEntry { paused: true, ..m.generators[p] }
            &&& forall|k: int|
                0 <= k < m.generators.len() && k != p ==> a.generators[k] == m.generators[k]
            &&& a.targets == m.targets && a.in_flight == m.in_flight
        }),
        trigger_generator_spec(m, id).1 ==> ({
            let p = generator_pos(m.generators, id);
            let a = trigger_generator_spec(m, id).0;
            &&& a.generators.len() == m.generators.len()
            &&& a.generators[p].triggered
            &&& a.generators[p] == GeneratorEntry { triggered: true, ..m.generators[p] }
            &&& forall|k: int|
                0 <= k < m.generators.len() && k != p ==> a.generators[k] == m.generators[k]
            &&& a.targets == m.targets && a.in_flight == m.in_flight
        }),
{
}

/// A successful `remove_generator(id)` removes exactly generator `id`: it is
/// no longer registered, every other generator stays, in order, and the
/// targets and all work stay as they were.
pub proof fn law_remove_generator_removes_one<Ev, Er>(m: RuntimeModel<Ev, Er>, id: GeneratorId)
    requires
        m.wf(),
    ensures
        remove_generator_spec(m, id).1 <==> !m.shutdown_started && has_generator(m.generators, id),
        remove_generator_spec(m, id).1 ==> ({
            let n = remove_generator_spec(m, id).0;
            &&& n.generators.len() + 1 == m.generators.len()
            &&& !has_generator(n.generators, id)
            &&& forall|k: int|
                0 <= k < m.generators.len() && m.generators[k].id != id ==> n.generators.contains(
                    #[trigger] m.generators[k],
                )
            &&& n.targets == m.targets
            &&& n.in_flight == m.in_flight
        }),
{
    if remove_generator_spec(m, id).1 {
        let n = remove_generator_spec(m, id).0;
        let p = generator_pos(m.generators, id);
        if has_generator(n.generators, id) {
            let k = choose|k: int| 0 <= k < n.generators.len() && (#[trigger] n.generators[k]).id == id;
            if k < p {
                assert(n.generators[k] == m.generators[k]);
            } else {
                assert(n.generators[k] == m.generators[k + 1]);
            }
        }
        assert forall|k: int|
            0 <= k < m.generators.len() && m.generators[k].id != id implies n.generators.contains(
            #[trigger] m.generators[k],
        ) by {
            if k < p {
                assert(n.generators[k] == m.generators[k]);
            } else {
                assert(k != p);
                assert(n.generators[k - 1] == m.generators[k]);
            }
        }
    }
}


/// Pausing, resuming, triggering and changing the configuration or limits
/// of a target or generator leave the runtime statistics as they were: they
/// count what is registered, in flight and queued.
pub proof fn law_stats_count_registrations<Ev, Er>(
    m: RuntimeModel<Ev, Er>,
    t: TargetId,
    g: GeneratorId,
    limits: TargetLimits,
    config: GeneratorConfig,
)
    ensures
        stats_spec(pause_generator_spec(m, g).0) == stats_spec(m),
        stats_spec(resume_generator_spec(m, g).0) == stats_spec(m),
        stats_spec(trigger_generator_spec(m, g).0) == stats_spec(m),
        stats_spec(update_generator_spec(m, g, config).0) == stats_spec(m),
        stats_spec(pause_target_spec(m, t).0) == stats_spec(m),
        stats_spec(resume_target_spec(m, t).0) == stats_spec(m),
        stats_spec(update_target_limits_spec(m, t, limits).0) == stats_spec(m),
{
}

/// A generator added with class `c` counts once more in class `c` and
/// makes `c` a listed class; the counts of the other classes do not change.
pub proof fn law_add_generator_counts_class<Ev, Er>(
    m: RuntimeModel<Ev, Er>,
    target: TargetId,
    config: GeneratorConfig,
    c: ClassId,
)
    ensures
        add_generator_spec(m, target, config).1 is Ok ==> class_generators(
            add_generator_spec(m, target, config).0.generators,
            c,
        ) == class_generators(m.generators, c) + if config.class == Some(c) {
            1nat
        } else {
            0nat
        },
        add_generator_spec(m, target, config).1 is Ok && config.class == Some(c) ==> class_list(
            add_generator_spec(m, target, config).0.generators,
        ).contains(c),
{
    if add_generator_spec(m, target, config).1 is Ok {
        let n = add_generator_spec(m, target, config).0;
        assert(n.generators.drop_last() =~= m.generators);
        if config.class == Some(c) {
            let rest = class_list(m.generators);
            if !rest.contains(c) {
                assert(rest.push(c)[rest.len() as int] == c);
            }
        }
    }
}

} // verus!
