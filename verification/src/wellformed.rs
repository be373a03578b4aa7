//! The state invariant: every operation and every scheduling step keeps it.

use vstd::prelude::*;

use crate::control::GeneratorConfig;
use crate::control::TargetLimits;
use crate::ids::GeneratorId;
use crate::ids::TargetId;
use crate::ids::WorkId;
use crate::model::GeneratorEntry;
use crate::model::InFlight;
use crate::model::RuntimeModel;
use crate::model::TargetEntry;
use crate::model::add_generator_spec;
use crate::model::add_target_spec;
use crate::model::remove_generator_spec;
use crate::model::remove_target_spec;
use crate::model::admit_spec;
use crate::model::complete_spec;
use crate::model::admissible;
use crate::model::lemma_detach_target;
use crate::model::update_target_limits_spec;
use crate::model::pause_target_spec;
use crate::model::resume_target_spec;
use crate::model::update_generator_spec;
use crate::model::pause_generator_spec;
use crate::model::resume_generator_spec;
use crate::model::trigger_generator_spec;
use crate::model::decide_spec;
use crate::model::select_spec;
use crate::model::consume_trigger;
use crate::model::next_spec;
use crate::model::lemma_first_selectable_exists;
use crate::model::NextEvent;
use crate::model::Operation;
use crate::model::call_allowed;
use crate::model::apply_operation;
use crate::model::first_selectable;
use crate::model::generator_pos;
use crate::model::generators_unique;
use crate::model::has_generator;
use crate::model::has_selectable;
use crate::model::has_target;
use crate::model::has_work;
use crate::model::reset_round;
use crate::model::selectable;
use crate::model::target_pos;
use crate::model::targets_unique;
use crate::model::work_pos;
use crate::model::works_unique;
use crate::output::RuntimeOutput;

verus! {

pub proof fn lemma_target_at(ts: Seq<TargetEntry>, id: TargetId, i: int)
    requires
        targets_unique(ts),
        0 <= i < ts.len(),
        ts[i].id == id,
    ensures
        has_target(ts, id),
        target_pos(ts, id) == i,
{
    assert(has_target(ts, id));
}

pub proof fn lemma_generator_at(gs: Seq<GeneratorEntry>, id: GeneratorId, i: int)
    requires
        generators_unique(gs),
        0 <= i < gs.len(),
        gs[i].id == id,
    ensures
        has_generator(gs, id),
        generator_pos(gs, id) == i,
{
    assert(has_generator(gs, id));
}

pub proof fn lemma_work_at(fl: Seq<InFlight>, id: WorkId, i: int)
    requires
        works_unique(fl),
        0 <= i < fl.len(),
        fl[i].work == id,
    ensures
        has_work(fl, id),
        work_pos(fl, id) == i,
{
    assert(has_work(fl, id));
}

/// Changing target entries without touching their ids keeps the invariant.
pub proof fn lemma_wf_retouch_targets<Ev, Er>(m: RuntimeModel<Ev, Er>, ts: Seq<TargetEntry>)
    requires
        m.wf(),
        ts.len() == m.targets.len(),
        forall|k: int| 0 <= k < ts.len() ==> (#[trigger] ts[k]).id == m.targets[k].id,
    ensures
        (RuntimeModel { targets: ts, ..m }).wf(),
{
    let n = RuntimeModel { targets: ts, ..m };
    assert forall|i: int| 0 <= i < n.generators.len() implies has_target(
        ts,
        (#[trigger] n.generators[i]).target,
    ) by {
        let j = choose|j: int|
            0 <= j < m.targets.len() && (#[trigger] m.targets[j]).id == m.generators[i].target;
        assert(ts[j].id == m.generators[i].target);
    }
    assert forall|i: int, j: int|
        0 <= i < ts.len() && 0 <= j < ts.len() && i != j implies (#[trigger] ts[i]).id != (
        #[trigger] ts[j]).id by {
        assert(m.targets[i].id != m.targets[j].id);
    }
    assert forall|i: int| 0 <= i < ts.len() implies (#[trigger] ts[i]).id.0 < n.next_target by {
        assert(m.targets[i].id.0 < m.next_target);
    }
}

/// Changing generator entries without touching their ids and targets keeps
/// the invariant.
pub proof fn lemma_wf_retouch_generators<Ev, Er>(m: RuntimeModel<Ev, Er>, gs: Seq<GeneratorEntry>)
    requires
        m.wf(),
        gs.len() == m.generators.len(),
        forall|k: int|
            0 <= k < gs.len() ==> (#[trigger] gs[k]).id == m.generators[k].id && gs[k].target
                == m.generators[k].target,
    ensures
        (RuntimeModel { generators: gs, ..m }).wf(),
{
    let n = RuntimeModel { generators: gs, ..m };
    assert forall|i: int| 0 <= i < gs.len() implies has_target(
        n.targets,
        (#[trigger] gs[i]).target,
    ) by {
        assert(has_target(m.targets, m.generators[i].target));
    }
    assert forall|i: int, j: int|
        0 <= i < gs.len() && 0 <= j < gs.len() && i != j implies (#[trigger] gs[i]).id != (
        #[trigger] gs[j]).id by {
        assert(m.generators[i].id != m.generators[j].id);
    }
    assert forall|i: int| 0 <= i < gs.len() implies (#[trigger] gs[i]).id.0
        < n.next_generator by {
        assert(m.generators[i].id.0 < m.next_generator);
    }
}

pub proof fn lemma_first_selectable<Ev, Er>(m: RuntimeModel<Ev, Er>, ready: Seq<bool>, i: int)
    requires
        selectable(m, ready, i),
        forall|j: int| 0 <= j < i ==> !selectable(m, ready, j),
    ensures
        has_selectable(m, ready),
        first_selectable(m, ready) == i,
{
    let k = first_selectable(m, ready);
    assert(selectable(m, ready, k) && forall|j: int| 0 <= j < k ==> !selectable(m, ready, j));
    if k < i {
        assert(!selectable(m, ready, k));
    } else if k > i {
        assert(!selectable(m, ready, i));
    }
}

/// A fresh round keeps the invariant and every id.
pub proof fn lemma_reset_round<Ev, Er>(m: RuntimeModel<Ev, Er>)
    requires
        m.wf(),
    ensures
        reset_round(m).wf(),
        reset_round(m).targets.len() == m.targets.len(),
        reset_round(m).generators.len() == m.generators.len(),
        forall|k: int|
            0 <= k < m.targets.len() ==> (#[trigger] reset_round(m).targets[k]) == (TargetEntry {
                round_cost: 0,
                ..m.targets[k]
            }),
        forall|k: int|
            0 <= k < m.generators.len() ==> (#[trigger] reset_round(m).generators[k]) == (
            GeneratorEntry { round_picks: 0, ..m.generators[k] }),
{
    let r = reset_round(m);
    let m1 = RuntimeModel { targets: r.targets, ..m };
    lemma_wf_retouch_targets(m, r.targets);
    lemma_wf_retouch_generators(m1, r.generators);
    assert(r =~= RuntimeModel { generators: r.generators, ..m1 });
}



/// Adding a target keeps the invariant.
pub proof fn lemma_add_target_wf<Ev, Er>(m: RuntimeModel<Ev, Er>, limits: TargetLimits)
    requires
        m.wf(),
        m.shutdown_started || m.next_target < u64::MAX,
    ensures
        add_target_spec(m, limits).0.wf(),
{
    if !m.shutdown_started {
        let n = add_target_spec(m, limits).0;
        assert forall|i: int| 0 <= i < n.generators.len() implies has_target(
            n.targets,
            (#[trigger] n.generators[i]).target,
        ) by {
            let j = choose|j: int|
                0 <= j < m.targets.len() && (#[trigger] m.targets[j]).id
                    == m.generators[i].target;
            assert(n.targets[j] == m.targets[j]);
        }
        assert forall|i: int, j: int|
            0 <= i < n.targets.len() && 0 <= j < n.targets.len() && i != j implies (
            #[trigger] n.targets[i]).id != (#[trigger] n.targets[j]).id by {
            if i < m.targets.len() && j < m.targets.len() {
                assert(m.targets[i].id != m.targets[j].id);
            } else if i < m.targets.len() {
                assert(m.targets[i].id.0 < m.next_target);
            } else {
                assert(m.targets[j].id.0 < m.next_target);
            }
        }
        assert forall|i: int| 0 <= i < n.targets.len() implies (#[trigger] n.targets[i]).id.0
            < n.next_target by {
            if i < m.targets.len() {
                assert(m.targets[i].id.0 < m.next_target);
            }
        }
    }
}

/// Adding a generator keeps the invariant.
pub proof fn lemma_add_generator_wf<Ev, Er>(
    m: RuntimeModel<Ev, Er>,
    target: TargetId,
    config: GeneratorConfig,
)
    requires
        m.wf(),
        m.shutdown_started || !has_target(m.targets, target) || m.next_generator < u64::MAX,
    ensures
        add_generator_spec(m, target, config).0.wf(),
{
    if !m.shutdown_started && has_target(m.targets, target) {
        let n = add_generator_spec(m, target, config).0;
        assert forall|i: int| 0 <= i < n.generators.len() implies has_target(
            n.targets,
            (#[trigger] n.generators[i]).target,
        ) by {
            if i < m.generators.len() {
                assert(n.generators[i] == m.generators[i]);
            }
        }
        assert forall|i: int, j: int|
            0 <= i < n.generators.len() && 0 <= j < n.generators.len() && i != j implies (
            #[trigger] n.generators[i]).id != (#[trigger] n.generators[j]).id by {
            if i < m.generators.len() && j < m.generators.len() {
                assert(m.generators[i].id != m.generators[j].id);
            } else if i < m.generators.len() {
                assert(m.generators[i].id.0 < m.next_generator);
            } else {
                assert(m.generators[j].id.0 < m.next_generator);
            }
        }
        assert forall|i: int| 0 <= i < n.generators.len() implies (
        #[trigger] n.generators[i]).id.0 < n.next_generator by {
            if i < m.generators.len() {
                assert(m.generators[i].id.0 < m.next_generator);
            }
        }
    }
}

/// Removing a generator keeps the invariant.
pub proof fn lemma_remove_generator_wf<Ev, Er>(m: RuntimeModel<Ev, Er>, id: GeneratorId)
    requires
        m.wf(),
    ensures
        remove_generator_spec(m, id).0.wf(),
{
    if !m.shutdown_started && has_generator(m.generators, id) {
        let i = generator_pos(m.generators, id);
        let n = remove_generator_spec(m, id).0;
        assert forall|k: int| 0 <= k < n.generators.len() implies has_target(
            n.targets,
            (#[trigger] n.generators[k]).target,
        ) by {
            if k < i {
                assert(n.generators[k] == m.generators[k]);
            } else {
                assert(n.generators[k] == m.generators[k + 1]);
            }
        }
        assert forall|a: int, b: int|
            0 <= a < n.generators.len() && 0 <= b < n.generators.len() && a
                != b implies (#[trigger] n.generators[a]).id != (
            #[trigger] n.generators[b]).id by {
            let a2 = if a < i {
                a
            } else {
                a + 1
            };
            let b2 = if b < i {
                b
            } else {
                b + 1
            };
            assert(n.generators[a] == m.generators[a2]);
            assert(n.generators[b] == m.generators[b2]);
        }
        assert forall|k: int| 0 <= k < n.generators.len() implies (
        #[trigger] n.generators[k]).id.0 < n.next_generator by {
            if k < i {
                assert(n.generators[k] == m.generators[k]);
            } else {
                assert(n.generators[k] == m.generators[k + 1]);
            }
        }
    }
}

/// Removing a target and its generators keeps the invariant.
pub proof fn lemma_remove_target_wf<Ev, Er>(m: RuntimeModel<Ev, Er>, id: TargetId)
    requires
        m.wf(),
    ensures
        remove_target_spec(m, id).0.wf(),
{
    if !m.shutdown_started && has_target(m.targets, id) {
        let p = target_pos(m.targets, id);
        let n = remove_target_spec(m, id).0;
        lemma_detach_target(m.generators, id);
        assert forall|a: int| 0 <= a < n.generators.len() implies has_target(
            n.targets,
            (#[trigger] n.generators[a]).target,
        ) by {
            let g = n.generators[a];
            let j = choose|j: int| 0 <= j < m.generators.len() && m.generators[j] == g;
            assert(has_target(m.targets, m.generators[j].target));
            let q = choose|q: int|
                0 <= q < m.targets.len() && (#[trigger] m.targets[q]).id == g.target;
            assert(q != p);
            if q < p {
                assert(n.targets[q] == m.targets[q]);
            } else {
                assert(n.targets[q - 1] == m.targets[q]);
            }
        }
        assert forall|a: int, b: int|
            0 <= a < n.targets.len() && 0 <= b < n.targets.len() && a != b implies (
            #[trigger] n.targets[a]).id != (#[trigger] n.targets[b]).id by {
            let a2 = if a < p {
                a
            } else {
                a + 1
            };
            let b2 = if b < p {
                b
            } else {
                b + 1
            };
            assert(n.targets[a] == m.targets[a2]);
            assert(n.targets[b] == m.targets[b2]);
        }
        assert forall|a: int| 0 <= a < n.targets.len() implies (
        #[trigger] n.targets[a]).id.0 < n.next_target by {
            if a < p {
                assert(n.targets[a] == m.targets[a]);
            } else {
                assert(n.targets[a] == m.targets[a + 1]);
            }
        }
        assert forall|a: int| 0 <= a < n.generators.len() implies (
        #[trigger] n.generators[a]).id.0 < n.next_generator by {
            let j = choose|j: int|
                0 <= j < m.generators.len() && m.generators[j] == n.generators[a];
            assert(m.generators[j].id.0 < m.next_generator);
        }
    }
}

/// Admitting a work item keeps the invariant.
pub proof fn lemma_admit_wf<Ev, Er>(m: RuntimeModel<Ev, Er>, id: GeneratorId, cost: u64)
    requires
        m.wf(),
    ensures
        admit_spec(m, id, cost).0.wf(),
{
    if !m.admitted_in_poll && has_generator(m.generators, id) && admissible(
        m,
        generator_pos(m.generators, id),
    ) {
        let n = admit_spec(m, id, cost).0;
        let m1 = RuntimeModel { targets: n.targets, ..m };
        lemma_wf_retouch_targets(m, n.targets);
        lemma_wf_retouch_generators(m1, n.generators);
        let m2 = RuntimeModel { generators: n.generators, ..m1 };
        assert(m2.wf());
        assert forall|a: int, b: int|
            0 <= a < n.in_flight.len() && 0 <= b < n.in_flight.len() && a != b implies (
            #[trigger] n.in_flight[a]).work != (#[trigger] n.in_flight[b]).work by {
            if a < m.in_flight.len() && b < m.in_flight.len() {
                assert(m.in_flight[a].work != m.in_flight[b].work);
            } else if a < m.in_flight.len() {
                assert(m.in_flight[a].work.0 < m.next_work);
            } else {
                assert(m.in_flight[b].work.0 < m.next_work);
            }
        }
        assert forall|a: int| 0 <= a < n.in_flight.len() implies (
        #[trigger] n.in_flight[a]).work.0 < n.next_work by {
            if a < m.in_flight.len() {
                assert(m.in_flight[a].work.0 < m.next_work);
            }
        }
    }
}

/// Completing a work item keeps the invariant.
pub proof fn lemma_complete_wf<Ev, Er>(m: RuntimeModel<Ev, Er>, work: WorkId, result: Result<Ev, Er>)
    requires
        m.wf(),
        has_work(m.in_flight, work),
    ensures
        complete_spec(m, work, result).0.wf(),
{
    let p = work_pos(m.in_flight, work);
    let rec = m.in_flight[p];
    let n = complete_spec(m, work, result).0;
        assert forall|a: int, b: int|
            0 <= a < n.in_flight.len() && 0 <= b < n.in_flight.len() && a != b implies (
            #[trigger] n.in_flight[a]).work != (#[trigger] n.in_flight[b]).work by {
            let a2 = if a < p {
                a
            } else {
                a + 1
            };
            let b2 = if b < p {
                b
            } else {
                b + 1
            };
            assert(n.in_flight[a] == m.in_flight[a2]);
            assert(n.in_flight[b] == m.in_flight[b2]);
        }
        assert forall|a: int| 0 <= a < n.in_flight.len() implies (
        #[trigger] n.in_flight[a]).work.0 < n.next_work by {
            if a < p {
                assert(n.in_flight[a] == m.in_flight[a]);
            } else {
                assert(n.in_flight[a] == m.in_flight[a + 1]);
            }
        }
        let queued = m.outputs.push(
            RuntimeOutput::Work {
                work: rec.work,
                target: rec.target,
                generator: rec.generator,
                result,
            },
        );
        assert forall|k: int| 0 <= k < n.outputs.len() implies #[trigger] n.outputs[k] is Work by {
            assert(n.outputs[k] == queued[k + 1]);
        }
}


/// Updating, pausing or resuming a target keeps the invariant.
pub proof fn lemma_target_changes_wf<Ev, Er>(
    m: RuntimeModel<Ev, Er>,
    id: TargetId,
    limits: TargetLimits,
)
    requires
        m.wf(),
    ensures
        update_target_limits_spec(m, id, limits).0.wf(),
        pause_target_spec(m, id).0.wf(),
        resume_target_spec(m, id).0.wf(),
{
    if !m.shutdown_started && has_target(m.targets, id) {
        lemma_wf_retouch_targets(m, update_target_limits_spec(m, id, limits).0.targets);
        lemma_wf_retouch_targets(m, pause_target_spec(m, id).0.targets);
        lemma_wf_retouch_targets(m, resume_target_spec(m, id).0.targets);
    }
}

/// Updating, pausing, resuming or triggering a generator keeps the invariant.
pub proof fn lemma_generator_changes_wf<Ev, Er>(
    m: RuntimeModel<Ev, Er>,
    id: GeneratorId,
    config: GeneratorConfig,
)
    requires
        m.wf(),
    ensures
        update_generator_spec(m, id, config).0.wf(),
        pause_generator_spec(m, id).0.wf(),
        resume_generator_spec(m, id).0.wf(),
        trigger_generator_spec(m, id).0.wf(),
{
    if has_generator(m.generators, id) {
        if !m.shutdown_started {
            lemma_wf_retouch_generators(m, update_generator_spec(m, id, config).0.generators);
            lemma_wf_retouch_generators(m, pause_generator_spec(m, id).0.generators);
            lemma_wf_retouch_generators(m, resume_generator_spec(m, id).0.generators);
        }
        lemma_wf_retouch_generators(m, trigger_generator_spec(m, id).0.generators);
    }
}

/// The poll decisions keep the invariant.
pub proof fn lemma_decide_wf<Ev, Er>(m: RuntimeModel<Ev, Er>, polled: bool)
    requires
        m.wf(),
    ensures
        decide_spec(m, polled).0.wf(),
{
    if !m.shutdown_emitted && m.outputs.len() > 0 {
        let n = decide_spec(m, polled).0;
        assert forall|k: int| 0 <= k < n.outputs.len() implies #[trigger] n.outputs[k] is Work by {
            assert(n.outputs[k] == m.outputs[k + 1]);
        }
    }
}

/// Selecting a generator keeps the invariant.
pub proof fn lemma_select_wf<Ev, Er>(m: RuntimeModel<Ev, Er>, ready: Seq<bool>)
    requires
        m.wf(),
    ensures
        select_spec(m, ready).0.wf(),
{
    lemma_reset_round(m);
    if m.admitted_in_poll || m.selected_in_poll {
    } else if has_selectable(m, ready) {
        lemma_first_selectable_exists(m, ready);
        let i = first_selectable(m, ready);
        lemma_wf_retouch_generators(m, consume_trigger(m, i).generators);
    } else if has_selectable(reset_round(m), ready) {
        let r = reset_round(m);
        lemma_first_selectable_exists(r, ready);
        let i = first_selectable(r, ready);
        lemma_wf_retouch_generators(r, consume_trigger(r, i).generators);
    }
}

/// Every scheduling step keeps the invariant.
pub proof fn lemma_next_wf<Ev, Er>(m: RuntimeModel<Ev, Er>, event: NextEvent<Ev, Er>)
    requires
        m.wf(),
    ensures
        next_spec(m, event).0.wf(),
{
    match event {
        NextEvent::Poll => lemma_decide_wf(
            RuntimeModel { admitted_in_poll: false, selected_in_poll: false, ..m },
            false,
        ),
        NextEvent::Spawned => lemma_decide_wf(m, false),
        NextEvent::NoneCompleted => lemma_decide_wf(m, true),
        NextEvent::Completed { work, result } => {
            if has_work(m.in_flight, work) {
                lemma_complete_wf(m, work, result);
            } else {
                lemma_decide_wf(m, true);
            }
        },
        NextEvent::Readiness(ready) => lemma_select_wf(m, ready@),
        NextEvent::Taken { generator, cost } => match cost {
            Some(c) => lemma_admit_wf(m, generator, c.0),
            None => lemma_decide_wf(m, true),
        },
    }
}


/// Every call that meets its precondition keeps the invariant.
pub proof fn lemma_apply_wf<Ev, Er>(m: RuntimeModel<Ev, Er>, op: Operation<Ev, Er>)
    requires
        m.wf(),
        call_allowed(m, op),
    ensures
        apply_operation(m, op).wf(),
{
    let l = TargetLimits { max_in_flight: None, max_cost_per_round: None };
    let c = GeneratorConfig { class: None, weight: None };
    match op {
        Operation::AddTarget(limits) => lemma_add_target_wf(m, limits),
        Operation::RemoveTarget(t) => lemma_remove_target_wf(m, t),
        Operation::UpdateTargetLimits(t, limits) => lemma_target_changes_wf(m, t, limits),
        Operation::PauseTarget(t) => lemma_target_changes_wf(m, t, l),
        Operation::ResumeTarget(t) => lemma_target_changes_wf(m, t, l),
        Operation::AddGenerator(t, config) => lemma_add_generator_wf(m, t, config),
        Operation::RemoveGenerator(g) => lemma_remove_generator_wf(m, g),
        Operation::UpdateGenerator(g, config) => lemma_generator_changes_wf(m, g, config),
        Operation::PauseGenerator(g) => lemma_generator_changes_wf(m, g, c),
        Operation::ResumeGenerator(g) => lemma_generator_changes_wf(m, g, c),
        Operation::TriggerGenerator(g) => lemma_generator_changes_wf(m, g, c),
        Operation::GracefulShutdown => {},
        Operation::TakeWake => {},
        Operation::Next(ev) => lemma_next_wf(m, ev),
    }
}

} // verus!
