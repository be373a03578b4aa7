use dispatcher::control::AddGeneratorError;
use dispatcher::control::GeneratorConfig;
use dispatcher::control::RuntimeConfig;
use dispatcher::control::TargetLimits;
use dispatcher::ids::ClassId;
use dispatcher::ids::CostUnits;
use dispatcher::ids::GeneratorId;
use dispatcher::ids::TargetId;
use dispatcher::ids::WorkId;
use dispatcher::model::NextAction;
use dispatcher::model::NextEvent;
use dispatcher::output::RuntimeOutput;
use dispatcher::runtime::Runtime;
use dispatcher::stats::ClassStats;

type Rt = Runtime<u32, String>;

fn runtime() -> Rt {
    Runtime::new(RuntimeConfig::default())
}

fn limits(max_in_flight: Option<u32>, budget: Option<u64>) -> TargetLimits {
    TargetLimits { max_in_flight, max_cost_per_round: budget.map(CostUnits) }
}

fn config(class: Option<u32>, weight: Option<u32>) -> GeneratorConfig {
    GeneratorConfig { class: class.map(ClassId), weight }
}

/// Runs one poll up to its selection: the readiness report, then `take_next`
/// handing out a work item of the given cost. Returns the chosen generator
/// and the work id, or `None` when the poll parks.
fn select_and_admit(rt: &mut Rt, ready: Vec<bool>, cost: u64) -> Option<(GeneratorId, WorkId)> {
    let mut action = rt.next(NextEvent::Poll);
    if matches!(action, NextAction::PollInFlight) {
        action = rt.next(NextEvent::NoneCompleted);
    }
    match action {
        NextAction::QueryReadiness => {},
        NextAction::Park => return None,
        other => panic!("unexpected {:?}", other),
    }
    match rt.next(NextEvent::Readiness(ready)) {
        NextAction::TakeNext(g) => {
            match rt.next(NextEvent::Taken { generator: g, cost: Some(CostUnits(cost)) }) {
                NextAction::Spawn(w) => Some((g, w)),
                other => panic!("unexpected {:?}", other),
            }
        },
        NextAction::Park => None,
        other => panic!("unexpected {:?}", other),
    }
}

#[test]
fn target_ids_are_allocated_in_order_and_never_reused() {
    let mut rt = runtime();
    let a = rt.add_target(TargetLimits::default()).unwrap();
    let b = rt.add_target(TargetLimits::default()).unwrap();
    assert_eq!(a, TargetId(0));
    assert_eq!(b, TargetId(1));
    assert!(rt.remove_target(a));
    assert!(!rt.remove_target(a));
    let c = rt.add_target(TargetLimits::default()).unwrap();
    assert_eq!(c, TargetId(2));
    assert_eq!(rt.stats().targets, 2);
}

#[test]
fn remove_target_removes_its_generators() {
    let mut rt = runtime();
    let a = rt.add_target(TargetLimits::default()).unwrap();
    let b = rt.add_target(TargetLimits::default()).unwrap();
    let ga = rt.add_generator(a, GeneratorConfig::default()).unwrap();
    let gb = rt.add_generator(b, GeneratorConfig::default()).unwrap();
    assert!(rt.remove_target(a));
    assert!(!rt.trigger_generator(ga));
    assert!(!rt.remove_generator(ga));
    assert!(rt.trigger_generator(gb));
    assert_eq!(rt.stats().generators, 1);
}

#[test]
fn add_generator_reports_missing_target_and_shutdown() {
    let mut rt = runtime();
    assert_eq!(
        rt.add_generator(TargetId(7), GeneratorConfig::default()),
        Err(AddGeneratorError::TargetNotFound)
    );
    let t = rt.add_target(TargetLimits::default()).unwrap();
    assert_eq!(rt.add_generator(t, GeneratorConfig::default()), Ok(GeneratorId(0)));
    rt.graceful_shutdown();
    assert_eq!(
        rt.add_generator(t, GeneratorConfig::default()),
        Err(AddGeneratorError::ShutdownStarted)
    );
    assert_eq!(rt.add_target(TargetLimits::default()), None);
    assert_eq!(AddGeneratorError::TargetNotFound.message(), "target not found");
    assert_eq!(AddGeneratorError::ShutdownStarted.message(), "graceful shutdown already started");
}

#[test]
fn control_operations_on_unknown_ids_fail() {
    let mut rt = runtime();
    assert!(!rt.update_target_limits(TargetId(0), TargetLimits::default()));
    assert!(!rt.pause_target(TargetId(0)));
    assert!(!rt.resume_target(TargetId(0)));
    assert!(!rt.remove_generator(GeneratorId(0)));
    assert!(!rt.update_generator(GeneratorId(0), GeneratorConfig::default()));
    assert!(!rt.pause_generator(GeneratorId(0)));
    assert!(!rt.resume_generator(GeneratorId(0)));
    assert!(!rt.trigger_generator(GeneratorId(0)));
}

#[test]
fn pausing_never_wakes_and_resuming_does() {
    let mut rt = runtime();
    let t = rt.add_target(TargetLimits::default()).unwrap();
    let g = rt.add_generator(t, GeneratorConfig::default()).unwrap();
    assert!(rt.handle().take_wake());
    assert!(rt.pause_target(t));
    assert!(!rt.handle().take_wake());
    assert!(rt.remove_generator(g));
    assert!(rt.handle().take_wake());
    let g = rt.add_generator(t, GeneratorConfig::default()).unwrap();
    assert!(rt.handle().take_wake());
    assert!(rt.pause_generator(g));
    assert!(!rt.handle().take_wake());
    assert!(rt.resume_target(t));
    assert!(rt.handle().take_wake());
    assert!(!rt.handle().take_wake());
}

#[test]
fn one_work_item_runs_through_next() {
    let mut rt = runtime();
    assert!(matches!(rt.next(NextEvent::Poll), NextAction::Park));
    let t = rt.add_target(TargetLimits::default()).unwrap();
    let g = rt.add_generator(t, GeneratorConfig::default()).unwrap();
    assert!(matches!(rt.next(NextEvent::Poll), NextAction::QueryReadiness));
    let (chosen, w) = select_and_admit(&mut rt, vec![true], 1).unwrap();
    assert_eq!(chosen, g);
    assert_eq!(w, WorkId(0));
    assert_eq!(rt.stats().in_flight, 1);
    assert!(matches!(rt.next(NextEvent::Poll), NextAction::PollInFlight));
    match rt.next(NextEvent::Completed { work: w, result: Ok(5) }) {
        NextAction::Deliver { notify, output } => {
            assert_eq!(notify, Some(g));
            match output {
                RuntimeOutput::Work { work, target, generator, result } => {
                    assert_eq!(work, w);
                    assert_eq!(target, t);
                    assert_eq!(generator, g);
                    assert_eq!(result, Ok(5));
                },
                RuntimeOutput::Shutdown => panic!("unexpected shutdown"),
            }
        },
        other => panic!("unexpected {:?}", other),
    }
    assert_eq!(rt.stats().in_flight, 0);
}

#[test]
fn completion_is_delivered_once() {
    let mut rt = runtime();
    let t = rt.add_target(TargetLimits::default()).unwrap();
    rt.add_generator(t, GeneratorConfig::default()).unwrap();
    let (_, w) = select_and_admit(&mut rt, vec![true], 1).unwrap();
    assert!(matches!(
        rt.next(NextEvent::Completed { work: w, result: Ok(1) }),
        NextAction::Deliver { .. }
    ));
    // The same poll already admitted an item: it yields.
    assert!(matches!(
        rt.next(NextEvent::Completed { work: w, result: Ok(1) }),
        NextAction::Yield
    ));
    assert!(matches!(rt.next(NextEvent::Poll), NextAction::QueryReadiness));
}

#[test]
fn removed_generator_work_completes_without_notification() {
    let mut rt = runtime();
    let t = rt.add_target(TargetLimits::default()).unwrap();
    let g = rt.add_generator(t, GeneratorConfig::default()).unwrap();
    let (_, w) = select_and_admit(&mut rt, vec![true], 1).unwrap();
    assert!(rt.remove_generator(g));
    assert_eq!(rt.stats().in_flight, 1);
    match rt.next(NextEvent::Completed { work: w, result: Err("boom".to_string()) }) {
        NextAction::Deliver { notify, output } => {
            assert_eq!(notify, None);
            assert!(matches!(output, RuntimeOutput::Work { result: Err(_), .. }));
        },
        other => panic!("unexpected {:?}", other),
    }
}

#[test]
fn target_in_flight_limit_blocks_admission() {
    let mut rt = runtime();
    let t = rt.add_target(limits(Some(1), None)).unwrap();
    rt.add_generator(t, config(None, Some(10))).unwrap();
    let (_, w) = select_and_admit(&mut rt, vec![true], 1).unwrap();
    assert!(select_and_admit(&mut rt, vec![true], 1).is_none());
    rt.next(NextEvent::Completed { work: w, result: Ok(0) });
    assert!(select_and_admit(&mut rt, vec![true], 1).is_some());
}

#[test]
fn global_limit_blocks_admission() {
    let mut rt: Rt = Runtime::new(RuntimeConfig {
        global_max_in_flight: Some(2),
        output_queue_capacity: None,
    });
    let a = rt.add_target(TargetLimits::default()).unwrap();
    let b = rt.add_target(TargetLimits::default()).unwrap();
    rt.add_generator(a, config(None, Some(5))).unwrap();
    rt.add_generator(b, config(None, Some(5))).unwrap();
    assert!(select_and_admit(&mut rt, vec![true, true], 1).is_some());
    assert!(select_and_admit(&mut rt, vec![true, true], 1).is_some());
    assert!(select_and_admit(&mut rt, vec![true, true], 1).is_none());
    assert_eq!(rt.stats().in_flight, 2);
}

#[test]
fn output_queue_capacity_bounds_in_flight_work() {
    let mut rt: Rt = Runtime::new(RuntimeConfig {
        global_max_in_flight: None,
        output_queue_capacity: Some(1),
    });
    let t = rt.add_target(TargetLimits::default()).unwrap();
    rt.add_generator(t, config(None, Some(5))).unwrap();
    assert!(select_and_admit(&mut rt, vec![true], 1).is_some());
    assert!(select_and_admit(&mut rt, vec![true], 1).is_none());
}

#[test]
fn zero_capacity_admits_nothing() {
    let mut rt: Rt = Runtime::new(RuntimeConfig {
        global_max_in_flight: None,
        output_queue_capacity: Some(0),
    });
    let t = rt.add_target(TargetLimits::default()).unwrap();
    rt.add_generator(t, GeneratorConfig::default()).unwrap();
    assert!(select_and_admit(&mut rt, vec![true], 1).is_none());
}

#[test]
fn first_ready_generator_is_selected() {
    let mut rt = runtime();
    let t = rt.add_target(TargetLimits::default()).unwrap();
    let g0 = rt.add_generator(t, GeneratorConfig::default()).unwrap();
    let g1 = rt.add_generator(t, GeneratorConfig::default()).unwrap();
    assert_eq!(select_and_admit(&mut rt, vec![false, true], 1).unwrap().0, g1);
    assert_eq!(select_and_admit(&mut rt, vec![true, true], 1).unwrap().0, g0);
    assert!(select_and_admit(&mut rt, vec![false, false], 1).is_none());
}

#[test]
fn paused_generators_and_targets_are_skipped() {
    let mut rt = runtime();
    let a = rt.add_target(TargetLimits::default()).unwrap();
    let b = rt.add_target(TargetLimits::default()).unwrap();
    let ga = rt.add_generator(a, config(None, Some(9))).unwrap();
    let gb = rt.add_generator(b, config(None, Some(9))).unwrap();
    assert!(rt.pause_target(a));
    assert_eq!(select_and_admit(&mut rt, vec![true, true], 1).unwrap().0, gb);
    assert!(rt.pause_generator(gb));
    assert!(select_and_admit(&mut rt, vec![true, true], 1).is_none());
    assert!(rt.resume_target(a));
    assert_eq!(select_and_admit(&mut rt, vec![true, true], 1).unwrap().0, ga);
}

#[test]
fn triggered_generator_counts_as_ready_once() {
    let mut rt = runtime();
    let t = rt.add_target(TargetLimits::default()).unwrap();
    let g = rt.add_generator(t, config(None, Some(9))).unwrap();
    assert!(select_and_admit(&mut rt, vec![false], 1).is_none());
    assert!(rt.trigger_generator(g));
    assert_eq!(select_and_admit(&mut rt, vec![false], 1).unwrap().0, g);
    assert!(select_and_admit(&mut rt, vec![false], 1).is_none());
}

#[test]
fn weights_and_rounds_share_selections() {
    let mut rt = runtime();
    let t = rt.add_target(TargetLimits::default()).unwrap();
    let heavy = rt.add_generator(t, config(None, Some(2))).unwrap();
    let light = rt.add_generator(t, GeneratorConfig::default()).unwrap();
    let picks: Vec<GeneratorId> =
        (0..6).map(|_| select_and_admit(&mut rt, vec![true, true], 1).unwrap().0).collect();
    assert_eq!(picks, vec![heavy, heavy, light, light, light, light]);
}

#[test]
fn cost_budget_limits_a_target_per_round() {
    let mut rt = runtime();
    let a = rt.add_target(limits(None, Some(3))).unwrap();
    let b = rt.add_target(TargetLimits::default()).unwrap();
    let ga = rt.add_generator(a, config(None, Some(100))).unwrap();
    let gb = rt.add_generator(b, config(None, Some(2))).unwrap();
    assert_eq!(select_and_admit(&mut rt, vec![true, true], 2).unwrap().0, ga);
    assert_eq!(select_and_admit(&mut rt, vec![true, true], 2).unwrap().0, ga);
    assert_eq!(select_and_admit(&mut rt, vec![true, true], 2).unwrap().0, gb);
    assert_eq!(select_and_admit(&mut rt, vec![true, true], 2).unwrap().0, gb);
    // Both budgets are spent: a new round starts.
    assert_eq!(select_and_admit(&mut rt, vec![true, true], 2).unwrap().0, ga);
}

#[test]
fn zero_weight_generator_is_never_selected() {
    let mut rt = runtime();
    let t = rt.add_target(TargetLimits::default()).unwrap();
    rt.add_generator(t, config(None, Some(0))).unwrap();
    assert!(select_and_admit(&mut rt, vec![true], 1).is_none());
}

#[test]
fn declined_take_next_parks_the_poll() {
    let mut rt = runtime();
    let t = rt.add_target(TargetLimits::default()).unwrap();
    let g = rt.add_generator(t, GeneratorConfig::default()).unwrap();
    assert!(matches!(rt.next(NextEvent::Poll), NextAction::QueryReadiness));
    assert!(matches!(rt.next(NextEvent::Readiness(vec![true])), NextAction::TakeNext(x) if x == g));
    assert!(matches!(rt.next(NextEvent::Taken { generator: g, cost: None }), NextAction::Park));
    // The same poll does not ask the generator again.
    assert!(matches!(rt.next(NextEvent::Readiness(vec![true])), NextAction::Park));
    assert!(matches!(rt.next(NextEvent::NoneCompleted), NextAction::Park));
    assert_eq!(rt.stats().in_flight, 0);
    // A new poll selects again.
    assert!(matches!(rt.next(NextEvent::Poll), NextAction::QueryReadiness));
    assert!(matches!(rt.next(NextEvent::Readiness(vec![true])), NextAction::TakeNext(x) if x == g));
}

#[test]
fn declined_take_next_does_not_ask_another_generator() {
    let mut rt = runtime();
    let t = rt.add_target(TargetLimits::default()).unwrap();
    let a = rt.add_generator(t, GeneratorConfig::default()).unwrap();
    let b = rt.add_generator(t, GeneratorConfig::default()).unwrap();
    assert!(matches!(rt.next(NextEvent::Poll), NextAction::QueryReadiness));
    assert!(matches!(rt.next(NextEvent::Readiness(vec![true, true])), NextAction::TakeNext(x) if x == a));
    assert!(matches!(rt.next(NextEvent::Taken { generator: a, cost: None }), NextAction::Park));
    assert!(matches!(rt.next(NextEvent::Readiness(vec![false, true])), NextAction::Park));
    assert!(matches!(rt.next(NextEvent::Poll), NextAction::QueryReadiness));
    assert!(matches!(rt.next(NextEvent::Readiness(vec![false, true])), NextAction::TakeNext(x) if x == b));
}

#[test]
fn unknown_generator_work_is_discarded() {
    let mut rt = runtime();
    assert!(matches!(
        rt.next(NextEvent::Taken { generator: GeneratorId(3), cost: Some(CostUnits(1)) }),
        NextAction::Discard
    ));
}

#[test]
fn shutdown_waits_for_in_flight_work_and_is_sticky() {
    let mut rt = runtime();
    let t = rt.add_target(TargetLimits::default()).unwrap();
    rt.add_generator(t, GeneratorConfig::default()).unwrap();
    let (_, w) = select_and_admit(&mut rt, vec![true], 1).unwrap();
    rt.graceful_shutdown();
    rt.graceful_shutdown();
    assert!(rt.stats().shutdown_started);
    assert!(matches!(rt.next(NextEvent::Poll), NextAction::PollInFlight));
    assert!(matches!(rt.next(NextEvent::NoneCompleted), NextAction::Park));
    assert!(select_and_admit(&mut rt, vec![true], 1).is_none());
    assert!(matches!(
        rt.next(NextEvent::Completed { work: w, result: Ok(9) }),
        NextAction::Deliver { output: RuntimeOutput::Work { .. }, .. }
    ));
    assert!(!rt.stats().shutdown_complete);
    assert!(matches!(rt.next(NextEvent::Poll), NextAction::Ready(RuntimeOutput::Shutdown)));
    assert!(rt.stats().shutdown_complete);
    assert!(matches!(rt.next(NextEvent::Poll), NextAction::Ready(RuntimeOutput::Shutdown)));
    assert!(matches!(rt.next(NextEvent::NoneCompleted), NextAction::Ready(RuntimeOutput::Shutdown)));
}

#[test]
fn shutdown_with_nothing_in_flight_is_immediate() {
    let mut rt = runtime();
    rt.graceful_shutdown();
    assert!(matches!(rt.next(NextEvent::Poll), NextAction::Ready(RuntimeOutput::Shutdown)));
}

#[test]
fn stats_and_class_stats_snapshot_the_state() {
    let mut rt = runtime();
    let t = rt.add_target(TargetLimits::default()).unwrap();
    rt.add_generator(t, config(Some(7), Some(5))).unwrap();
    rt.add_generator(t, config(None, None)).unwrap();
    rt.add_generator(t, config(Some(3), None)).unwrap();
    rt.add_generator(t, config(Some(7), None)).unwrap();
    assert!(select_and_admit(&mut rt, vec![true, false, false, false], 1).is_some());
    let stats = rt.stats();
    assert_eq!(stats.targets, 1);
    assert_eq!(stats.generators, 4);
    assert_eq!(stats.in_flight, 1);
    assert_eq!(stats.queued_outputs, 0);
    assert!(!stats.shutdown_started);
    assert_eq!(rt.handle().stats(), stats);
    assert_eq!(
        rt.class_stats(),
        vec![
            ClassStats { class: ClassId(7), generators: 2, in_flight: 1 },
            ClassStats { class: ClassId(3), generators: 1, in_flight: 0 },
        ]
    );
}

#[test]
fn handle_and_runtime_share_one_state() {
    let mut rt = runtime();
    let t = rt.handle().add_target(TargetLimits::default()).unwrap();
    assert!(rt.pause_target(t));
    let g = rt.handle().add_generator(t, GeneratorConfig::default()).unwrap();
    assert!(rt.update_generator(g, config(Some(1), Some(3))));
    assert!(rt.handle().update_target_limits(t, limits(Some(4), None)));
    assert!(rt.handle().ids_available());
    assert_eq!(rt.stats().generators, 1);
}

#[test]
fn unweighted_generators_keep_the_first_ready_one() {
    let mut rt = runtime();
    let t = rt.add_target(TargetLimits::default()).unwrap();
    let g0 = rt.add_generator(t, GeneratorConfig::default()).unwrap();
    rt.add_generator(t, GeneratorConfig::default()).unwrap();
    assert_eq!(select_and_admit(&mut rt, vec![true, true], 1).unwrap().0, g0);
    assert_eq!(select_and_admit(&mut rt, vec![true, true], 1).unwrap().0, g0);
}

#[test]
fn one_poll_admits_one_work_item() {
    let mut rt = runtime();
    let t = rt.add_target(TargetLimits::default()).unwrap();
    let g = rt.add_generator(t, GeneratorConfig::default()).unwrap();
    assert!(matches!(rt.next(NextEvent::Poll), NextAction::QueryReadiness));
    assert!(matches!(rt.next(NextEvent::Readiness(vec![true])), NextAction::TakeNext(x) if x == g));
    assert!(matches!(
        rt.next(NextEvent::Taken { generator: g, cost: Some(CostUnits(1)) }),
        NextAction::Spawn(_)
    ));
    assert!(matches!(rt.next(NextEvent::Spawned), NextAction::PollInFlight));
    assert!(matches!(rt.next(NextEvent::NoneCompleted), NextAction::Yield));
    assert!(matches!(rt.next(NextEvent::Readiness(vec![true])), NextAction::Yield));
    assert!(matches!(
        rt.next(NextEvent::Taken { generator: g, cost: Some(CostUnits(1)) }),
        NextAction::Discard
    ));
    assert_eq!(rt.stats().in_flight, 1);
    assert!(matches!(rt.next(NextEvent::Poll), NextAction::PollInFlight));
    assert!(matches!(rt.next(NextEvent::NoneCompleted), NextAction::QueryReadiness));
}

#[test]
fn shutdown_rejects_target_and_generator_changes() {
    let mut rt = runtime();
    let t = rt.add_target(TargetLimits::default()).unwrap();
    let g = rt.add_generator(t, GeneratorConfig::default()).unwrap();
    rt.graceful_shutdown();
    assert!(!rt.remove_target(t));
    assert!(!rt.update_target_limits(t, TargetLimits::default()));
    assert!(!rt.pause_target(t));
    assert!(!rt.resume_target(t));
    assert!(!rt.remove_generator(g));
    assert!(!rt.update_generator(g, GeneratorConfig::default()));
    assert!(!rt.pause_generator(g));
    assert!(!rt.resume_generator(g));
    assert!(rt.trigger_generator(g));
    let stats = rt.stats();
    assert_eq!((stats.targets, stats.generators), (1, 1));
}

#[test]
fn adding_and_removing_targets_wake() {
    let mut rt = runtime();
    let t = rt.add_target(TargetLimits::default()).unwrap();
    assert!(rt.handle().take_wake());
    assert!(rt.remove_target(t));
    assert!(rt.handle().take_wake());
    assert!(!rt.remove_target(t));
    assert!(!rt.handle().take_wake());
}

#[test]
fn shutdown_returns_each_completion_then_the_shutdown_output() {
    let mut rt = runtime();
    let t = rt.add_target(TargetLimits::default()).unwrap();
    rt.add_generator(t, GeneratorConfig::default()).unwrap();
    let (_, w1) = select_and_admit(&mut rt, vec![true], 1).unwrap();
    let (_, w2) = select_and_admit(&mut rt, vec![true], 1).unwrap();
    rt.graceful_shutdown();
    assert!(matches!(rt.next(NextEvent::Poll), NextAction::PollInFlight));
    assert!(matches!(
        rt.next(NextEvent::Completed { work: w2, result: Ok(2) }),
        NextAction::Deliver { output: RuntimeOutput::Work { result: Ok(2), .. }, .. }
    ));
    assert!(matches!(rt.next(NextEvent::Poll), NextAction::PollInFlight));
    assert!(matches!(
        rt.next(NextEvent::Completed { work: w1, result: Err(String::from("failed")) }),
        NextAction::Deliver { output: RuntimeOutput::Work { result: Err(_), .. }, .. }
    ));
    assert!(matches!(rt.next(NextEvent::Poll), NextAction::Ready(RuntimeOutput::Shutdown)));
}
