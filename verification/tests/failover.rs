use pegboard::gc::{
    failover_report, gc_sweep, is_owner_lost, lost_owner, worker_lost, WorkerInstance,
    SWEEP_INTERVAL, WORKER_INSTANCE_LOST_THRESHOLD,
};
use pegboard::workflow::{
    has_topic, TransitionError, WakeCondition, WakeEvent, Workflow,
};

const W1: u128 = 0x1001;
const W2: u128 = 0x1002;
const W3: u128 = 0x1003;

fn worker(worker_instance_id: u128, last_ping_ts: i64) -> WorkerInstance {
    WorkerInstance { worker_instance_id, last_ping_ts }
}

fn owned(workflow_id: u128, owner: u128) -> Workflow {
    Workflow {
        workflow_id,
        worker_instance_id: Some(owner),
        output: None,
        silence_ts: None,
        wake_immediate: false,
        wake_deadline_ts: Some(77),
        wake_signals: Vec::new(),
        wake_sub_workflow_id: None,
    }
}

fn fields(w: &Workflow) -> (Option<u128>, bool, Option<i64>, Vec<String>, Option<u128>) {
    (
        w.worker_instance_id,
        w.wake_immediate,
        w.wake_deadline_ts,
        w.wake_signals.clone(),
        w.wake_sub_workflow_id,
    )
}

fn released() -> (Option<u128>, bool, Option<i64>, Vec<String>, Option<u128>) {
    (None, true, None, Vec::new(), None)
}

#[test]
fn threshold_is_thirty_seconds_and_passes_run_every_fifteen() {
    assert_eq!(WORKER_INSTANCE_LOST_THRESHOLD, 30_000);
    assert_eq!(SWEEP_INTERVAL, 15_000);
}

#[test]
fn a_worker_is_lost_after_more_than_the_threshold() {
    assert!(!worker_lost(100_000, 100_000));
    assert!(!worker_lost(100_000, 129_999));
    assert!(!worker_lost(100_000, 130_000));
    assert!(worker_lost(100_000, 130_001));
    assert!(worker_lost(0, i64::MAX));
    assert!(!worker_lost(200_000, 100_000));
    // No time is so early that the cutoff leaves the number range.
    assert!(!worker_lost(i64::MIN, i64::MIN));
    assert!(!worker_lost(i64::MIN, i64::MIN + 30_000));
    assert!(worker_lost(i64::MIN, i64::MIN + 30_001));
    assert!(!worker_lost(i64::MIN + 1, i64::MIN + 29_999));
}

#[test]
fn an_unknown_owner_is_not_lost() {
    let workers = vec![worker(W1, 0), worker(W2, 100_000)];
    assert!(is_owner_lost(&workers, W1, 100_000));
    assert!(!is_owner_lost(&workers, W2, 100_000));
    assert!(!is_owner_lost(&workers, W3, 100_000));
    assert!(!is_owner_lost(&Vec::new(), W1, 100_000));
}

#[test]
fn sweep_releases_the_workflows_of_a_lost_worker() {
    let workers = vec![worker(W1, 1_000), worker(W2, 60_000)];
    let mut store = vec![owned(1, W1), owned(2, W2), owned(3, W1), owned(4, W3)];
    store[2].wake_deadline_ts = None;
    store[2].wake_signals = vec!["stop".to_string(), "go".to_string()];
    let taken = gc_sweep(&mut store, &workers, 61_000);
    assert_eq!(taken, vec![(1, W1), (3, W1)]);
    assert_eq!(fields(&store[0]), released());
    assert_eq!(fields(&store[2]), released());
    // A live owner keeps its workflow, and so does one that the worker table does not know.
    assert_eq!(fields(&store[1]), (Some(W2), false, Some(77), Vec::new(), None));
    assert_eq!(fields(&store[3]), (Some(W3), false, Some(77), Vec::new(), None));
    for (i, row) in store.iter().enumerate() {
        assert_eq!(row.workflow_id, i as u128 + 1);
        assert_eq!(row.output, None);
        assert_eq!(row.silence_ts, None);
    }
}

#[test]
fn sweep_never_takes_from_a_live_worker() {
    let workers = vec![worker(W1, 100_000)];
    for ts in [i64::MIN, 0, 99_999, 100_000, 100_001, 129_999, 130_000] {
        let mut store = vec![owned(1, W1)];
        assert_eq!(gc_sweep(&mut store, &workers, ts), Vec::new());
        assert_eq!(store[0].worker_instance_id, Some(W1));
        assert_eq!(store[0].wake_deadline_ts, Some(77));
        assert!(!store[0].wake_immediate);
    }
    let mut store = vec![owned(1, W1)];
    assert_eq!(gc_sweep(&mut store, &workers, 130_001), vec![(1, W1)]);
}

#[test]
fn sweep_takes_every_kind_of_pending_wake() {
    let workers = vec![worker(W1, 0)];
    let mut immediate = owned(1, W1);
    immediate.wake_deadline_ts = None;
    immediate.wake_immediate = true;
    let deadline = owned(2, W1);
    let mut signals = owned(3, W1);
    signals.wake_deadline_ts = None;
    signals.wake_signals = vec!["a".to_string()];
    let mut child = owned(4, W1);
    child.wake_deadline_ts = None;
    child.wake_sub_workflow_id = Some(9);
    let mut store = vec![immediate, deadline, signals, child];
    let taken = gc_sweep(&mut store, &workers, 40_000);
    assert_eq!(taken, vec![(1, W1), (2, W1), (3, W1), (4, W1)]);
    for row in &store {
        assert_eq!(fields(row), released());
    }
}

#[test]
fn sweep_resurrects_nothing() {
    let workers = vec![worker(W1, 0)];
    let mut done = owned(1, W1);
    done.output = Some(b"{}".to_vec());
    let mut empty_output = owned(2, W1);
    empty_output.output = Some(Vec::new());
    let mut silenced = owned(3, W1);
    silenced.silence_ts = Some(5);
    let mut no_wake = owned(4, W1);
    no_wake.wake_deadline_ts = None;
    let mut unowned = owned(5, W1);
    unowned.worker_instance_id = None;
    let mut dormant = owned(6, W1);
    dormant.worker_instance_id = None;
    dormant.wake_deadline_ts = None;
    let mut store = vec![done, empty_output, silenced, no_wake, unowned, dormant];
    let before: Vec<_> = store.iter().map(fields).collect();
    assert_eq!(gc_sweep(&mut store, &workers, 1_000_000), Vec::new());
    let after: Vec<_> = store.iter().map(fields).collect();
    assert_eq!(before, after);
    assert_eq!(store[0].output, Some(b"{}".to_vec()));
    assert_eq!(store[2].silence_ts, Some(5));
    for row in &store {
        assert_eq!(lost_owner(row, &workers, 1_000_000), None);
    }
}

#[test]
fn a_second_pass_changes_nothing() {
    let workers = vec![worker(W1, 0), worker(W2, 0)];
    let mut store = vec![owned(1, W1), owned(2, W2), owned(3, W3)];
    assert_eq!(gc_sweep(&mut store, &workers, 50_000).len(), 2);
    let once: Vec<_> = store.iter().map(fields).collect();
    assert_eq!(gc_sweep(&mut store, &workers, 50_000), Vec::new());
    assert_eq!(gc_sweep(&mut store, &workers, 90_000), Vec::new());
    let twice: Vec<_> = store.iter().map(fields).collect();
    assert_eq!(once, twice);
}

#[test]
fn sweep_of_an_empty_store_takes_nothing() {
    let mut store: Vec<Workflow> = Vec::new();
    assert_eq!(gc_sweep(&mut store, &vec![worker(W1, 0)], 1_000_000), Vec::new());
    assert!(store.is_empty());
}

#[test]
fn a_silent_worker_loses_its_workflow_which_is_then_claimed() {
    // W1 owns WF1 and stops pinging at 10 s.
    let stopped = 10_000;
    let workers = vec![worker(W1, stopped), worker(W2, stopped)];
    let mut store = vec![Workflow::new(0xF1)];
    assert_eq!(store[0].claim(W1), Ok(()));
    let awaited = WakeCondition::Signals { topics: vec!["cmd".to_string()] };
    assert_eq!(store[0].park(W1, awaited), Ok(()));

    // Passes run every interval; those within the threshold leave the workflow alone.
    let mut ts = stopped;
    while ts <= stopped + WORKER_INSTANCE_LOST_THRESHOLD {
        assert_eq!(gc_sweep(&mut store, &workers, ts), Vec::new());
        assert_eq!(store[0].worker_instance_id, Some(W1));
        ts += SWEEP_INTERVAL;
    }
    // The next pass comes no later than one interval after the threshold has run out.
    assert!(ts <= stopped + WORKER_INSTANCE_LOST_THRESHOLD + SWEEP_INTERVAL);
    assert_eq!(gc_sweep(&mut store, &workers, ts), vec![(0xF1, W1)]);
    assert_eq!(store[0].worker_instance_id, None);
    assert!(store[0].wake_immediate);
    assert!(store[0].wake_signals.is_empty());

    // The worker that lost the workflow can do nothing to it any more.
    assert_eq!(store[0].resume(W1, &WakeEvent::Recheck), Err(TransitionError::StaleOwner));
    assert_eq!(store[0].terminate(W1, Vec::new()), Err(TransitionError::StaleOwner));
    assert!(!store[0].is_owned_by(W1));

    // A live worker picks the workflow up.
    assert_eq!(store[0].claim(W3), Ok(()));
    assert!(store[0].is_owned_by(W3));
    assert_eq!(store[0].worker_instance_id, Some(W3));
    assert_eq!(gc_sweep(&mut store, &workers, ts + SWEEP_INTERVAL), Vec::new());
}

#[test]
fn report_counts_workflows_and_names_each_worker_once() {
    assert!(failover_report(&Vec::new()).is_none());
    let report = failover_report(&vec![(1, W1), (2, W2), (3, W1), (4, W1)]).unwrap();
    assert_eq!(report.total_workflows, 4);
    assert_eq!(report.worker_instance_ids.len(), 2);
    assert!(report.worker_instance_ids.contains(&W1));
    assert!(report.worker_instance_ids.contains(&W2));
    let single = failover_report(&vec![(9, W3)]).unwrap();
    assert_eq!(single.total_workflows, 1);
    assert_eq!(single.worker_instance_ids.into_iter().collect::<Vec<_>>(), vec![W3]);
}

#[test]
fn a_new_workflow_is_unowned_and_wakes_at_once() {
    let workflow = Workflow::new(42);
    assert_eq!(workflow.workflow_id, 42);
    assert_eq!(fields(&workflow), released());
    assert_eq!(workflow.output, None);
    assert_eq!(workflow.silence_ts, None);
    assert!(workflow.has_wake_condition());
    assert!(!workflow.is_terminated());
}

#[test]
fn a_workflow_goes_round_its_states() {
    let mut workflow = Workflow::new(1);
    // Unowned-Runnable to Owned-Running.
    assert_eq!(workflow.claim(W1), Ok(()));
    assert_eq!(fields(&workflow), (Some(W1), false, None, Vec::new(), None));
    // Owned-Running to Owned-Parked and back, for each kind of condition.
    assert_eq!(workflow.park(W1, WakeCondition::Deadline { ts: 500 }), Ok(()));
    assert_eq!(fields(&workflow), (Some(W1), false, Some(500), Vec::new(), None));
    let not_met = Err(TransitionError::ConditionNotMet);
    assert_eq!(workflow.resume(W1, &WakeEvent::Clock { now: 499 }), not_met);
    assert_eq!(workflow.resume(W1, &WakeEvent::Recheck), not_met);
    assert_eq!(workflow.resume(W1, &WakeEvent::Clock { now: 500 }), Ok(()));
    assert_eq!(fields(&workflow), (Some(W1), false, None, Vec::new(), None));

    let topics = vec!["a".to_string(), "b".to_string()];
    assert_eq!(workflow.park(W1, WakeCondition::Signals { topics: topics.clone() }), Ok(()));
    assert_eq!(fields(&workflow), (Some(W1), false, None, topics, None));
    let wrong = WakeEvent::Signal { topic: "c".to_string() };
    assert_eq!(workflow.resume(W1, &wrong), not_met);
    assert_eq!(workflow.resume(W1, &WakeEvent::Clock { now: i64::MAX }), not_met);
    assert_eq!(workflow.resume(W1, &WakeEvent::Signal { topic: "b".to_string() }), Ok(()));

    assert_eq!(workflow.park(W1, WakeCondition::SubWorkflow { workflow_id: 8 }), Ok(()));
    assert_eq!(fields(&workflow), (Some(W1), false, None, Vec::new(), Some(8)));
    let other_child = WakeEvent::SubWorkflowCompleted { workflow_id: 9 };
    assert_eq!(workflow.resume(W1, &other_child), not_met);
    assert_eq!(workflow.resume(W1, &WakeEvent::SubWorkflowCompleted { workflow_id: 8 }), Ok(()));

    assert_eq!(workflow.park(W1, WakeCondition::Immediate), Ok(()));
    assert_eq!(fields(&workflow), (Some(W1), true, None, Vec::new(), None));
    assert_eq!(workflow.resume(W1, &WakeEvent::Recheck), Ok(()));

    // Owned-Running to Terminated.
    assert_eq!(workflow.terminate(W1, b"done".to_vec()), Ok(()));
    assert!(workflow.is_terminated());
    assert_eq!(workflow.output, Some(b"done".to_vec()));
}

#[test]
fn a_terminated_workflow_changes_no_more() {
    let mut workflow = Workflow::new(1);
    workflow.claim(W1).unwrap();
    workflow.terminate(W1, Vec::new()).unwrap();
    let before = fields(&workflow);
    assert_eq!(workflow.claim(W2), Err(TransitionError::StoreConflict));
    assert_eq!(workflow.claim(W1), Err(TransitionError::StoreConflict));
    assert_eq!(workflow.park(W1, WakeCondition::Immediate), Err(TransitionError::NotRunning));
    assert_eq!(workflow.resume(W1, &WakeEvent::Recheck), Err(TransitionError::NotParked));
    assert_eq!(workflow.terminate(W1, b"x".to_vec()), Err(TransitionError::NotRunning));
    assert_eq!(fields(&workflow), before);
    assert_eq!(workflow.output, Some(Vec::new()));
    let mut store = vec![workflow];
    assert_eq!(gc_sweep(&mut store, &vec![worker(W1, 0)], i64::MAX), Vec::new());
}

#[test]
fn only_an_unowned_runnable_workflow_can_be_claimed() {
    let mut workflow = Workflow::new(1);
    assert_eq!(workflow.claim(W1), Ok(()));
    assert_eq!(workflow.claim(W2), Err(TransitionError::StoreConflict));
    assert_eq!(workflow.claim(W1), Err(TransitionError::StoreConflict));
    assert_eq!(workflow.worker_instance_id, Some(W1));

    let mut dormant = Workflow::new(2);
    dormant.wake_immediate = false;
    assert_eq!(dormant.claim(W1), Err(TransitionError::StoreConflict));
    assert_eq!(dormant.worker_instance_id, None);
}

#[test]
fn only_the_owner_moves_a_workflow() {
    let mut workflow = Workflow::new(1);
    workflow.claim(W1).unwrap();
    assert_eq!(workflow.park(W2, WakeCondition::Immediate), Err(TransitionError::StaleOwner));
    assert_eq!(workflow.terminate(W2, Vec::new()), Err(TransitionError::StaleOwner));
    workflow.park(W1, WakeCondition::Immediate).unwrap();
    assert_eq!(workflow.resume(W2, &WakeEvent::Recheck), Err(TransitionError::StaleOwner));
    assert_eq!(fields(&workflow), (Some(W1), true, None, Vec::new(), None));
}

#[test]
fn transitions_need_the_right_state() {
    let mut workflow = Workflow::new(1);
    assert_eq!(workflow.park(W1, WakeCondition::Immediate), Err(TransitionError::StaleOwner));
    assert_eq!(workflow.resume(W1, &WakeEvent::Recheck), Err(TransitionError::StaleOwner));
    assert_eq!(workflow.terminate(W1, Vec::new()), Err(TransitionError::StaleOwner));
    assert_eq!(fields(&workflow), released());
    workflow.claim(W1).unwrap();
    assert_eq!(workflow.resume(W1, &WakeEvent::Recheck), Err(TransitionError::NotParked));
    let nothing = WakeCondition::Signals { topics: Vec::new() };
    assert_eq!(workflow.park(W1, nothing), Err(TransitionError::NothingToWaitFor));
    assert_eq!(fields(&workflow), (Some(W1), false, None, Vec::new(), None));
    workflow.park(W1, WakeCondition::Deadline { ts: 1 }).unwrap();
    assert_eq!(workflow.park(W1, WakeCondition::Immediate), Err(TransitionError::NotRunning));
    assert_eq!(workflow.terminate(W1, Vec::new()), Err(TransitionError::NotRunning));
    assert_eq!(workflow.output, None);
}

#[test]
fn wake_events_are_matched_to_the_condition() {
    let mut workflow = Workflow::new(1);
    assert!(workflow.wakes_on(&WakeEvent::Recheck));
    assert!(workflow.wakes_on(&WakeEvent::Clock { now: i64::MIN }));
    workflow.wake_immediate = false;
    assert!(!workflow.wakes_on(&WakeEvent::Recheck));
    workflow.wake_deadline_ts = Some(-5);
    assert!(workflow.wakes_on(&WakeEvent::Clock { now: -5 }));
    assert!(workflow.wakes_on(&WakeEvent::Clock { now: 0 }));
    assert!(!workflow.wakes_on(&WakeEvent::Clock { now: -6 }));
    assert!(!workflow.wakes_on(&WakeEvent::Signal { topic: String::new() }));
}

#[test]
fn has_topic_looks_for_the_whole_topic() {
    let topics = vec!["alpha".to_string(), String::new(), "β".to_string()];
    assert!(has_topic(&topics, "alpha"));
    assert!(has_topic(&topics, ""));
    assert!(has_topic(&topics, "β"));
    assert!(!has_topic(&topics, "alph"));
    assert!(!has_topic(&topics, "Alpha"));
    assert!(!has_topic(&Vec::new(), ""));
}
