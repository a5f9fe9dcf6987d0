//! The failover sweep: finding the workflows of dead workers and handing them back.
//!
//! A worker that has not been heard of for longer than the liveness threshold counts as lost.
//! Every unfinished workflow that such a worker owns, and that still has something to wake up
//! for, loses its owner and is set to wake at once, so that any live worker picks it up.

use std::collections::HashSet;
use vstd::prelude::*;
use vstd::std_specs::hash::*;

use crate::workflow::{
    released, spec_claim, spec_park, spec_resume, spec_terminate, Status, TransitionError,
    WakeConditionView, WakeEventView, Workflow, WorkflowView,
};

verus! {

/// How long a worker may stay silent before it counts as lost, in milliseconds.
pub const WORKER_INSTANCE_LOST_THRESHOLD: i64 = 30000;

/// How long the sweep rests between two passes, in milliseconds.
pub const SWEEP_INTERVAL: i64 = 15000;

/// A process that runs workflows, as the sweep sees it.
#[derive(Clone, Copy, Debug, PartialEq, Eq, Structural)]
pub struct WorkerInstance {
    pub worker_instance_id: u128,
    /// When the worker was last heard of, in milliseconds.
    pub last_ping_ts: i64,
}

/// Whether a worker last heard of at `last_ping_ts` counts as lost at `ts`: its silence is
/// longer than the threshold.
pub open spec fn is_lost(last_ping_ts: i64, ts: i64) -> bool {
    last_ping_ts < ts - WORKER_INSTANCE_LOST_THRESHOLD
}

/// Whether the worker `owner` is known and counts as lost at `ts`.
pub open spec fn owner_lost(workers: Seq<WorkerInstance>, owner: u128, ts: i64) -> bool {
    exists|i: int|
        0 <= i < workers.len() && (#[trigger] workers[i]).worker_instance_id == owner && is_lost(
            workers[i].last_ping_ts,
            ts,
        )
}

/// Whether a pass at `ts` takes `workflow` from its owner: the owner is lost, the workflow
/// has no output, it was not silenced, and it has a wake condition.
pub open spec fn reclaimable(
    workflow: WorkflowView,
    workers: Seq<WorkerInstance>,
    ts: i64,
) -> bool {
    &&& workflow.worker_instance_id matches Some(owner) && owner_lost(workers, owner, ts)
    &&& workflow.output is None
    &&& workflow.silence_ts is None
    &&& workflow.has_wake_condition()
}

/// One row after a pass at `ts`.
pub open spec fn swept_row(
    workflow: WorkflowView,
    workers: Seq<WorkerInstance>,
    ts: i64,
) -> WorkflowView {
    if reclaimable(workflow, workers, ts) {
        released(workflow)
    } else {
        workflow
    }
}

/// The rows of a store as plain values.
pub open spec fn rows_of(workflows: Seq<Workflow>) -> Seq<WorkflowView> {
    Seq::new(workflows.len(), |i: int| workflows[i]@)
}

/// The store after a pass at `ts`.
pub open spec fn swept(rows: Seq<WorkflowView>, workers: Seq<WorkerInstance>, ts: i64) -> Seq<
    WorkflowView,
> {
    Seq::new(rows.len(), |i: int| swept_row(rows[i], workers, ts))
}

/// What a pass at `ts` reports: for each workflow it takes, in the order of the store, the
/// workflow and the worker it was taken from.
pub open spec fn failovers(rows: Seq<WorkflowView>, workers: Seq<WorkerInstance>, ts: i64) -> Seq<
    (u128, u128),
>
    decreases rows.len(),
{
    if rows.len() == 0 {
        Seq::empty()
    } else {
        let earlier = failovers(rows.drop_last(), workers, ts);
        let last = rows.last();
        if reclaimable(last, workers, ts) {
            earlier.push((last.workflow_id, last.worker_instance_id->0))
        } else {
            earlier
        }
    }
}

/// Whether a worker last heard of at `last_ping_ts` counts as lost at `ts`.
pub fn worker_lost(last_ping_ts: i64, ts: i64) -> (lost: bool)
    ensures
        lost == is_lost(last_ping_ts, ts),
{
    if ts < i64::MIN + WORKER_INSTANCE_LOST_THRESHOLD {
        false
    } else {
        last_ping_ts < ts - WORKER_INSTANCE_LOST_THRESHOLD
    }
}

/// Whether the worker `owner` is known and counts as lost at `ts`.
pub fn is_owner_lost(workers: &Vec<WorkerInstance>, owner: u128, ts: i64) -> (lost: bool)
    ensures
        lost == owner_lost(workers@, owner, ts),
{
    let mut i: usize = 0;
    while i < workers.len()
        invariant
            i <= workers.len(),
            forall|j: int|
                0 <= j < i ==> !((#[trigger] workers@[j]).worker_instance_id == owner && is_lost(
                    workers@[j].last_ping_ts,
                    ts,
                )),
        decreases workers.len() - i,
    {
        if workers[i].worker_instance_id == owner && worker_lost(workers[i].last_ping_ts, ts) {
            return true;
        }
        i += 1;
    }
    false
}

/// The lost owner of `workflow`, if a pass at `ts` takes the workflow from it.
pub fn lost_owner(workflow: &Workflow, workers: &Vec<WorkerInstance>, ts: i64) -> (owner: Option<
    u128,
>)
    ensures
        owner is Some <==> reclaimable(workflow@, workers@, ts),
        owner is Some ==> owner == workflow@.worker_instance_id,
{
    match workflow.worker_instance_id {
        Some(owner) => {
            if workflow.output.is_none() && workflow.silence_ts.is_none()
                && workflow.has_wake_condition() && is_owner_lost(workers, owner, ts) {
                Some(owner)
            } else {
                None
            }
        },
        None => None,
    }
}

/// One pass of the sweep at `ts` over the whole store. Every workflow that is `reclaimable`
/// is `released`; every other row stays as it is. The pass hands back what it took: workflow
/// and former owner, in the order of the store.
pub fn gc_sweep(workflows: &mut Vec<Workflow>, workers: &Vec<WorkerInstance>, ts: i64) -> (taken:
    Vec<(u128, u128)>)
    ensures
        rows_of(final(workflows)@) == swept(rows_of(old(workflows)@), workers@, ts),
        taken@ == failovers(rows_of(old(workflows)@), workers@, ts),
{
    let ghost before = rows_of(workflows@);
    let mut taken: Vec<(u128, u128)> = Vec::new();
    let mut i: usize = 0;
    while i < workflows.len()
        invariant
            i <= workflows.len(),
            workflows.len() == before.len(),
            forall|j: int|
                0 <= j < i ==> (#[trigger] workflows@[j])@ == swept_row(before[j], workers@, ts),
            forall|j: int| i <= j < before.len() ==> (#[trigger] workflows@[j])@ == before[j],
            taken@ == failovers(before.take(i as int), workers@, ts),
        decreases workflows.len() - i,
    {
        let ghost row = before[i as int];
        proof {
            assert(before.take(i + 1).drop_last() == before.take(i as int));
            assert(before.take(i + 1).last() == row);
        }
        if let Some(owner) = lost_owner(&workflows[i], workers, ts) {
            taken.push((workflows[i].workflow_id, owner));
            workflows[i].release();
        }
        i += 1;
    }
    proof {
        assert(before.take(before.len() as int) == before);
        assert(rows_of(workflows@) =~= swept(before, workers@, ts));
    }
    taken
}

/// What a pass says of itself when it took anything.
pub struct FailoverReport {
    /// How many workflows the pass took.
    pub total_workflows: usize,
    /// The workers they were taken from, each once.
    pub worker_instance_ids: HashSet<u128>,
}

/// The workers named in a list of taken workflows.
pub open spec fn lost_workers(taken: Seq<(u128, u128)>) -> Set<u128> {
    Set::new(
        |worker: u128| exists|i: int| 0 <= i < taken.len() && (#[trigger] taken[i]).1 == worker,
    )
}

/// Sums up what a pass took: how many workflows, and from which workers. A pass that took
/// nothing has nothing to report.
pub fn failover_report(taken: &Vec<(u128, u128)>) -> (report: Option<FailoverReport>)
    ensures
        report is None <==> taken@.len() == 0,
        report matches Some(r) ==> r.total_workflows == taken@.len() && r.worker_instance_ids@
            == lost_workers(taken@),
{
    broadcast use group_hash_axioms;

    if taken.len() == 0 {
        return None;
    }
    let mut workers: HashSet<u128> = HashSet::new();
    let mut i: usize = 0;
    while i < taken.len()
        invariant
            i <= taken.len(),
            workers@ == lost_workers(taken@.take(i as int)),
        decreases taken.len() - i,
    {
        let ghost earlier = taken@.take(i as int);
        let ghost next = taken@.take(i + 1);
        workers.insert(taken[i].1);
        proof {
            assert forall|worker: u128|
                lost_workers(next).contains(worker) <==> (lost_workers(earlier).contains(worker)
                    || worker == taken@[i as int].1) by {
                if lost_workers(earlier).contains(worker) {
                    let j = choose|j: int|
                        0 <= j < earlier.len() && (#[trigger] earlier[j]).1 == worker;
                    assert(next[j].1 == worker);
                }
                if worker == taken@[i as int].1 {
                    assert(next[i as int].1 == worker);
                }
                if lost_workers(next).contains(worker) {
                    let j = choose|j: int| 0 <= j < next.len() && (#[trigger] next[j]).1 == worker;
                    if j < i {
                        assert(earlier[j].1 == worker);
                    }
                }
            }
            assert(workers@ =~= lost_workers(next));
        }
        i += 1;
    }
    assert(taken@.take(taken.len() as int) == taken@);
    Some(FailoverReport { total_workflows: taken.len(), worker_instance_ids: workers })
}

/// A worker table is well formed when no worker is listed twice.
pub open spec fn workers_wf(workers: Seq<WorkerInstance>) -> bool {
    forall|i: int, j: int|
        0 <= i < workers.len() && 0 <= j < workers.len() && i != j ==> (
        #[trigger] workers[i]).worker_instance_id != (#[trigger] workers[j]).worker_instance_id
}

/// Safety: a workflow whose owner was heard of within the threshold is never taken from it,
/// at whatever time the pass runs.
pub proof fn lemma_live_owner_keeps_workflow(
    workflow: WorkflowView,
    workers: Seq<WorkerInstance>,
    ts: i64,
    owner: int,
)
    requires
        workers_wf(workers),
        0 <= owner < workers.len(),
        workflow.worker_instance_id == Some(workers[owner].worker_instance_id),
        !is_lost(workers[owner].last_ping_ts, ts),
    ensures
        !reclaimable(workflow, workers, ts),
        swept_row(workflow, workers, ts) == workflow,
{
}

/// Liveness: a workflow whose owner has been silent for longer than the threshold, and which
/// has a wake condition, no output and no silence mark, is taken by the pass: afterwards it
/// has no owner and wakes at once.
pub proof fn lemma_lost_owner_loses_workflow(
    workflow: WorkflowView,
    workers: Seq<WorkerInstance>,
    ts: i64,
    owner: int,
)
    requires
        0 <= owner < workers.len(),
        workflow.worker_instance_id == Some(workers[owner].worker_instance_id),
        is_lost(workers[owner].last_ping_ts, ts),
        workflow.has_wake_condition(),
        workflow.output is None,
        workflow.silence_ts is None,
    ensures
        reclaimable(workflow, workers, ts),
        swept_row(workflow, workers, ts).worker_instance_id is None,
        swept_row(workflow, workers, ts).wake_immediate,
        swept_row(workflow, workers, ts) == released(workflow),
{
}

/// No resurrection: a workflow that has an output, or that was silenced, or that has nothing
/// to wake up for, is left as it is, whether its owner lives or not.
pub proof fn lemma_finished_or_silenced_is_left_alone(
    workflow: WorkflowView,
    workers: Seq<WorkerInstance>,
    ts: i64,
)
    requires
        workflow.output is Some || workflow.silence_ts is Some || !workflow.has_wake_condition(),
    ensures
        !reclaimable(workflow, workers, ts),
        swept_row(workflow, workers, ts) == workflow,
{
}

/// What the sweep hands back is there to be picked up: a workflow that was taken from its
/// owner is unowned and runnable, and the next worker that claims it gets it and runs it.
pub proof fn lemma_released_workflow_can_be_claimed(
    workflow: WorkflowView,
    workers: Seq<WorkerInstance>,
    ts: i64,
    claimant: u128,
)
    requires
        reclaimable(workflow, workers, ts),
    ensures
        released(workflow).status() is UnownedRunnable,
        released(workflow).wf(),
        spec_claim(released(workflow), claimant) matches Ok(claimed) && claimed.status() == (
        Status::OwnedRunning { worker: claimant }),
{
}

/// The worker that a workflow was taken from has lost it: whatever it still tries on the
/// workflow is refused as coming from a stale owner, and the row stays as the sweep left it.
pub proof fn lemma_former_owner_is_stale(
    workflow: WorkflowView,
    workers: Seq<WorkerInstance>,
    ts: i64,
    condition: WakeConditionView,
    event: WakeEventView,
    output: Seq<u8>,
)
    requires
        reclaimable(workflow, workers, ts),
    ensures
        ({
            let former = workflow.worker_instance_id->0;
            let stale = Err::<WorkflowView, TransitionError>(TransitionError::StaleOwner);
            &&& spec_park(released(workflow), former, condition) == stale
            &&& spec_resume(released(workflow), former, event) == stale
            &&& spec_terminate(released(workflow), former, output) == stale
        }),
{
}

/// A pass over a store touches each row by itself: the row at `i` afterwards is that row
/// swept.
pub proof fn lemma_sweep_is_row_by_row(
    rows: Seq<WorkflowView>,
    workers: Seq<WorkerInstance>,
    ts: i64,
    i: int,
)
    requires
        0 <= i < rows.len(),
    ensures
        swept(rows, workers, ts).len() == rows.len(),
        swept(rows, workers, ts)[i] == swept_row(rows[i], workers, ts),
{
}

/// A pass that took nothing reports nothing.
proof fn lemma_nothing_to_take(rows: Seq<WorkflowView>, workers: Seq<WorkerInstance>, ts: i64)
    requires
        forall|i: int| 0 <= i < rows.len() ==> !reclaimable(#[trigger] rows[i], workers, ts),
    ensures
        failovers(rows, workers, ts) == Seq::<(u128, u128)>::empty(),
    decreases rows.len(),
{
    if rows.len() > 0 {
        assert forall|i: int| 0 <= i < rows.drop_last().len() implies !reclaimable(
            #[trigger] rows.drop_last()[i],
            workers,
            ts,
        ) by {
            assert(rows.drop_last()[i] == rows[i]);
        }
        lemma_nothing_to_take(rows.drop_last(), workers, ts);
        assert(!reclaimable(rows[rows.len() - 1], workers, ts));
    }
}

/// The sweep is idempotent: a second pass over a store that was just swept, at the same or
/// any other time and against any worker table, changes nothing and takes nothing.
pub proof fn lemma_sweep_twice_is_sweep_once(
    rows: Seq<WorkflowView>,
    workers: Seq<WorkerInstance>,
    ts: i64,
)
    ensures
        swept(swept(rows, workers, ts), workers, ts) == swept(rows, workers, ts),
        failovers(swept(rows, workers, ts), workers, ts) == Seq::<(u128, u128)>::empty(),
{
    let once = swept(rows, workers, ts);
    assert forall|i: int| 0 <= i < once.len() implies !reclaimable(
        #[trigger] once[i],
        workers,
        ts,
    ) by {
        if reclaimable(rows[i], workers, ts) {
            assert(once[i].worker_instance_id is None);
        }
    }
    lemma_nothing_to_take(once, workers, ts);
    assert(swept(once, workers, ts) =~= once);
}

/// The time of the `k`-th pass of a sweep whose first pass ran at `first_pass`.
pub open spec fn pass_time(first_pass: int, k: nat) -> int {
    first_pass + k * SWEEP_INTERVAL
}

/// A lost worker is found within one sweep interval. Of the passes that follow one which
/// still saw the worker alive, one runs after the worker's silence has outlasted the
/// threshold, and no later than one interval after that moment.
pub proof fn lemma_lost_within_one_interval(last_ping_ts: i64, first_pass: int)
    requires
        first_pass <= last_ping_ts + WORKER_INSTANCE_LOST_THRESHOLD,
    ensures
        exists|k: nat|
            last_ping_ts + WORKER_INSTANCE_LOST_THRESHOLD < #[trigger] pass_time(first_pass, k)
                <= last_ping_ts + WORKER_INSTANCE_LOST_THRESHOLD + SWEEP_INTERVAL,
{
    let gap = last_ping_ts + WORKER_INSTANCE_LOST_THRESHOLD - first_pass;
    let k = (gap / 15000 + 1) as nat;
    assert(last_ping_ts + WORKER_INSTANCE_LOST_THRESHOLD < pass_time(first_pass, k)
        <= last_ping_ts + WORKER_INSTANCE_LOST_THRESHOLD + SWEEP_INTERVAL);
}

} // verus!
