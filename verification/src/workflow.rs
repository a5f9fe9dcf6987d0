//! The durable record of a workflow, and the rules by which it changes hands.
//!
//! A workflow is owned by at most one worker. An owned workflow either runs or is parked
//! until its wake condition holds; an unowned one with a wake condition is there for any
//! worker to claim; one with an output is done for good.

use vstd::prelude::*;

use crate::text::{same_text, texts_of};

verus! {

/// What a parked workflow waits for.
#[derive(Debug)]
pub enum WakeCondition {
    /// To be looked at again at once.
    Immediate,
    /// A point in time, in milliseconds.
    Deadline { ts: i64 },
    /// A signal on any of these topics.
    Signals { topics: Vec<String> },
    /// The completion of a child workflow.
    SubWorkflow { workflow_id: u128 },
}

/// A `WakeCondition` with its topics as text.
pub enum WakeConditionView {
    Immediate,
    Deadline { ts: i64 },
    Signals { topics: Seq<Seq<char>> },
    SubWorkflow { workflow_id: u128 },
}

impl View for WakeCondition {
    type V = WakeConditionView;

    open spec fn view(&self) -> WakeConditionView {
        match self {
            WakeCondition::Immediate => WakeConditionView::Immediate,
            WakeCondition::Deadline { ts } => WakeConditionView::Deadline { ts: *ts },
            WakeCondition::Signals { topics } => WakeConditionView::Signals {
                topics: texts_of(topics@),
            },
            WakeCondition::SubWorkflow { workflow_id } => WakeConditionView::SubWorkflow {
                workflow_id: *workflow_id,
            },
        }
    }
}

/// Something that may wake a parked workflow.
#[derive(Debug)]
pub enum WakeEvent {
    /// The worker looks at the workflow again.
    Recheck,
    /// The clock shows `now`, in milliseconds.
    Clock { now: i64 },
    /// A signal has arrived on `topic`.
    Signal { topic: String },
    /// A child workflow has completed.
    SubWorkflowCompleted { workflow_id: u128 },
}

/// A `WakeEvent` with its topic as text.
pub enum WakeEventView {
    Recheck,
    Clock { now: i64 },
    Signal { topic: Seq<char> },
    SubWorkflowCompleted { workflow_id: u128 },
}

impl View for WakeEvent {
    type V = WakeEventView;

    open spec fn view(&self) -> WakeEventView {
        match self {
            WakeEvent::Recheck => WakeEventView::Recheck,
            WakeEvent::Clock { now } => WakeEventView::Clock { now: *now },
            WakeEvent::Signal { topic } => WakeEventView::Signal { topic: topic@ },
            WakeEvent::SubWorkflowCompleted { workflow_id } => WakeEventView::SubWorkflowCompleted {
                workflow_id: *workflow_id,
            },
        }
    }
}

/// Whether `event` makes `condition` hold: an immediate re-check holds at once; a deadline
/// holds once the clock has reached it; a set of topics holds when a signal arrives on one
/// of them; a child holds when that child has completed.
pub open spec fn satisfies(event: WakeEventView, condition: WakeConditionView) -> bool {
    match condition {
        WakeConditionView::Immediate => true,
        WakeConditionView::Deadline { ts } => event matches WakeEventView::Clock { now } && now
            >= ts,
        WakeConditionView::Signals { topics } => event matches WakeEventView::Signal { topic }
            && topics.contains(topic),
        WakeConditionView::SubWorkflow { workflow_id } => event
            == (WakeEventView::SubWorkflowCompleted { workflow_id }),
    }
}

/// One row of the workflow store.
#[derive(Debug)]
pub struct Workflow {
    pub workflow_id: u128,
    /// The worker that owns the workflow; `None` for a workflow that no worker owns.
    pub worker_instance_id: Option<u128>,
    /// What the workflow ended with; set once, when it is done.
    pub output: Option<Vec<u8>>,
    /// Set on a workflow that was paused on purpose: the failover sweep leaves it alone.
    pub silence_ts: Option<i64>,
    pub wake_immediate: bool,
    pub wake_deadline_ts: Option<i64>,
    pub wake_signals: Vec<String>,
    pub wake_sub_workflow_id: Option<u128>,
}

/// A `Workflow` as plain values.
pub struct WorkflowView {
    pub workflow_id: u128,
    pub worker_instance_id: Option<u128>,
    pub output: Option<Seq<u8>>,
    pub silence_ts: Option<i64>,
    pub wake_immediate: bool,
    pub wake_deadline_ts: Option<i64>,
    pub wake_signals: Seq<Seq<char>>,
    pub wake_sub_workflow_id: Option<u128>,
}

impl View for Workflow {
    type V = WorkflowView;

    open spec fn view(&self) -> WorkflowView {
        WorkflowView {
            workflow_id: self.workflow_id,
            worker_instance_id: self.worker_instance_id,
            output: match self.output {
                Some(bytes) => Some(bytes@),
                None => None,
            },
            silence_ts: self.silence_ts,
            wake_immediate: self.wake_immediate,
            wake_deadline_ts: self.wake_deadline_ts,
            wake_signals: texts_of(self.wake_signals@),
            wake_sub_workflow_id: self.wake_sub_workflow_id,
        }
    }
}

/// Where a workflow stands.
pub enum Status {
    /// A worker owns the workflow and runs it.
    OwnedRunning { worker: u128 },
    /// A worker owns the workflow, which waits for `condition`.
    OwnedParked { worker: u128, condition: WakeConditionView },
    /// No worker owns the workflow, and it has something to wake up for.
    UnownedRunnable,
    /// The workflow has an output.
    Terminated,
    /// No worker owns the workflow and nothing will wake it.
    Dormant,
}

impl WorkflowView {
    /// Whether any wake condition is set.
    pub open spec fn has_wake_condition(self) -> bool {
        self.wake_immediate || self.wake_deadline_ts is Some || self.wake_signals.len() > 0
            || self.wake_sub_workflow_id is Some
    }

    /// How many of the four wake conditions are set.
    pub open spec fn wake_conditions_set(self) -> nat {
        (if self.wake_immediate {
            1nat
        } else {
            0
        }) + (if self.wake_deadline_ts is Some {
            1nat
        } else {
            0
        }) + (if self.wake_signals.len() > 0 {
            1nat
        } else {
            0
        }) + (if self.wake_sub_workflow_id is Some {
            1nat
        } else {
            0
        })
    }

    /// A row is well formed when at most one wake condition is set.
    pub open spec fn wf(self) -> bool {
        self.wake_conditions_set() <= 1
    }

    /// The wake condition that is set, if one is.
    pub open spec fn condition(self) -> Option<WakeConditionView> {
        if self.wake_immediate {
            Some(WakeConditionView::Immediate)
        } else if self.wake_deadline_ts is Some {
            Some(WakeConditionView::Deadline { ts: self.wake_deadline_ts->0 })
        } else if self.wake_signals.len() > 0 {
            Some(WakeConditionView::Signals { topics: self.wake_signals })
        } else if self.wake_sub_workflow_id is Some {
            Some(WakeConditionView::SubWorkflow { workflow_id: self.wake_sub_workflow_id->0 })
        } else {
            None
        }
    }

    /// Where the workflow stands.
    pub open spec fn status(self) -> Status {
        if self.output is Some {
            Status::Terminated
        } else {
            match (self.worker_instance_id, self.condition()) {
                (Some(worker), None) => Status::OwnedRunning { worker },
                (Some(worker), Some(condition)) => Status::OwnedParked { worker, condition },
                (None, Some(_)) => Status::UnownedRunnable,
                (None, None) => Status::Dormant,
            }
        }
    }

    /// The row with every wake condition taken off.
    pub open spec fn awake(self) -> WorkflowView {
        WorkflowView {
            wake_immediate: false,
            wake_deadline_ts: None,
            wake_signals: Seq::empty(),
            wake_sub_workflow_id: None,
            ..self
        }
    }

    /// The row waiting for `condition` and nothing else.
    pub open spec fn waiting_for(self, condition: WakeConditionView) -> WorkflowView {
        match condition {
            WakeConditionView::Immediate => WorkflowView { wake_immediate: true, ..self.awake() },
            WakeConditionView::Deadline { ts } => WorkflowView {
                wake_deadline_ts: Some(ts),
                ..self.awake()
            },
            WakeConditionView::Signals { topics } => WorkflowView {
                wake_signals: topics,
                ..self.awake()
            },
            WakeConditionView::SubWorkflow { workflow_id } => WorkflowView {
                wake_sub_workflow_id: Some(workflow_id),
                ..self.awake()
            },
        }
    }
}

/// Why a workflow did not change hands or state.
#[derive(Clone, Copy, Debug, PartialEq, Eq, Structural)]
pub enum TransitionError {
    /// The conditional update found no row to update: the workflow is not there to be
    /// claimed, because another worker owns it, or it has an output, or it has nothing to
    /// wake up for. The caller may try again later.
    StoreConflict,
    /// The caller does not own the workflow, or owns it no more.
    StaleOwner,
    /// The workflow is not running.
    NotRunning,
    /// The workflow is not parked.
    NotParked,
    /// The wake condition can never hold: it names no topic.
    NothingToWaitFor,
    /// The event does not make the wake condition hold.
    ConditionNotMet,
}

/// Whether a wake condition can be waited for: a set of topics must name at least one.
pub open spec fn can_wait_for(condition: WakeConditionView) -> bool {
    condition matches WakeConditionView::Signals { topics } ==> topics.len() > 0
}

/// A workflow as it is created: unowned, and waking at once.
pub open spec fn spec_created(workflow_id: u128) -> WorkflowView {
    WorkflowView {
        workflow_id,
        worker_instance_id: None,
        output: None,
        silence_ts: None,
        wake_immediate: true,
        wake_deadline_ts: None,
        wake_signals: Seq::empty(),
        wake_sub_workflow_id: None,
    }
}

/// A worker claims a workflow. Only a workflow that no worker owns, and that is there to be
/// run, can be claimed; the claimant then runs it.
pub open spec fn spec_claim(workflow: WorkflowView, worker: u128) -> Result<
    WorkflowView,
    TransitionError,
> {
    if workflow.status() is UnownedRunnable {
        Ok(WorkflowView { worker_instance_id: Some(worker), ..workflow.awake() })
    } else {
        Err(TransitionError::StoreConflict)
    }
}

/// The worker that runs a workflow parks it until `condition` holds.
pub open spec fn spec_park(
    workflow: WorkflowView,
    worker: u128,
    condition: WakeConditionView,
) -> Result<WorkflowView, TransitionError> {
    if workflow.worker_instance_id != Some(worker) {
        Err(TransitionError::StaleOwner)
    } else if !(workflow.status() is OwnedRunning) {
        Err(TransitionError::NotRunning)
    } else if !can_wait_for(condition) {
        Err(TransitionError::NothingToWaitFor)
    } else {
        Ok(workflow.waiting_for(condition))
    }
}

/// The worker that parked a workflow sees `event` and takes the workflow up again, if the
/// event makes the wake condition hold.
pub open spec fn spec_resume(workflow: WorkflowView, worker: u128, event: WakeEventView) -> Result<
    WorkflowView,
    TransitionError,
> {
    if workflow.worker_instance_id != Some(worker) {
        Err(TransitionError::StaleOwner)
    } else {
        match workflow.status() {
            Status::OwnedParked { worker: owner, condition } => if satisfies(event, condition) {
                Ok(workflow.awake())
            } else {
                Err(TransitionError::ConditionNotMet)
            },
            _ => Err(TransitionError::NotParked),
        }
    }
}

/// The worker that runs a workflow ends it with `output`.
pub open spec fn spec_terminate(workflow: WorkflowView, worker: u128, output: Seq<u8>) -> Result<
    WorkflowView,
    TransitionError,
> {
    if workflow.worker_instance_id != Some(worker) {
        Err(TransitionError::StaleOwner)
    } else if !(workflow.status() is OwnedRunning) {
        Err(TransitionError::NotRunning)
    } else {
        Ok(WorkflowView { output: Some(output), ..workflow })
    }
}

/// A workflow after it was taken from its owner: unowned, and waking at once in place of
/// whatever it waited for.
pub open spec fn released(workflow: WorkflowView) -> WorkflowView {
    WorkflowView {
        worker_instance_id: None,
        wake_immediate: true,
        wake_deadline_ts: None,
        wake_signals: Seq::empty(),
        wake_sub_workflow_id: None,
        ..workflow
    }
}

/// The row that a transition leaves: the new one where it took place, the old one where it
/// did not.
pub open spec fn row_after(
    before: WorkflowView,
    outcome: Result<WorkflowView, TransitionError>,
) -> WorkflowView {
    match outcome {
        Ok(after) => after,
        Err(_) => before,
    }
}

/// What the caller is told of a transition.
pub open spec fn told(outcome: Result<WorkflowView, TransitionError>) -> Result<
    (),
    TransitionError,
> {
    match outcome {
        Ok(_) => Ok(()),
        Err(e) => Err(e),
    }
}

/// Whether a list of topics holds `topic`.
pub fn has_topic(topics: &Vec<String>, topic: &str) -> (found: bool)
    ensures
        found == texts_of(topics@).contains(topic@),
{
    let ghost texts = texts_of(topics@);
    let mut i: usize = 0;
    while i < topics.len()
        invariant
            i <= topics.len(),
            texts == texts_of(topics@),
            forall|j: int| 0 <= j < i ==> texts[j] != topic@,
        decreases topics.len() - i,
    {
        if same_text(topics[i].as_str(), topic) {
            assert(texts[i as int] == topic@);
            return true;
        }
        i += 1;
    }
    false
}

impl Workflow {
    /// Creates the row of a new workflow: unowned, and waking at once.
    pub fn new(workflow_id: u128) -> (workflow: Workflow)
        ensures
            workflow@ == spec_created(workflow_id),
            workflow@.status() is UnownedRunnable,
            workflow@.wf(),
    {
        let workflow = Workflow {
            workflow_id,
            worker_instance_id: None,
            output: None,
            silence_ts: None,
            wake_immediate: true,
            wake_deadline_ts: None,
            wake_signals: Vec::new(),
            wake_sub_workflow_id: None,
        };
        assert(workflow@.wake_signals =~= Seq::<Seq<char>>::empty());
        workflow
    }

    /// Whether the workflow has an output.
    pub fn is_terminated(&self) -> (done: bool)
        ensures
            done == self@.status() is Terminated,
    {
        self.output.is_some()
    }

    /// Whether any wake condition is set.
    pub fn has_wake_condition(&self) -> (set: bool)
        ensures
            set == self@.has_wake_condition(),
            set == self@.condition() is Some,
    {
        self.wake_immediate || self.wake_deadline_ts.is_some() || self.wake_signals.len() > 0
            || self.wake_sub_workflow_id.is_some()
    }

    /// Whether `worker` owns the workflow.
    pub fn is_owned_by(&self, worker: u128) -> (owned: bool)
        ensures
            owned == (self@.worker_instance_id == Some(worker)),
    {
        match self.worker_instance_id {
            Some(owner) => owner == worker,
            None => false,
        }
    }

    /// Whether `event` makes the workflow's wake condition hold.
    pub fn wakes_on(&self, event: &WakeEvent) -> (wakes: bool)
        ensures
            wakes == (self@.condition() matches Some(condition) && satisfies(event@, condition)),
    {
        if self.wake_immediate {
            true
        } else if let Some(ts) = self.wake_deadline_ts {
            match event {
                WakeEvent::Clock { now } => *now >= ts,
                _ => false,
            }
        } else if self.wake_signals.len() > 0 {
            match event {
                WakeEvent::Signal { topic } => has_topic(&self.wake_signals, topic.as_str()),
                _ => false,
            }
        } else if let Some(workflow_id) = self.wake_sub_workflow_id {
            match event {
                WakeEvent::SubWorkflowCompleted { workflow_id: completed } => *completed
                    == workflow_id,
                _ => false,
            }
        } else {
            false
        }
    }

    /// Takes every wake condition off the row.
    fn clear_wake(&mut self)
        ensures
            final(self)@ == old(self)@.awake(),
    {
        self.wake_immediate = false;
        self.wake_deadline_ts = None;
        self.wake_signals = Vec::new();
        self.wake_sub_workflow_id = None;
        assert(self@.wake_signals =~= Seq::<Seq<char>>::empty());
    }

    /// A worker claims the workflow. The claim takes place only where no worker owns the
    /// workflow and it is there to be run; the row is left as it was otherwise.
    pub fn claim(&mut self, worker: u128) -> (outcome: Result<(), TransitionError>)
        ensures
            final(self)@ == row_after(old(self)@, spec_claim(old(self)@, worker)),
            outcome == told(spec_claim(old(self)@, worker)),
            outcome is Ok ==> final(self)@.status() == (Status::OwnedRunning { worker })
                && final(self)@.wf(),
    {
        if self.output.is_none() && self.worker_instance_id.is_none() && self.has_wake_condition() {
            self.clear_wake();
            self.worker_instance_id = Some(worker);
            Ok(())
        } else {
            Err(TransitionError::StoreConflict)
        }
    }

    /// The worker that runs the workflow parks it until `condition` holds.
    pub fn park(&mut self, worker: u128, condition: WakeCondition) -> (outcome: Result<
        (),
        TransitionError,
    >)
        ensures
            final(self)@ == row_after(old(self)@, spec_park(old(self)@, worker, condition@)),
            outcome == told(spec_park(old(self)@, worker, condition@)),
            outcome is Ok ==> final(self)@.status() == (Status::OwnedParked {
                worker,
                condition: condition@,
            }) && final(self)@.wf(),
    {
        if !self.is_owned_by(worker) {
            return Err(TransitionError::StaleOwner);
        }
        if self.output.is_some() || self.has_wake_condition() {
            return Err(TransitionError::NotRunning);
        }
        match condition {
            WakeCondition::Immediate => {
                self.wake_immediate = true;
            },
            WakeCondition::Deadline { ts } => {
                self.wake_deadline_ts = Some(ts);
            },
            WakeCondition::Signals { topics } => {
                if topics.len() == 0 {
                    return Err(TransitionError::NothingToWaitFor);
                }
                self.wake_signals = topics;
            },
            WakeCondition::SubWorkflow { workflow_id } => {
                self.wake_sub_workflow_id = Some(workflow_id);
            },
        }
        assert(self@ =~= old(self)@.waiting_for(condition@)) by {
            assert(old(self)@.wake_signals =~= Seq::<Seq<char>>::empty());
        }
        Ok(())
    }

    /// The worker that parked the workflow sees `event` and takes the workflow up again, if
    /// the event makes the wake condition hold.
    pub fn resume(&mut self, worker: u128, event: &WakeEvent) -> (outcome: Result<
        (),
        TransitionError,
    >)
        ensures
            final(self)@ == row_after(old(self)@, spec_resume(old(self)@, worker, event@)),
            outcome == told(spec_resume(old(self)@, worker, event@)),
            outcome is Ok ==> final(self)@.status() == (Status::OwnedRunning { worker })
                && final(self)@.wf(),
    {
        if !self.is_owned_by(worker) {
            return Err(TransitionError::StaleOwner);
        }
        if self.output.is_some() || !self.has_wake_condition() {
            return Err(TransitionError::NotParked);
        }
        if !self.wakes_on(event) {
            return Err(TransitionError::ConditionNotMet);
        }
        self.clear_wake();
        Ok(())
    }

    /// Takes the workflow from its owner, whatever state it is in: it is unowned afterwards
    /// and wakes at once. This is what the failover sweep does to the workflows of a lost
    /// worker.
    pub fn release(&mut self)
        ensures
            final(self)@ == released(old(self)@),
    {
        self.worker_instance_id = None;
        self.wake_immediate = true;
        self.wake_deadline_ts = None;
        self.wake_signals = Vec::new();
        self.wake_sub_workflow_id = None;
        assert(self@.wake_signals =~= Seq::<Seq<char>>::empty());
    }

    /// The worker that runs the workflow ends it with `output`. A workflow that has an
    /// output changes no more.
    pub fn terminate(&mut self, worker: u128, output: Vec<u8>) -> (outcome: Result<
        (),
        TransitionError,
    >)
        ensures
            final(self)@ == row_after(old(self)@, spec_terminate(old(self)@, worker, output@)),
            outcome == told(spec_terminate(old(self)@, worker, output@)),
            outcome is Ok ==> final(self)@.status() is Terminated,
    {
        if !self.is_owned_by(worker) {
            return Err(TransitionError::StaleOwner);
        }
        if self.output.is_some() || self.has_wake_condition() {
            return Err(TransitionError::NotRunning);
        }
        self.output = Some(output);
        Ok(())
    }
}

/// A workflow that has an output is done for good: no worker can claim, park, resume or end
/// it again.
pub proof fn lemma_terminated_is_final(
    workflow: WorkflowView,
    worker: u128,
    condition: WakeConditionView,
    event: WakeEventView,
    output: Seq<u8>,
)
    requires
        workflow.status() is Terminated,
    ensures
        spec_claim(workflow, worker) is Err,
        spec_park(workflow, worker, condition) is Err,
        spec_resume(workflow, worker, event) is Err,
        spec_terminate(workflow, worker, output) is Err,
{
}

/// A workflow has one owner at most, and only its owner moves it: another worker cannot
/// claim an owned workflow, and what it tries on it is refused as coming from a stale owner.
pub proof fn lemma_only_the_owner_moves_a_workflow(
    workflow: WorkflowView,
    owner: u128,
    other: u128,
    condition: WakeConditionView,
    event: WakeEventView,
    output: Seq<u8>,
)
    requires
        workflow.worker_instance_id == Some(owner),
        other != owner,
    ensures
        spec_claim(workflow, other) == Err::<WorkflowView, TransitionError>(
            TransitionError::StoreConflict,
        ),
        spec_park(workflow, other, condition) == Err::<WorkflowView, TransitionError>(
            TransitionError::StaleOwner,
        ),
        spec_resume(workflow, other, event) == Err::<WorkflowView, TransitionError>(
            TransitionError::StaleOwner,
        ),
        spec_terminate(workflow, other, output) == Err::<WorkflowView, TransitionError>(
            TransitionError::StaleOwner,
        ),
{
}

/// Every transition that takes place leads from one of the four states to the next, as the
/// state machine says: a claim from unowned and runnable to running, a park from running to
/// parked on the condition given, a resume from parked to running, an end from running to
/// terminated. The owner stays the same unless the workflow is claimed, and a row that was
/// well formed stays so.
pub proof fn lemma_transitions_follow_the_state_machine(
    workflow: WorkflowView,
    worker: u128,
    condition: WakeConditionView,
    event: WakeEventView,
    output: Seq<u8>,
)
    ensures
        spec_claim(workflow, worker) matches Ok(after) ==> workflow.status() is UnownedRunnable
            && after.status() == (Status::OwnedRunning { worker }) && after.wf(),
        spec_park(workflow, worker, condition) matches Ok(after) ==> workflow.status() == (
        Status::OwnedRunning { worker }) && after.status() == (Status::OwnedParked {
            worker,
            condition,
        }) && after.wf(),
        spec_resume(workflow, worker, event) matches Ok(after) ==> (
        workflow.status() matches Status::OwnedParked { worker: owner, condition: awaited }
            && owner == worker && satisfies(event, awaited)) && after.status() == (
        Status::OwnedRunning { worker }) && after.wf(),
        spec_terminate(workflow, worker, output) matches Ok(after) ==> workflow.status() == (
        Status::OwnedRunning { worker }) && after.status() is Terminated,
{
    if spec_park(workflow, worker, condition) is Ok {
        assert(workflow.awake().wake_signals.len() == 0);
    }
}

} // verus!
