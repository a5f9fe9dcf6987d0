//! What an operation knows of the request it runs for, and what a workflow asks of an error.

use vstd::prelude::*;

verus! {

/// How long an operation may take, in milliseconds.
pub const OPERATION_TIMEOUT: u64 = 60000;

/// An error of the workflow layer, as far as retrying is concerned.
#[derive(Clone, Copy, Debug, PartialEq, Eq, Structural)]
pub struct WorkflowError {
    /// Whether the failed step may be tried again.
    pub recoverable: bool,
}

impl WorkflowError {
    /// Whether the failed step may be tried again.
    pub fn is_recoverable(&self) -> (recoverable: bool)
        ensures
            recoverable == self.recoverable,
    {
        self.recoverable
    }
}

/// An error as it travels up through the layers.
#[derive(Clone, Copy, Debug, PartialEq, Eq, Structural)]
pub enum GlobalError {
    /// An error passed through as it was raised; `workflow` is set where it was raised by
    /// the workflow layer.
    Raw { workflow: Option<WorkflowError> },
    /// An error that was given a code and a message on the way.
    Formatted,
}

/// Allows for checking if an error returned from an activity is recoverable.
pub trait GlobalErrorExt {
    /// Whether this is an error of the workflow layer that allows another try.
    spec fn spec_is_workflow_recoverable(&self) -> bool;

    /// Whether this is an error of the workflow layer that allows another try.
    fn is_workflow_recoverable(&self) -> (recoverable: bool)
        ensures
            recoverable == self.spec_is_workflow_recoverable(),
    ;
}

impl GlobalErrorExt for GlobalError {
    open spec fn spec_is_workflow_recoverable(&self) -> bool {
        match self {
            GlobalError::Raw { workflow: Some(error) } => error.recoverable,
            _ => false,
        }
    }

    fn is_workflow_recoverable(&self) -> (recoverable: bool) {
        match self {
            GlobalError::Raw { workflow: Some(error) } => error.is_recoverable(),
            _ => false,
        }
    }
}

impl<T> GlobalErrorExt for Result<T, GlobalError> {
    open spec fn spec_is_workflow_recoverable(&self) -> bool {
        match self {
            Err(error) => error.spec_is_workflow_recoverable(),
            Ok(_) => false,
        }
    }

    fn is_workflow_recoverable(&self) -> (recoverable: bool) {
        match self {
            Err(error) => error.is_workflow_recoverable(),
            Ok(_) => false,
        }
    }
}

/// What an operation knows of the request it runs for.
#[derive(Clone, Copy, Debug)]
pub struct OperationCtx {
    ray_id: u128,
    req_id: u128,
    name: &'static str,
    ts: i64,
    req_ts: i64,
    from_workflow: bool,
}

/// An `OperationCtx` as plain values.
pub struct OperationCtxView {
    pub ray_id: u128,
    pub req_id: u128,
    pub name: Seq<char>,
    pub ts: i64,
    pub req_ts: i64,
    pub from_workflow: bool,
}

impl View for OperationCtx {
    type V = OperationCtxView;

    closed spec fn view(&self) -> OperationCtxView {
        OperationCtxView {
            ray_id: self.ray_id,
            req_id: self.req_id,
            name: self.name@,
            ts: self.ts,
            req_ts: self.req_ts,
            from_workflow: self.from_workflow,
        }
    }
}

/// The time between the moment a request was published and the moment it was taken up; it
/// stays within the bounds of its type where the clocks are far apart.
pub open spec fn spec_req_dt(ts: i64, req_ts: i64) -> i64 {
    if ts - req_ts > i64::MAX {
        i64::MAX
    } else if ts - req_ts < i64::MIN {
        i64::MIN
    } else {
        (ts - req_ts) as i64
    }
}

impl OperationCtx {
    /// Sets up the context of an operation named `name` that starts at `ts` under the fresh
    /// request id `req_id`, for a request that was published at `req_ts` and is traced under
    /// `ray_id`.
    pub fn new(
        ray_id: u128,
        req_id: u128,
        ts: i64,
        req_ts: i64,
        from_workflow: bool,
        name: &'static str,
    ) -> (ctx: OperationCtx)
        ensures
            ctx@ == (OperationCtxView { ray_id, req_id, name: name@, ts, req_ts, from_workflow }),
    {
        OperationCtx { ray_id, req_id, name, ts, req_ts, from_workflow }
    }

    /// The name of the operation.
    pub fn name(&self) -> (name: &str)
        ensures
            name@ == self@.name,
    {
        self.name
    }

    /// The id of this run of the operation.
    pub fn req_id(&self) -> (req_id: u128)
        ensures
            req_id == self@.req_id,
    {
        self.req_id
    }

    /// The id under which the whole request is traced.
    pub fn ray_id(&self) -> (ray_id: u128)
        ensures
            ray_id == self@.ray_id,
    {
        self.ray_id
    }

    /// Timestamp at which the request started.
    pub fn ts(&self) -> (ts: i64)
        ensures
            ts == self@.ts,
    {
        self.ts
    }

    /// Timestamp at which the request was published.
    pub fn req_ts(&self) -> (req_ts: i64)
        ensures
            req_ts == self@.req_ts,
    {
        self.req_ts
    }

    /// Time between when the timestamp was processed and when it was published.
    pub fn req_dt(&self) -> (dt: i64)
        ensures
            dt == spec_req_dt(self@.ts, self@.req_ts),
    {
        if self.req_ts >= 0 {
            if self.ts < i64::MIN + self.req_ts {
                i64::MIN
            } else {
                self.ts - self.req_ts
            }
        } else if self.ts > i64::MAX + self.req_ts {
            i64::MAX
        } else {
            self.ts - self.req_ts
        }
    }

    /// Whether the operation was started by a workflow.
    pub fn from_workflow(&self) -> (from_workflow: bool)
        ensures
            from_workflow == self@.from_workflow,
    {
        self.from_workflow
    }
}

} // verus!
