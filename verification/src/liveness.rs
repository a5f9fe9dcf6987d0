//! The liveness sweeper: heartbeats are not written one by one but gathered and written in
//! batches.
//!
//! A liveness signal only sets a flag on its connection. On a fixed interval the sweeper
//! takes all flags at once and writes one timestamp for every client that had its flag set.

use vstd::prelude::*;

use crate::directory::{all_cleared, dirty_clients, Directory};

verus! {

/// How long the sweeper rests between two batches, in milliseconds.
pub const UPDATE_PING_INTERVAL: u64 = 3000;

/// How long a background loop that has stopped rests before it is started again, in
/// milliseconds.
pub const RESTART_DELAY: u64 = 2000;

/// One batched write: these clients were heard of at `ts`.
#[derive(Debug)]
pub struct PingWrite {
    pub client_ids: Vec<u128>,
    pub ts: i64,
}

/// Takes the liveness flags of all connections and makes the write that is due for them at
/// `now`. Every flag is clear afterwards. Where no flag was set there is nothing to write.
pub fn collect_pings(directory: &mut Directory, now: i64) -> (write: Option<PingWrite>)
    ensures
        final(directory)@ == all_cleared(old(directory)@),
        write is None <==> dirty_clients(old(directory)@) == Set::<u128>::empty(),
        write matches Some(w) ==> {
            &&& w.ts == now
            &&& w.client_ids@.no_duplicates()
            &&& w.client_ids@.to_set() == dirty_clients(old(directory)@)
        },
{
    let client_ids = directory.snapshot_dirty();
    if client_ids.len() == 0 {
        assert(client_ids@.to_set() =~= Set::<u128>::empty());
        None
    } else {
        assert(client_ids@.to_set().contains(client_ids@[0]));
        Some(PingWrite { client_ids, ts: now })
    }
}

/// How a background loop came to stop.
#[derive(Clone, Copy, Debug, PartialEq, Eq, Structural)]
pub enum LoopExit {
    /// The loop returned, which it never should.
    Returned,
    /// The loop failed.
    Failed,
}

/// How loud the stop of a background loop is reported.
#[derive(Clone, Copy, Debug, PartialEq, Eq, Structural)]
pub enum Severity {
    Warning,
    Error,
}

/// What the supervisor of a background loop does when the loop has stopped.
#[derive(Clone, Copy, Debug, PartialEq, Eq, Structural)]
pub struct Restart {
    /// How the stop is reported.
    pub severity: Severity,
    /// How long to rest before the loop is started again, in milliseconds.
    pub delay: u64,
}

/// Decides what follows the stop of a background loop. The loop is always started again
/// after a fixed rest: a sweeper that stayed down would switch off liveness tracking or
/// failover for the whole fleet.
pub fn restart_after(exit: LoopExit) -> (restart: Restart)
    ensures
        restart.delay == RESTART_DELAY,
        restart.severity == (match exit {
            LoopExit::Returned => Severity::Warning,
            LoopExit::Failed => Severity::Error,
        }),
{
    Restart {
        severity: match exit {
            LoopExit::Returned => Severity::Warning,
            LoopExit::Failed => Severity::Error,
        },
        delay: RESTART_DELAY,
    }
}

} // verus!
