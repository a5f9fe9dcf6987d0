//! The durable record of clients: one row per client, created once, soft-deleted and revived.
//!
//! Registering a client is one write that inserts the row or, where the row is there already,
//! clears its delete mark. What the store held before that write decides whether a workflow
//! has to be started for the client.

use std::collections::HashMap;
use vstd::prelude::*;
use vstd::std_specs::hash::*;

use crate::handshake::ClientFlavor;

verus! {

/// Whether registering a client must start a workflow for it, given what the store held before
/// the write: a workflow is started for a client that was never seen, and for one that had been
/// soft-deleted.
pub open spec fn dispatch_required(existed: bool, deleted: bool) -> bool {
    !existed || deleted
}

/// Decides from the two facts returned by the store's insert-or-revive write whether a new
/// workflow must be dispatched.
pub fn needs_dispatch(existed: bool, deleted: bool) -> (dispatch: bool)
    ensures
        dispatch == dispatch_required(existed, deleted),
{
    !existed || deleted
}

/// One client as the store keeps it.
#[derive(Clone, Copy, Debug, PartialEq, Eq, Structural)]
pub struct ClientRow {
    pub client_id: u128,
    pub datacenter_id: u128,
    pub flavor: ClientFlavor,
    /// When the row was created, in milliseconds.
    pub create_ts: i64,
    /// When the client was last heard of, in milliseconds.
    pub last_ping_ts: i64,
    /// When the client was soft-deleted, if it was.
    pub delete_ts: Option<i64>,
}

/// Whether the store holds a row for `client_id`.
pub open spec fn exists_in(rows: Map<u128, ClientRow>, client_id: u128) -> bool {
    rows.contains_key(client_id)
}

/// Whether the store holds a row for `client_id` that bears a delete mark.
pub open spec fn deleted_in(rows: Map<u128, ClientRow>, client_id: u128) -> bool {
    rows.contains_key(client_id) && rows[client_id].delete_ts is Some
}

/// The store after a client was registered at `now`. A client that has no row gets one; a
/// row that is there keeps what it holds and loses its delete mark.
pub open spec fn spec_upsert(
    rows: Map<u128, ClientRow>,
    client_id: u128,
    datacenter_id: u128,
    flavor: ClientFlavor,
    now: i64,
) -> Map<u128, ClientRow> {
    if rows.contains_key(client_id) {
        rows.insert(client_id, ClientRow { delete_ts: None, ..rows[client_id] })
    } else {
        rows.insert(
            client_id,
            ClientRow {
                client_id,
                datacenter_id,
                flavor,
                create_ts: now,
                last_ping_ts: now,
                delete_ts: None,
            },
        )
    }
}

/// Whether registering `client_id` in this store calls for a new workflow.
pub open spec fn spec_dispatch(rows: Map<u128, ClientRow>, client_id: u128) -> bool {
    dispatch_required(exists_in(rows, client_id), deleted_in(rows, client_id))
}

/// The store after the clients in `client_ids` were marked as heard of at `ts`. Clients
/// without a row get none.
pub open spec fn spec_touch(rows: Map<u128, ClientRow>, client_ids: Set<u128>, ts: i64) -> Map<
    u128,
    ClientRow,
> {
    Map::new(
        |client_id: u128| rows.contains_key(client_id),
        |client_id: u128|
            if client_ids.contains(client_id) {
                ClientRow { last_ping_ts: ts, ..rows[client_id] }
            } else {
                rows[client_id]
            },
    )
}

/// The store after `client_id` was soft-deleted at `now`. Only a row without a delete mark
/// takes one.
pub open spec fn spec_soft_delete(rows: Map<u128, ClientRow>, client_id: u128, now: i64) -> Map<
    u128,
    ClientRow,
> {
    if exists_in(rows, client_id) && !deleted_in(rows, client_id) {
        rows.insert(client_id, ClientRow { delete_ts: Some(now), ..rows[client_id] })
    } else {
        rows
    }
}

/// Whether every row is filed under the client it describes.
pub open spec fn keyed_by_client(rows: Map<u128, ClientRow>) -> bool {
    forall|client_id: u128| #[trigger]
        rows.contains_key(client_id) ==> rows[client_id].client_id == client_id
}

/// A store of clients, held in memory.
pub struct ClientRegistry {
    rows: HashMap<u128, ClientRow>,
}

impl View for ClientRegistry {
    type V = Map<u128, ClientRow>;

    closed spec fn view(&self) -> Map<u128, ClientRow> {
        self.rows@
    }
}

impl ClientRegistry {
    /// A store without clients.
    pub fn new() -> (registry: ClientRegistry)
        ensures
            registry@ == Map::<u128, ClientRow>::empty(),
    {
        ClientRegistry { rows: HashMap::new() }
    }

    /// The row of `client_id`, if the store has one.
    pub fn get(&self, client_id: u128) -> (row: Option<ClientRow>)
        ensures
            row == (if self@.contains_key(client_id) {
                Some(self@[client_id])
            } else {
                None
            }),
    {
        broadcast use group_hash_axioms;

        match self.rows.get(&client_id) {
            Some(row) => Some(*row),
            None => None,
        }
    }

    /// Registers a client at `now`: inserts its row or clears the delete mark of the row that
    /// is there. Says whether a workflow has to be dispatched for the client, which is so
    /// when the client had no row or had been soft-deleted.
    pub fn upsert_client(
        &mut self,
        client_id: u128,
        datacenter_id: u128,
        flavor: ClientFlavor,
        now: i64,
    ) -> (dispatch: bool)
        ensures
            final(self)@ == spec_upsert(old(self)@, client_id, datacenter_id, flavor, now),
            dispatch == spec_dispatch(old(self)@, client_id),
    {
        broadcast use group_hash_axioms;

        let found = match self.rows.get(&client_id) {
            Some(row) => Some(*row),
            None => None,
        };
        let (existed, deleted) = match found {
            Some(row) => {
                self.rows.insert(client_id, ClientRow { delete_ts: None, ..row });
                (true, row.delete_ts.is_some())
            },
            None => {
                self.rows.insert(
                    client_id,
                    ClientRow {
                        client_id,
                        datacenter_id,
                        flavor,
                        create_ts: now,
                        last_ping_ts: now,
                        delete_ts: None,
                    },
                );
                (false, false)
            },
        };
        needs_dispatch(existed, deleted)
    }

    /// Soft-deletes a client at `now`. Says whether the row took the mark: a client without
    /// a row, or one that bears the mark already, is left as it is.
    pub fn soft_delete(&mut self, client_id: u128, now: i64) -> (marked: bool)
        ensures
            final(self)@ == spec_soft_delete(old(self)@, client_id, now),
            marked == (exists_in(old(self)@, client_id) && !deleted_in(old(self)@, client_id)),
    {
        broadcast use group_hash_axioms;

        let live = match self.rows.get(&client_id) {
            Some(row) => if row.delete_ts.is_none() {
                Some(*row)
            } else {
                None
            },
            None => None,
        };
        match live {
            Some(row) => {
                self.rows.insert(client_id, ClientRow { delete_ts: Some(now), ..row });
                true
            },
            None => false,
        }
    }

    /// Marks every client in `client_ids` that has a row as heard of at `ts`, in one write.
    pub fn touch(&mut self, client_ids: &Vec<u128>, ts: i64)
        ensures
            final(self)@ == spec_touch(old(self)@, client_ids@.to_set(), ts),
    {
        broadcast use group_hash_axioms;

        let ghost before = self.rows@;
        let mut i: usize = 0;
        while i < client_ids.len()
            invariant
                i <= client_ids.len(),
                self.rows@ == spec_touch(before, client_ids@.take(i as int).to_set(), ts),
            decreases client_ids.len() - i,
        {
            let client_id = client_ids[i];
            let ghost done = client_ids@.take(i as int);
            let ghost next = client_ids@.take(i + 1);
            proof {
                assert(next == done.push(client_id));
                assert forall|k: u128| next.to_set().contains(k) <==> (done.to_set().contains(k)
                    || k == client_id) by {
                    if done.contains(k) {
                        let j = choose|j: int| 0 <= j < done.len() && done[j] == k;
                        assert(next[j] == k);
                    }
                    if k == client_id {
                        assert(next[i as int] == k);
                    }
                }
            }
            let found = match self.rows.get(&client_id) {
                Some(row) => Some(*row),
                None => None,
            };
            if let Some(row) = found {
                self.rows.insert(client_id, ClientRow { last_ping_ts: ts, ..row });
            }
            assert(self.rows@ =~= spec_touch(before, next.to_set(), ts));
            i += 1;
        }
        proof {
            assert(client_ids@.take(client_ids.len() as int) == client_ids@);
            if client_ids.len() == 0 {
                assert(client_ids@.to_set() =~= Set::<u128>::empty());
            }
        }
    }
}

/// Registering is idempotent. Right after a client was registered, registering it once more
/// calls for no workflow and leaves the store as it is; and the first of the two calls for one
/// exactly when the client had no row or bore a delete mark.
pub proof fn lemma_upsert_twice_dispatches_once(
    rows: Map<u128, ClientRow>,
    client_id: u128,
    datacenter_id: u128,
    flavor: ClientFlavor,
    first: i64,
    second: i64,
)
    ensures
        ({
            let once = spec_upsert(rows, client_id, datacenter_id, flavor, first);
            &&& spec_dispatch(rows, client_id) == (!exists_in(rows, client_id) || deleted_in(
                rows,
                client_id,
            ))
            &&& !spec_dispatch(once, client_id)
            &&& spec_upsert(once, client_id, datacenter_id, flavor, second) == once
        }),
{
    let once = spec_upsert(rows, client_id, datacenter_id, flavor, first);
    assert(spec_upsert(once, client_id, datacenter_id, flavor, second) =~= once);
}

/// Every row is filed under the client it describes, and stays so: an empty store is filed
/// right, and no write files a row wrong.
pub proof fn lemma_rows_stay_keyed_by_client(
    rows: Map<u128, ClientRow>,
    client_id: u128,
    datacenter_id: u128,
    flavor: ClientFlavor,
    now: i64,
    client_ids: Set<u128>,
)
    requires
        keyed_by_client(rows),
    ensures
        keyed_by_client(Map::<u128, ClientRow>::empty()),
        keyed_by_client(spec_upsert(rows, client_id, datacenter_id, flavor, now)),
        keyed_by_client(spec_soft_delete(rows, client_id, now)),
        keyed_by_client(spec_touch(rows, client_ids, now)),
{
}

/// A client that registers stays registered: whatever the store held, it holds a row without
/// a delete mark for the client afterwards, and no other client's row has changed.
pub proof fn lemma_upsert_leaves_live_row(
    rows: Map<u128, ClientRow>,
    client_id: u128,
    datacenter_id: u128,
    flavor: ClientFlavor,
    now: i64,
)
    ensures
        ({
            let after = spec_upsert(rows, client_id, datacenter_id, flavor, now);
            &&& exists_in(after, client_id) && !deleted_in(after, client_id)
            &&& forall|other: u128|
                other != client_id ==> (exists_in(after, other) == exists_in(rows, other))
                    && (exists_in(rows, other) ==> #[trigger] after[other] == rows[other])
        }),
{
}

} // verus!
