//! The directory of live connections: for each client the one connection that is live for it.
//!
//! A connection is known by the handle of its outbound sink. The directory lives in memory
//! only; it is the single place that says which socket a client is reached through.

use std::collections::HashMap;
use vstd::prelude::*;
use vstd::std_specs::hash::*;
use vstd::std_specs::iter::IteratorSpec;

verus! {

/// One live transport session as the directory knows it.
#[derive(Clone, Copy, Debug, PartialEq, Eq, Structural)]
pub struct Connection {
    /// The handle of the socket's outbound sink.
    pub conn_id: u64,
    /// The protocol version settled at the handshake.
    pub protocol_version: u16,
    /// Set by a liveness signal from the client, cleared when the sweeper takes it.
    pub needs_ping_update: bool,
}

/// Why the gateway closes a socket. Every close it sends bears the normal close code.
#[derive(Clone, Copy, Debug, PartialEq, Eq, Structural)]
pub enum CloseReason {
    /// A newer connection of the same client took its place.
    Replaced,
    /// The connection's own forwarding loop ended.
    LoopEnded,
    /// The client's workflow asked for the socket to be closed.
    Requested,
    /// The gateway shuts down.
    Shutdown,
}

/// The close code of a normal closure.
pub const CLOSE_NORMAL: u16 = 1000;

impl CloseReason {
    /// The close code that goes with the reason: always the normal one.
    pub fn code(&self) -> (code: u16)
        ensures
            code == CLOSE_NORMAL,
    {
        CLOSE_NORMAL
    }

    /// The reason as the close frame spells it.
    pub fn text(&self) -> (text: &'static str)
        ensures
            text@ == self.spec_text(),
    {
        match self {
            CloseReason::Replaced => "client already connected, closing old connection",
            CloseReason::LoopEnded => "handle_connection_inner event loop closed",
            CloseReason::Requested => "received close ws event",
            CloseReason::Shutdown => "gateway shutting down",
        }
    }

    /// The reason as the close frame spells it.
    pub open spec fn spec_text(self) -> Seq<char> {
        match self {
            CloseReason::Replaced => "client already connected, closing old connection"@,
            CloseReason::LoopEnded => "handle_connection_inner event loop closed"@,
            CloseReason::Requested => "received close ws event"@,
            CloseReason::Shutdown => "gateway shutting down"@,
        }
    }
}

/// An order to send a close frame with the normal close code to one socket.
#[derive(Clone, Copy, Debug, PartialEq, Eq, Structural)]
pub struct CloseDirective {
    pub conn_id: u64,
    pub reason: CloseReason,
}

/// `conn` with its liveness flag cleared.
pub open spec fn cleared(conn: Connection) -> Connection {
    Connection { needs_ping_update: false, ..conn }
}

/// `conn` with its liveness flag set.
pub open spec fn marked(conn: Connection) -> Connection {
    Connection { needs_ping_update: true, ..conn }
}

/// The directory after a connection of `client_id` was admitted: it holds that connection for
/// the client, with a clear liveness flag, and every other client's entry as before.
pub open spec fn spec_insert(
    conns: Map<u128, Connection>,
    client_id: u128,
    conn_id: u64,
    protocol_version: u16,
) -> Map<u128, Connection> {
    conns.insert(client_id, Connection { conn_id, protocol_version, needs_ping_update: false })
}

/// The connection that the directory holds for `client_id`, if it holds one.
pub open spec fn spec_current(conns: Map<u128, Connection>, client_id: u128) -> Option<
    Connection,
> {
    if conns.contains_key(client_id) {
        Some(conns[client_id])
    } else {
        None
    }
}

/// Whether `conn_id` is the connection that the directory holds for `client_id`.
pub open spec fn is_current(conns: Map<u128, Connection>, client_id: u128, conn_id: u64) -> bool {
    conns.contains_key(client_id) && conns[client_id].conn_id == conn_id
}

/// The directory after `conn_id` was taken out, if it was the client's current connection.
pub open spec fn spec_remove_if_same(
    conns: Map<u128, Connection>,
    client_id: u128,
    conn_id: u64,
) -> Map<u128, Connection> {
    if is_current(conns, client_id, conn_id) {
        conns.remove(client_id)
    } else {
        conns
    }
}

/// The directory after a liveness signal arrived on `conn_id`.
pub open spec fn spec_mark_ping(
    conns: Map<u128, Connection>,
    client_id: u128,
    conn_id: u64,
) -> Map<u128, Connection> {
    if is_current(conns, client_id, conn_id) {
        conns.insert(client_id, marked(conns[client_id]))
    } else {
        conns
    }
}

/// The clients whose connection has signalled liveness since the last sweep.
pub open spec fn dirty_clients(conns: Map<u128, Connection>) -> Set<u128> {
    Set::new(
        |client_id: u128| conns.contains_key(client_id) && conns[client_id].needs_ping_update,
    )
}

/// The directory with every liveness flag cleared.
pub open spec fn all_cleared(conns: Map<u128, Connection>) -> Map<u128, Connection> {
    Map::new(
        |client_id: u128| conns.contains_key(client_id),
        |client_id: u128| cleared(conns[client_id]),
    )
}

/// Connections do not get in each other's way: whatever happens to the connection of one
/// client (it enters, it leaves, it signals liveness) leaves the entry of every other client
/// as it was.
pub proof fn lemma_other_clients_are_untouched(
    conns: Map<u128, Connection>,
    client_id: u128,
    conn_id: u64,
    protocol_version: u16,
    other: u128,
)
    requires
        other != client_id,
    ensures
        spec_current(spec_insert(conns, client_id, conn_id, protocol_version), other)
            == spec_current(conns, other),
        spec_current(spec_remove_if_same(conns, client_id, conn_id), other) == spec_current(
            conns,
            other,
        ),
        spec_current(spec_mark_ping(conns, client_id, conn_id), other) == spec_current(
            conns,
            other,
        ),
{
}

/// A liveness signal is written once. A signal on a client's current connection puts the
/// client, and no other, among those that the next sweep writes; a signal on any other
/// connection changes nothing; and once the sweep has taken the flags, none is left, while
/// every connection is still there.
pub proof fn lemma_ping_is_taken_once(conns: Map<u128, Connection>, client_id: u128, conn_id: u64)
    ensures
        is_current(conns, client_id, conn_id) ==> dirty_clients(
            spec_mark_ping(conns, client_id, conn_id),
        ) == dirty_clients(conns).insert(client_id),
        !is_current(conns, client_id, conn_id) ==> spec_mark_ping(conns, client_id, conn_id)
            == conns,
        dirty_clients(all_cleared(conns)) == Set::<u128>::empty(),
        all_cleared(conns).dom() == conns.dom(),
        forall|other: u128| #[trigger]
            conns.contains_key(other) ==> all_cleared(conns)[other].conn_id
                == conns[other].conn_id && all_cleared(conns)[other].protocol_version
                == conns[other].protocol_version,
{
    if is_current(conns, client_id, conn_id) {
        assert(dirty_clients(spec_mark_ping(conns, client_id, conn_id)) =~= dirty_clients(
            conns,
        ).insert(client_id));
    }
    assert(dirty_clients(all_cleared(conns)) =~= Set::<u128>::empty());
    assert(all_cleared(conns).dom() =~= conns.dom());
}

/// The clients of a list of directory entries, in order.
pub open spec fn entry_clients(entries: Seq<(u128, Connection)>) -> Seq<u128> {
    Seq::new(entries.len(), |i: int| entries[i].0)
}

/// Whether `entries` lists what `conns` holds: every client once, with its connection.
pub open spec fn holds_each_once(
    entries: Seq<(u128, Connection)>,
    conns: Map<u128, Connection>,
) -> bool {
    &&& entry_clients(entries).no_duplicates()
    &&& entry_clients(entries).to_set() == conns.dom()
    &&& forall|i: int|
        0 <= i < entries.len() ==> (#[trigger] entries[i]).1 == conns[entries[i].0]
}

/// The live connections of a gateway, by client.
pub struct Directory {
    conns: HashMap<u128, Connection>,
}

impl View for Directory {
    type V = Map<u128, Connection>;

    closed spec fn view(&self) -> Map<u128, Connection> {
        self.conns@
    }
}

impl Directory {
    /// A directory without connections.
    pub fn new() -> (directory: Directory)
        ensures
            directory@ == Map::<u128, Connection>::empty(),
    {
        Directory { conns: HashMap::new() }
    }

    /// The number of live connections.
    pub fn len(&self) -> (n: usize)
        ensures
            n == self@.len(),
            self@.dom().finite(),
    {
        broadcast use group_hash_axioms;

        self.conns.len()
    }

    /// The connection that is live for `client_id`, if one is.
    pub fn get(&self, client_id: u128) -> (conn: Option<Connection>)
        ensures
            conn == spec_current(self@, client_id),
    {
        broadcast use group_hash_axioms;

        match self.conns.get(&client_id) {
            Some(conn) => Some(*conn),
            None => None,
        }
    }

    /// Makes `conn_id` the live connection of `client_id` and hands back the connection it
    /// replaces, which the caller has to close. The last one admitted wins.
    pub fn insert(&mut self, client_id: u128, conn_id: u64, protocol_version: u16) -> (evicted:
        Option<Connection>)
        ensures
            final(self)@ == spec_insert(old(self)@, client_id, conn_id, protocol_version),
            evicted == spec_current(old(self)@, client_id),
    {
        broadcast use group_hash_axioms;

        self.conns.insert(
            client_id,
            Connection { conn_id, protocol_version, needs_ping_update: false },
        )
    }

    /// Takes the connection of `client_id` out of the directory if it still is `conn_id`, and
    /// hands it back. A connection that was already replaced leaves its successor in place.
    pub fn remove_if_same(&mut self, client_id: u128, conn_id: u64) -> (removed: Option<
        Connection,
    >)
        ensures
            final(self)@ == spec_remove_if_same(old(self)@, client_id, conn_id),
            removed == (if is_current(old(self)@, client_id, conn_id) {
                Some(old(self)@[client_id])
            } else {
                None
            }),
    {
        broadcast use group_hash_axioms;

        let same = match self.conns.get(&client_id) {
            Some(conn) => conn.conn_id == conn_id,
            None => false,
        };
        if same {
            self.conns.remove(&client_id)
        } else {
            None
        }
    }

    /// Records a liveness signal that arrived on `conn_id`. Says whether the connection still
    /// is the client's current one; a signal on a replaced connection is dropped.
    pub fn mark_ping(&mut self, client_id: u128, conn_id: u64) -> (marked: bool)
        ensures
            final(self)@ == spec_mark_ping(old(self)@, client_id, conn_id),
            marked == is_current(old(self)@, client_id, conn_id),
    {
        broadcast use group_hash_axioms;

        let current = match self.conns.get(&client_id) {
            Some(conn) => if conn.conn_id == conn_id {
                Some(*conn)
            } else {
                None
            },
            None => None,
        };
        match current {
            Some(conn) => {
                self.conns.insert(client_id, Connection { needs_ping_update: true, ..conn });
                assert(self.conns@ == spec_mark_ping(old(self)@, client_id, conn_id));
                true
            },
            None => false,
        }
    }

    /// The clients that have a live connection, each once, in no particular order.
    pub fn clients(&self) -> (clients: Vec<u128>)
        ensures
            clients@.to_set() == self@.dom(),
            clients@.no_duplicates(),
    {
        broadcast use group_hash_axioms;

        let mut clients: Vec<u128> = Vec::new();
        let ghost keys = self.conns.keys().remaining();
        proof {
            axiom_spec_keys_iter(&self.conns);
        }
        for client_id in it: self.conns.keys()
            invariant
                it.seq() == keys,
                it.index() == clients@.len(),
                clients@ == keys.take(clients@.len() as int).unref(),
        {
            clients.push(*client_id);
            assert(keys.take(it.index() + 1) == keys.take(it.index() as int).push(
                keys[it.index() as int],
            ));
        }
        proof {
            assert(keys.take(clients@.len() as int) == keys);
            assert forall|i: int, j: int|
                0 <= i < clients@.len() && 0 <= j < clients@.len() && i != j implies clients@[i]
                != clients@[j] by {
                assert(keys[i] != keys[j]);
            }
        }
        clients
    }

    /// Takes the liveness flags: hands back the clients whose connection has signalled
    /// liveness since the last call, each once, and clears every flag.
    pub fn snapshot_dirty(&mut self) -> (clients: Vec<u128>)
        ensures
            clients@.to_set() == dirty_clients(old(self)@),
            clients@.no_duplicates(),
            final(self)@ == all_cleared(old(self)@),
    {
        broadcast use group_hash_axioms;

        let keys = self.clients();
        let ghost before = self.conns@;
        let mut dirty: Vec<u128> = Vec::new();
        let mut i: usize = 0;
        while i < keys.len()
            invariant
                i <= keys.len(),
                keys@.no_duplicates(),
                keys@.to_set() == before.dom(),
                self.conns@.dom() == before.dom(),
                forall|k: u128| #[trigger]
                    before.contains_key(k) ==> self.conns@[k] == (if keys@.take(i as int).contains(
                        k,
                    ) {
                        cleared(before[k])
                    } else {
                        before[k]
                    }),
                dirty@.no_duplicates(),
                forall|k: u128| #[trigger]
                    dirty@.contains(k) <==> keys@.take(i as int).contains(k)
                        && before[k].needs_ping_update,
            decreases keys.len() - i,
        {
            let client_id = keys[i];
            let ghost done = keys@.take(i as int);
            let ghost next = keys@.take(i + 1);
            proof {
                assert(next == done.push(client_id));
                assert(keys@.to_set().contains(client_id));
                assert(before.contains_key(client_id));
                assert(!done.contains(client_id)) by {
                    if done.contains(client_id) {
                        let j = choose|j: int| 0 <= j < done.len() && done[j] == client_id;
                        assert(keys@[j] == keys@[i as int]);
                    }
                }
                assert forall|k: u128|
                    next.contains(k) <==> (done.contains(k) || k == client_id) by {
                    if done.contains(k) {
                        let j = choose|j: int| 0 <= j < done.len() && done[j] == k;
                        assert(next[j] == k);
                    }
                    if k == client_id {
                        assert(next[i as int] == k);
                    }
                }
            }
            let flagged = match self.conns.get(&client_id) {
                Some(conn) => if conn.needs_ping_update {
                    Some(*conn)
                } else {
                    None
                },
                None => None,
            };
            if let Some(conn) = flagged {
                self.conns.insert(client_id, Connection { needs_ping_update: false, ..conn });
                let ghost earlier = dirty@;
                dirty.push(client_id);
                proof {
                    assert(!earlier.contains(client_id));
                    assert forall|k: u128| #[trigger]
                        dirty@.contains(k) <==> next.contains(k) && before[k].needs_ping_update by {
                        if earlier.contains(k) {
                            let j = choose|j: int| 0 <= j < earlier.len() && earlier[j] == k;
                            assert(dirty@[j] == k);
                        }
                        if k == client_id {
                            assert(dirty@[earlier.len() as int] == k);
                        }
                        if dirty@.contains(k) {
                            let j = choose|j: int| 0 <= j < dirty@.len() && dirty@[j] == k;
                            if j < earlier.len() {
                                assert(earlier[j] == k);
                            }
                        }
                    }
                }
            }
            assert(self.conns@.dom() =~= before.dom());
            i += 1;
        }
        proof {
            assert(keys@.take(keys.len() as int) == keys@);
            assert forall|k: u128| before.contains_key(k) implies keys@.contains(k) by {
                assert(keys@.to_set().contains(k));
            }
            assert(self.conns@ =~= all_cleared(before));
            assert forall|k: u128| dirty@.to_set().contains(k) <==> dirty_clients(before).contains(
                k,
            ) by {
                if dirty@.contains(k) {
                    assert(keys@.to_set().contains(k));
                }
            }
            assert(dirty@.to_set() =~= dirty_clients(before));
        }
        dirty
    }

    /// Empties the directory and hands back what it held: each client once, with the
    /// connection that was live for it.
    pub fn drain(&mut self) -> (entries: Vec<(u128, Connection)>)
        ensures
            final(self)@ == Map::<u128, Connection>::empty(),
            holds_each_once(entries@, old(self)@),
    {
        broadcast use group_hash_axioms;

        let keys = self.clients();
        let mut entries: Vec<(u128, Connection)> = Vec::new();
        let mut i: usize = 0;
        while i < keys.len()
            invariant
                i <= keys.len(),
                i == entries@.len(),
                keys@.no_duplicates(),
                keys@.to_set() == self.conns@.dom(),
                forall|j: int|
                    0 <= j < i ==> (#[trigger] entries@[j]).0 == keys@[j] && entries@[j].1
                        == self.conns@[keys@[j]],
            decreases keys.len() - i,
        {
            let client_id = keys[i];
            assert(keys@.to_set().contains(client_id));
            if let Some(conn) = self.conns.get(&client_id) {
                entries.push((client_id, *conn));
            }
            i += 1;
        }
        assert(holds_each_once(entries@, self.conns@)) by {
            assert(entry_clients(entries@) =~= keys@);
        }
        self.conns.clear();
        entries
    }
}

} // verus!
