//! One connection's way through the gateway, from the handshake to the close.
//!
//! The gateway reads no meaning into what a client sends. It asks one thing of the first
//! frame, that it be an `Init`; it registers the client, admits the connection into the
//! directory, and from then on passes every frame on to the client's workflow in the order
//! received. Anything else ends the connection, and only that connection.
//!
//! Nothing here touches a socket. A `Session` is told what arrived and answers with what the
//! caller has to do next.

use vstd::prelude::*;

use crate::directory::{
    holds_each_once, is_current, spec_current, spec_insert, spec_remove_if_same,
    CloseDirective, CloseReason, Connection, Directory,
};
use crate::handshake::{
    parse_url, spec_parse_url_text, spec_session_url, ClientFlavor, HandshakeError, UrlData,
};

verus! {

/// What the codec made of the frame that a binary message carries.
#[derive(Clone, Copy, Debug, PartialEq, Eq, Structural)]
pub enum FrameKind {
    /// The frame that opens a session.
    Init,
    /// Any other frame that the codec can decode.
    Other,
}

/// One thing that the inbound half of a socket yields.
#[derive(Debug)]
pub enum Message {
    /// A binary message, with what the codec of the negotiated version made of it: `None`
    /// where it could not decode the frame.
    Binary { frame: Vec<u8>, decoded: Option<FrameKind> },
    /// A transport-level liveness signal.
    Ping,
    /// The peer's close frame.
    Close,
    /// A message of any other type.
    Other,
    /// Reading from the socket failed.
    ReadError,
    /// The stream has ended.
    End,
}

/// A `Message` with its frame as a sequence of bytes.
pub enum MessageView {
    Binary { frame: Seq<u8>, decoded: Option<FrameKind> },
    Ping,
    Close,
    Other,
    ReadError,
    End,
}

impl View for Message {
    type V = MessageView;

    open spec fn view(&self) -> MessageView {
        match self {
            Message::Binary { frame, decoded } => MessageView::Binary {
                frame: frame@,
                decoded: *decoded,
            },
            Message::Ping => MessageView::Ping,
            Message::Close => MessageView::Close,
            Message::Other => MessageView::Other,
            Message::ReadError => MessageView::ReadError,
            Message::End => MessageView::End,
        }
    }
}

/// The two classes of failure that end a connection.
#[derive(Clone, Copy, Debug, PartialEq, Eq, Structural)]
pub enum ErrorClass {
    /// The client broke the protocol.
    ProtocolViolation,
    /// The socket, or a collaborator behind it, failed.
    TransportError,
}

/// Why a connection ended.
#[derive(Clone, Copy, Debug, PartialEq, Eq, Structural)]
pub enum Termination {
    /// The first frame was not an `Init`.
    UnexpectedFirstFrame,
    /// The first message was no binary message.
    UnexpectedFirstMessage,
    /// A frame could not be decoded.
    UndecodableFrame,
    /// A message of an unexpected type arrived after the first frame.
    UnexpectedMessage,
    /// A message was handed in while the session could not take one.
    OutOfTurn,
    /// The peer sent a close frame.
    ClosedByPeer,
    /// Reading from the socket failed.
    ReadFailed,
    /// The stream ended without a close frame.
    StreamEnded,
    /// Something the gateway had to do for the connection failed.
    EffectFailed,
}

impl Termination {
    /// The class of failure that this ending belongs to.
    pub open spec fn spec_class(self) -> ErrorClass {
        match self {
            Termination::UnexpectedFirstFrame
            | Termination::UnexpectedFirstMessage
            | Termination::UndecodableFrame
            | Termination::UnexpectedMessage
            | Termination::OutOfTurn => ErrorClass::ProtocolViolation,
            Termination::ClosedByPeer
            | Termination::ReadFailed
            | Termination::StreamEnded
            | Termination::EffectFailed => ErrorClass::TransportError,
        }
    }

    /// The class of failure that this ending belongs to.
    pub fn class(&self) -> (class: ErrorClass)
        ensures
            class == self.spec_class(),
    {
        match self {
            Termination::UnexpectedFirstFrame
            | Termination::UnexpectedFirstMessage
            | Termination::UndecodableFrame
            | Termination::UnexpectedMessage
            | Termination::OutOfTurn => ErrorClass::ProtocolViolation,
            Termination::ClosedByPeer
            | Termination::ReadFailed
            | Termination::StreamEnded
            | Termination::EffectFailed => ErrorClass::TransportError,
        }
    }
}

/// What the caller has to do after a message.
#[derive(Debug)]
pub enum Directive {
    /// The session has opened with `frame`: register the client as given here, then call
    /// `enter`, then pass `frame` on to the client's workflow as a signal tagged with
    /// `client_id`.
    Register { client_id: u128, datacenter_id: u128, flavor: ClientFlavor, frame: Vec<u8> },
    /// Pass `frame` on to the client's workflow as a signal tagged with `client_id`.
    Forward { client_id: u128, frame: Vec<u8> },
    /// Record the liveness signal in the directory.
    MarkPing,
    /// The connection is over: stop reading and call `close`.
    Close { cause: Termination },
}

/// A `Directive` with its frame as a sequence of bytes.
pub enum DirectiveView {
    Register { client_id: u128, datacenter_id: u128, flavor: ClientFlavor, frame: Seq<u8> },
    Forward { client_id: u128, frame: Seq<u8> },
    MarkPing,
    Close { cause: Termination },
}

impl View for Directive {
    type V = DirectiveView;

    open spec fn view(&self) -> DirectiveView {
        match self {
            Directive::Register { client_id, datacenter_id, flavor, frame } => {
                DirectiveView::Register {
                    client_id: *client_id,
                    datacenter_id: *datacenter_id,
                    flavor: *flavor,
                    frame: frame@,
                }
            },
            Directive::Forward { client_id, frame } => DirectiveView::Forward {
                client_id: *client_id,
                frame: frame@,
            },
            Directive::MarkPing => DirectiveView::MarkPing,
            Directive::Close { cause } => DirectiveView::Close { cause: *cause },
        }
    }
}

/// How far a session has come.
#[derive(Clone, Copy, Debug, PartialEq, Eq, Structural)]
pub enum Phase {
    /// The handshake is done; the first frame has not arrived.
    AwaitingInit,
    /// The `Init` frame has arrived; the client is being registered.
    Registering,
    /// The connection is in the directory and frames are passed on.
    Forwarding,
    /// The connection is over.
    Closed,
}

/// The phase that follows `phase` when `message` arrives on a connection whose handshake
/// gave `data`, and what the caller then has to do.
pub open spec fn spec_step(data: UrlData, phase: Phase, message: MessageView) -> (
    Phase,
    DirectiveView,
) {
    match phase {
        Phase::AwaitingInit => match message {
            MessageView::Binary { frame, decoded: Some(FrameKind::Init) } => (
                Phase::Registering,
                DirectiveView::Register {
                    client_id: data.client_id,
                    datacenter_id: data.datacenter_id,
                    flavor: data.flavor,
                    frame,
                },
            ),
            MessageView::Binary { frame, decoded: Some(FrameKind::Other) } => (
                Phase::Closed,
                DirectiveView::Close { cause: Termination::UnexpectedFirstFrame },
            ),
            MessageView::Binary { frame, decoded: None } => (
                Phase::Closed,
                DirectiveView::Close { cause: Termination::UndecodableFrame },
            ),
            MessageView::Ping | MessageView::Other => (
                Phase::Closed,
                DirectiveView::Close { cause: Termination::UnexpectedFirstMessage },
            ),
            MessageView::Close => (
                Phase::Closed,
                DirectiveView::Close { cause: Termination::ClosedByPeer },
            ),
            MessageView::ReadError => (
                Phase::Closed,
                DirectiveView::Close { cause: Termination::ReadFailed },
            ),
            MessageView::End => (
                Phase::Closed,
                DirectiveView::Close { cause: Termination::StreamEnded },
            ),
        },
        Phase::Forwarding => match message {
            MessageView::Binary { frame, decoded: Some(_) } => (
                Phase::Forwarding,
                DirectiveView::Forward { client_id: data.client_id, frame },
            ),
            MessageView::Binary { frame, decoded: None } => (
                Phase::Closed,
                DirectiveView::Close { cause: Termination::UndecodableFrame },
            ),
            MessageView::Ping => (Phase::Forwarding, DirectiveView::MarkPing),
            MessageView::Other => (
                Phase::Closed,
                DirectiveView::Close { cause: Termination::UnexpectedMessage },
            ),
            MessageView::Close => (
                Phase::Closed,
                DirectiveView::Close { cause: Termination::ClosedByPeer },
            ),
            MessageView::ReadError => (
                Phase::Closed,
                DirectiveView::Close { cause: Termination::ReadFailed },
            ),
            MessageView::End => (
                Phase::Closed,
                DirectiveView::Close { cause: Termination::StreamEnded },
            ),
        },
        Phase::Registering | Phase::Closed => (
            Phase::Closed,
            DirectiveView::Close { cause: Termination::OutOfTurn },
        ),
    }
}

/// What became of a connection's request to enter the directory.
#[derive(Clone, Copy, Debug, PartialEq, Eq, Structural)]
pub enum Admission {
    /// The session was not waiting to be admitted; nothing has changed.
    Refused,
    /// The connection is now the client's live one. Where it took the place of an older
    /// connection, that one has to be sent the close frame given here.
    Admitted { evicted: Option<CloseDirective> },
}

/// The close frame owed to the connection that is live for `client_id`, if one is.
pub open spec fn spec_close_all(
    conns: Map<u128, Connection>,
    client_id: u128,
    reason: CloseReason,
) -> Option<CloseDirective> {
    if conns.contains_key(client_id) {
        Some(CloseDirective { conn_id: conns[client_id].conn_id, reason })
    } else {
        None
    }
}

/// Orders the close of whatever connection is live for `client_id`. The connection stays in
/// the directory until its own session has ended.
pub fn close_all(directory: &Directory, client_id: u128, reason: CloseReason) -> (close: Option<
    CloseDirective,
>)
    ensures
        close == spec_close_all(directory@, client_id, reason),
{
    match directory.get(client_id) {
        Some(conn) => Some(CloseDirective { conn_id: conn.conn_id, reason }),
        None => None,
    }
}

/// The connection through which a command for `client_id` goes out. A command for a client
/// that is not connected is dropped: nothing is queued here.
pub fn deliver(directory: &Directory, client_id: u128) -> (target: Option<Connection>)
    ensures
        target == spec_current(directory@, client_id),
{
    directory.get(client_id)
}

/// What a client's workflow asks of the gateway over the message bus.
#[derive(Clone, Copy, Debug, PartialEq, Eq, Structural)]
pub enum BusEvent {
    /// A command is to be written to the client's socket.
    Command { client_id: u128 },
    /// The client's socket is to be closed.
    CloseSocket { client_id: u128 },
}

/// What the gateway does about an event from the message bus.
#[derive(Clone, Copy, Debug, PartialEq, Eq, Structural)]
pub enum Outbound {
    /// Encode the command for `protocol_version` and write it to the socket `conn_id`.
    Send { conn_id: u64, protocol_version: u16 },
    /// Send the close frame.
    Close { close: CloseDirective },
    /// The client is not connected: nothing to do.
    Ignore,
}

/// What the gateway does about `event`, given the live connections.
pub open spec fn spec_route(conns: Map<u128, Connection>, event: BusEvent) -> Outbound {
    match event {
        BusEvent::Command { client_id } => if conns.contains_key(client_id) {
            Outbound::Send {
                conn_id: conns[client_id].conn_id,
                protocol_version: conns[client_id].protocol_version,
            }
        } else {
            Outbound::Ignore
        },
        BusEvent::CloseSocket { client_id } => match spec_close_all(
            conns,
            client_id,
            CloseReason::Requested,
        ) {
            Some(close) => Outbound::Close { close },
            None => Outbound::Ignore,
        },
    }
}

/// Finds the socket that an event from the message bus is for.
pub fn route(directory: &Directory, event: BusEvent) -> (outbound: Outbound)
    ensures
        outbound == spec_route(directory@, event),
{
    match event {
        BusEvent::Command { client_id } => match deliver(directory, client_id) {
            Some(conn) => Outbound::Send {
                conn_id: conn.conn_id,
                protocol_version: conn.protocol_version,
            },
            None => Outbound::Ignore,
        },
        BusEvent::CloseSocket { client_id } => match close_all(
            directory,
            client_id,
            CloseReason::Requested,
        ) {
            Some(close) => Outbound::Close { close },
            None => Outbound::Ignore,
        },
    }
}

/// The close frames that a shutdown owes: one to each connection of `entries`, in order.
pub open spec fn spec_shutdown_closes(entries: Seq<(u128, Connection)>) -> Seq<CloseDirective> {
    Seq::new(
        entries.len(),
        |i: int| CloseDirective { conn_id: entries[i].1.conn_id, reason: CloseReason::Shutdown },
    )
}

/// Empties the directory for a shutdown. Every connection that was live is owed a close
/// frame; `closes` holds one for each, next to the entry it is for.
pub fn shutdown(directory: &mut Directory) -> (drained: (Vec<(u128, Connection)>, Vec<
    CloseDirective,
>))
    ensures
        final(directory)@ == Map::<u128, Connection>::empty(),
        holds_each_once(drained.0@, old(directory)@),
        drained.1@ == spec_shutdown_closes(drained.0@),
{
    let entries = directory.drain();
    let mut closes: Vec<CloseDirective> = Vec::new();
    let mut i: usize = 0;
    while i < entries.len()
        invariant
            i <= entries.len(),
            closes@ == spec_shutdown_closes(entries@.take(i as int)),
        decreases entries.len() - i,
    {
        closes.push(
            CloseDirective { conn_id: entries[i].1.conn_id, reason: CloseReason::Shutdown },
        );
        assert(closes@ =~= spec_shutdown_closes(entries@.take(i + 1)));
        i += 1;
    }
    assert(entries@.take(entries.len() as int) == entries@);
    (entries, closes)
}

/// One connection between its handshake and its end.
pub struct Session {
    data: UrlData,
    conn_id: u64,
    phase: Phase,
}

impl Session {
    /// What the handshake settled.
    pub closed spec fn data(&self) -> UrlData {
        self.data
    }

    /// The handle of the connection's outbound sink.
    pub closed spec fn conn_id(&self) -> u64 {
        self.conn_id
    }

    /// How far the session has come.
    pub closed spec fn phase(&self) -> Phase {
        self.phase
    }

    /// Opens a session for a connection whose handshake gave `data`. The connection is not
    /// in the directory yet.
    pub fn open(data: UrlData, conn_id: u64) -> (session: Session)
        ensures
            session.data() == data,
            session.conn_id() == conn_id,
            session.phase() == Phase::AwaitingInit,
    {
        Session { data, conn_id, phase: Phase::AwaitingInit }
    }

    /// Takes a connection in: reads the session parameters from the socket address and the
    /// URI of the upgrade request, and opens a session for them. A connection without a
    /// request, or whose address does not give all parameters, is turned away; nothing has
    /// changed then.
    pub fn accept(addr: &str, uri: Option<&str>, conn_id: u64) -> (session: Result<
        Session,
        HandshakeError,
    >)
        ensures
            match session {
                Ok(s) => uri matches Some(text) && spec_parse_url_text(
                    spec_session_url(addr@, text@),
                ) == Ok::<UrlData, HandshakeError>(s.data()) && s.conn_id() == conn_id && s.phase()
                    == Phase::AwaitingInit,
                Err(e) => match uri {
                    Some(text) => spec_parse_url_text(spec_session_url(addr@, text@)) == Err::<
                        UrlData,
                        HandshakeError,
                    >(e),
                    None => e == HandshakeError::NoRequest,
                },
            },
    {
        match uri {
            None => Err(HandshakeError::NoRequest),
            Some(text) => match parse_url(addr, text) {
                Ok(data) => Ok(Session::open(data, conn_id)),
                Err(e) => Err(e),
            },
        }
    }

    /// The client that the session belongs to.
    pub fn client_id(&self) -> (client_id: u128)
        ensures
            client_id == self.data().client_id,
    {
        self.data.client_id
    }

    /// The datacenter of the client.
    pub fn datacenter_id(&self) -> (datacenter_id: u128)
        ensures
            datacenter_id == self.data().datacenter_id,
    {
        self.data.datacenter_id
    }

    /// The flavor of the client.
    pub fn flavor(&self) -> (flavor: ClientFlavor)
        ensures
            flavor == self.data().flavor,
    {
        self.data.flavor
    }

    /// The protocol version of the connection.
    pub fn protocol_version(&self) -> (version: u16)
        ensures
            version == self.data().protocol_version,
    {
        self.data.protocol_version
    }

    /// The handle of the connection's outbound sink.
    pub fn handle(&self) -> (conn_id: u64)
        ensures
            conn_id == self.conn_id(),
    {
        self.conn_id
    }

    /// How far the session has come.
    pub fn current_phase(&self) -> (phase: Phase)
        ensures
            phase == self.phase(),
    {
        self.phase
    }

    /// Takes the next thing that the socket yielded and says what to do about it.
    pub fn on_message(&mut self, message: Message) -> (directive: Directive)
        ensures
            (final(self).phase(), directive@) == spec_step(
                old(self).data(),
                old(self).phase(),
                message@,
            ),
            final(self).data() == old(self).data(),
            final(self).conn_id() == old(self).conn_id(),
    {
        match self.phase {
            Phase::AwaitingInit => match message {
                Message::Binary { frame, decoded: Some(FrameKind::Init) } => {
                    self.phase = Phase::Registering;
                    Directive::Register {
                        client_id: self.data.client_id,
                        datacenter_id: self.data.datacenter_id,
                        flavor: self.data.flavor,
                        frame,
                    }
                },
                Message::Binary { frame: _, decoded: Some(FrameKind::Other) } => {
                    self.phase = Phase::Closed;
                    Directive::Close { cause: Termination::UnexpectedFirstFrame }
                },
                Message::Binary { frame: _, decoded: None } => {
                    self.phase = Phase::Closed;
                    Directive::Close { cause: Termination::UndecodableFrame }
                },
                Message::Ping | Message::Other => {
                    self.phase = Phase::Closed;
                    Directive::Close { cause: Termination::UnexpectedFirstMessage }
                },
                Message::Close => {
                    self.phase = Phase::Closed;
                    Directive::Close { cause: Termination::ClosedByPeer }
                },
                Message::ReadError => {
                    self.phase = Phase::Closed;
                    Directive::Close { cause: Termination::ReadFailed }
                },
                Message::End => {
                    self.phase = Phase::Closed;
                    Directive::Close { cause: Termination::StreamEnded }
                },
            },
            Phase::Forwarding => match message {
                Message::Binary { frame, decoded: Some(_) } => Directive::Forward {
                    client_id: self.data.client_id,
                    frame,
                },
                Message::Binary { frame: _, decoded: None } => {
                    self.phase = Phase::Closed;
                    Directive::Close { cause: Termination::UndecodableFrame }
                },
                Message::Ping => Directive::MarkPing,
                Message::Other => {
                    self.phase = Phase::Closed;
                    Directive::Close { cause: Termination::UnexpectedMessage }
                },
                Message::Close => {
                    self.phase = Phase::Closed;
                    Directive::Close { cause: Termination::ClosedByPeer }
                },
                Message::ReadError => {
                    self.phase = Phase::Closed;
                    Directive::Close { cause: Termination::ReadFailed }
                },
                Message::End => {
                    self.phase = Phase::Closed;
                    Directive::Close { cause: Termination::StreamEnded }
                },
            },
            Phase::Registering | Phase::Closed => {
                self.phase = Phase::Closed;
                Directive::Close { cause: Termination::OutOfTurn }
            },
        }
    }

    /// Admits the connection into the directory once its client is registered. The
    /// connection becomes the client's live one; the connection it replaces, if any, is owed
    /// a close frame.
    pub fn enter(&mut self, directory: &mut Directory) -> (admission: Admission)
        ensures
            final(self).data() == old(self).data(),
            final(self).conn_id() == old(self).conn_id(),
            old(self).phase() == Phase::Registering ==> {
                &&& final(self).phase() == Phase::Forwarding
                &&& final(directory)@ == spec_insert(
                    old(directory)@,
                    old(self).data().client_id,
                    old(self).conn_id(),
                    old(self).data().protocol_version,
                )
                &&& admission == (Admission::Admitted {
                    evicted: spec_close_all(
                        old(directory)@,
                        old(self).data().client_id,
                        CloseReason::Replaced,
                    ),
                })
            },
            old(self).phase() != Phase::Registering ==> {
                &&& final(self).phase() == old(self).phase()
                &&& final(directory)@ == old(directory)@
                &&& admission == Admission::Refused
            },
    {
        match self.phase {
            Phase::Registering => {
                let evicted = directory.insert(
                    self.data.client_id,
                    self.conn_id,
                    self.data.protocol_version,
                );
                self.phase = Phase::Forwarding;
                Admission::Admitted {
                    evicted: match evicted {
                        Some(conn) => Some(
                            CloseDirective { conn_id: conn.conn_id, reason: CloseReason::Replaced },
                        ),
                        None => None,
                    },
                }
            },
            _ => Admission::Refused,
        }
    }

    /// Ends the session because something that had to be done for it failed: registering the
    /// client, passing a frame on, or writing to a socket.
    pub fn fail(&mut self) -> (cause: Termination)
        ensures
            cause == Termination::EffectFailed,
            final(self).phase() == Phase::Closed,
            final(self).data() == old(self).data(),
            final(self).conn_id() == old(self).conn_id(),
    {
        self.phase = Phase::Closed;
        Termination::EffectFailed
    }

    /// Cleans up after the connection. It leaves the directory if it still is its client's
    /// live connection, and is then owed a close frame; a connection that was replaced, or
    /// never admitted, leaves the directory as it is.
    pub fn close(&mut self, directory: &mut Directory) -> (close: Option<CloseDirective>)
        ensures
            final(self).phase() == Phase::Closed,
            final(self).data() == old(self).data(),
            final(self).conn_id() == old(self).conn_id(),
            final(directory)@ == spec_remove_if_same(
                old(directory)@,
                old(self).data().client_id,
                old(self).conn_id(),
            ),
            close == (if is_current(
                old(directory)@,
                old(self).data().client_id,
                old(self).conn_id(),
            ) {
                Some(
                    CloseDirective { conn_id: old(self).conn_id(), reason: CloseReason::LoopEnded },
                )
            } else {
                None
            }),
    {
        self.phase = Phase::Closed;
        match directory.remove_if_same(self.data.client_id, self.conn_id) {
            Some(conn) => Some(
                CloseDirective { conn_id: conn.conn_id, reason: CloseReason::LoopEnded },
            ),
            None => None,
        }
    }
}

/// What a session answers to a run of messages, one after the other, starting in `phase`.
pub open spec fn spec_run(data: UrlData, phase: Phase, messages: Seq<MessageView>) -> Seq<
    DirectiveView,
>
    decreases messages.len(),
{
    if messages.len() == 0 {
        Seq::empty()
    } else {
        let (next, directive) = spec_step(data, phase, messages[0]);
        seq![directive] + spec_run(data, next, messages.skip(1))
    }
}

/// The signals that a run of directives sends to workflows, in the order of the directives:
/// each a frame with the client it is tagged with.
pub open spec fn forwarded(directives: Seq<DirectiveView>) -> Seq<(u128, Seq<u8>)>
    decreases directives.len(),
{
    if directives.len() == 0 {
        Seq::empty()
    } else {
        let first = match directives[0] {
            DirectiveView::Register { client_id, datacenter_id, flavor, frame } => seq![
                (client_id, frame),
            ],
            DirectiveView::Forward { client_id, frame } => seq![(client_id, frame)],
            _ => Seq::empty(),
        };
        first + forwarded(directives.skip(1))
    }
}

/// Whether a forwarding session goes on after `message`.
pub open spec fn keeps_forwarding(message: MessageView) -> bool {
    match message {
        MessageView::Binary { frame, decoded } => decoded is Some,
        MessageView::Ping => true,
        _ => false,
    }
}

/// How many messages a forwarding session takes before the first one that ends it.
pub open spec fn live_prefix(messages: Seq<MessageView>) -> int
    decreases messages.len(),
{
    if messages.len() == 0 {
        0
    } else if keeps_forwarding(messages[0]) {
        1 + live_prefix(messages.skip(1))
    } else {
        0
    }
}

/// The frames of the binary messages among `messages`, in the order received, each tagged
/// with `client_id`.
pub open spec fn frames_of(client_id: u128, messages: Seq<MessageView>) -> Seq<(u128, Seq<u8>)>
    decreases messages.len(),
{
    if messages.len() == 0 {
        Seq::empty()
    } else {
        let first = match messages[0] {
            MessageView::Binary { frame, decoded } => seq![(client_id, frame)],
            _ => Seq::empty(),
        };
        first + frames_of(client_id, messages.skip(1))
    }
}

/// A session that is over passes nothing on, whatever still arrives.
pub proof fn lemma_closed_forwards_nothing(data: UrlData, messages: Seq<MessageView>)
    ensures
        forwarded(spec_run(data, Phase::Closed, messages)) == Seq::<(u128, Seq<u8>)>::empty(),
    decreases messages.len(),
{
    if messages.len() > 0 {
        lemma_closed_forwards_nothing(data, messages.skip(1));
        let run = spec_run(data, Phase::Closed, messages);
        assert(run.skip(1) == spec_run(data, Phase::Closed, messages.skip(1)));
    }
}

/// Frames keep their order. A forwarding session passes on exactly the frames of the binary
/// messages that reach it before the first message that ends it, each once, tagged with its
/// client, and in the order in which they arrived; after that message it passes on nothing.
pub proof fn lemma_frames_forwarded_in_order(data: UrlData, messages: Seq<MessageView>)
    ensures
        0 <= live_prefix(messages) <= messages.len(),
        forwarded(spec_run(data, Phase::Forwarding, messages)) == frames_of(
            data.client_id,
            messages.take(live_prefix(messages)),
        ),
    decreases messages.len(),
{
    if messages.len() == 0 {
        assert(messages.take(0) == messages);
    } else {
        let rest = messages.skip(1);
        let (next, directive) = spec_step(data, Phase::Forwarding, messages[0]);
        let run = spec_run(data, Phase::Forwarding, messages);
        assert(run.skip(1) == spec_run(data, next, rest));
        lemma_frames_forwarded_in_order(data, rest);
        if keeps_forwarding(messages[0]) {
            let kept = messages.take(live_prefix(messages));
            assert(kept[0] == messages[0]);
            assert(kept.skip(1) == rest.take(live_prefix(rest)));
        } else {
            lemma_closed_forwards_nothing(data, rest);
            assert(messages.take(0) =~= Seq::<MessageView>::empty());
            assert(run[0] == directive);
        }
    }
}

/// The connections that arrive for one client, one after the other, each with the handle of
/// its socket and its protocol version: the directory after the last one was let in, and the
/// close frames sent on the way.
pub open spec fn spec_enter_each(
    conns: Map<u128, Connection>,
    client_id: u128,
    arrivals: Seq<(u64, u16)>,
) -> (Map<u128, Connection>, Seq<CloseDirective>)
    decreases arrivals.len(),
{
    if arrivals.len() == 0 {
        (conns, Seq::empty())
    } else {
        let (before, closes) = spec_enter_each(conns, client_id, arrivals.drop_last());
        let arrival = arrivals.last();
        (
            spec_insert(before, client_id, arrival.0, arrival.1),
            match spec_close_all(before, client_id, CloseReason::Replaced) {
                Some(close) => closes.push(close),
                None => closes,
            },
        )
    }
}

/// The close frames owed when `arrivals` come in for a client: one to the connection that was
/// live before, if there was one, and one to every arrival but the last.
pub open spec fn spec_replaced(
    conns: Map<u128, Connection>,
    client_id: u128,
    arrivals: Seq<(u64, u16)>,
) -> Seq<CloseDirective> {
    let earlier = Seq::new(
        (arrivals.len() - 1) as nat,
        |i: int| CloseDirective { conn_id: arrivals[i].0, reason: CloseReason::Replaced },
    );
    match spec_close_all(conns, client_id, CloseReason::Replaced) {
        Some(close) => seq![close] + earlier,
        None => earlier,
    }
}

/// At most one live connection per client. However often a client connects and reconnects,
/// the directory ends up with one entry for it, which is the connection that came last;
/// every connection before it was sent a close frame, in the order in which they were
/// replaced; and no other client's entry has changed.
pub proof fn lemma_last_connection_wins(
    conns: Map<u128, Connection>,
    client_id: u128,
    arrivals: Seq<(u64, u16)>,
)
    requires
        arrivals.len() > 0,
    ensures
        ({
            let (after, closes) = spec_enter_each(conns, client_id, arrivals);
            &&& after == spec_insert(conns, client_id, arrivals.last().0, arrivals.last().1)
            &&& closes == spec_replaced(conns, client_id, arrivals)
        }),
    decreases arrivals.len(),
{
    let earlier = arrivals.drop_last();
    let (before, closes_before) = spec_enter_each(conns, client_id, earlier);
    let (after, closes) = spec_enter_each(conns, client_id, arrivals);
    if earlier.len() == 0 {
        assert(closes =~= spec_replaced(conns, client_id, arrivals));
    } else {
        lemma_last_connection_wins(conns, client_id, earlier);
        assert(after =~= spec_insert(conns, client_id, arrivals.last().0, arrivals.last().1));
        assert(earlier.last() == arrivals[arrivals.len() - 2]);
        assert(closes =~= spec_replaced(conns, client_id, arrivals));
    }
}

/// The directory after the sessions of the connections `conn_ids` of one client have been
/// cleaned up, one after the other.
pub open spec fn spec_close_each(
    conns: Map<u128, Connection>,
    client_id: u128,
    conn_ids: Seq<u64>,
) -> Map<u128, Connection>
    decreases conn_ids.len(),
{
    if conn_ids.len() == 0 {
        conns
    } else {
        spec_remove_if_same(
            spec_close_each(conns, client_id, conn_ids.drop_last()),
            client_id,
            conn_ids.last(),
        )
    }
}

/// The handles of the arrivals before the last one.
pub open spec fn earlier_handles(arrivals: Seq<(u64, u16)>) -> Seq<u64> {
    Seq::new((arrivals.len() - 1) as nat, |i: int| arrivals[i].0)
}

/// Cleaning up after connections that are not in the directory changes nothing.
proof fn lemma_closing_others_changes_nothing(
    conns: Map<u128, Connection>,
    client_id: u128,
    conn_ids: Seq<u64>,
)
    requires
        forall|i: int|
            0 <= i < conn_ids.len() ==> !is_current(conns, client_id, #[trigger] conn_ids[i]),
    ensures
        spec_close_each(conns, client_id, conn_ids) == conns,
    decreases conn_ids.len(),
{
    if conn_ids.len() > 0 {
        let earlier = conn_ids.drop_last();
        assert forall|i: int| 0 <= i < earlier.len() implies !is_current(
            conns,
            client_id,
            #[trigger] earlier[i],
        ) by {
            assert(earlier[i] == conn_ids[i]);
        }
        lemma_closing_others_changes_nothing(conns, client_id, earlier);
        assert(!is_current(conns, client_id, conn_ids[conn_ids.len() - 1]));
    }
}

/// Once things have settled, one connection is left. When a client has connected and
/// reconnected, each time under a handle of its own, and the sessions of all connections but
/// the last have been cleaned up, the directory holds exactly one entry for the client, the
/// last connection, and every other client's entry as before.
pub proof fn lemma_settled_directory_holds_last_connection(
    conns: Map<u128, Connection>,
    client_id: u128,
    arrivals: Seq<(u64, u16)>,
)
    requires
        arrivals.len() > 0,
        forall|i: int|
            0 <= i < arrivals.len() - 1 ==> (#[trigger] arrivals[i]).0 != arrivals.last().0,
    ensures
        ({
            let (entered, closes) = spec_enter_each(conns, client_id, arrivals);
            let settled = spec_close_each(entered, client_id, earlier_handles(arrivals));
            &&& settled == spec_insert(conns, client_id, arrivals.last().0, arrivals.last().1)
            &&& settled.dom() == conns.dom().insert(client_id)
            &&& settled[client_id].conn_id == arrivals.last().0
            &&& forall|other: u128|
                other != client_id && conns.contains_key(other) ==> #[trigger] settled[other]
                    == conns[other]
        }),
{
    lemma_last_connection_wins(conns, client_id, arrivals);
    let entered = spec_enter_each(conns, client_id, arrivals).0;
    let handles = earlier_handles(arrivals);
    assert forall|i: int| 0 <= i < handles.len() implies !is_current(
        entered,
        client_id,
        #[trigger] handles[i],
    ) by {
        assert(handles[i] == arrivals[i].0);
    }
    lemma_closing_others_changes_nothing(entered, client_id, handles);
}

/// A connection that was replaced does not take its successor down with it: when its
/// session is cleaned up, the directory stays as it is.
pub proof fn lemma_replaced_connection_leaves_successor(
    conns: Map<u128, Connection>,
    client_id: u128,
    old_conn_id: u64,
    new_conn_id: u64,
    protocol_version: u16,
)
    requires
        old_conn_id != new_conn_id,
    ensures
        spec_remove_if_same(
            spec_insert(conns, client_id, new_conn_id, protocol_version),
            client_id,
            old_conn_id,
        ) == spec_insert(conns, client_id, new_conn_id, protocol_version),
{
}

} // verus!
