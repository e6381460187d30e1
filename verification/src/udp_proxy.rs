//! The UDP forwarder of one rule: which session a datagram belongs to, and
//! what a session's worker does with each thing that happens to it.
//!
//! A session stands for one client address. It begins with the first
//! datagram from that address and ends when nothing has passed in either
//! direction for `IDLE_SECONDS`. A session whose worker is lost, as when the
//! worker could not reach the upstream, is replaced by the client's next
//! datagram.

use crate::mapping_rule::Protocol;
use crate::report::{label, log_line, log_text, rule_label, Level, LogLine};
use crate::text::{decimal, push_decimal};
use crate::session_map::{
    first_send, map_get, map_insert, map_new, map_remove, numbers, queue, try_send, ClientKey,
    Enqueue,
};
use dashmap::DashMap;
use std::collections::hash_map::RandomState;
use tokio::sync::mpsc::{Receiver, Sender};
use vstd::prelude::*;
use vstd::string::StringExecFns;

verus! {

/// The number of datagrams that a session's queue holds.
pub const QUEUE_BOUND: usize = 100;

/// The number of seconds of silence after which a session ends.
pub const IDLE_SECONDS: u64 = 60;

/// The local address that a worker binds its socket to before it connects
/// the socket to the upstream: any address, and a port that the operating
/// system chooses.
pub const WORKER_BIND: &'static str = "0.0.0.0:0";

/// The UDP forwarder of one rule: the address listened on, the address that
/// datagrams are relayed to, and the size of the buffers that receive them.
#[derive(Debug)]
pub struct UdpProxy {
    pub listen: String,
    pub upstream: String,
    pub buffer_size: usize,
}

/// The address that a datagram came from.
#[derive(Clone, Copy, Debug)]
pub enum ClientAddr {
    /// An IPv4 address, its four octets as one number, and a port.
    V4 { octets: u32, port: u16 },
    /// An IPv6 address, its eight segments as one number, a port, the flow
    /// information and the scope.
    V6 { segments: u128, port: u16, flowinfo: u32, scope_id: u32 },
}

impl ClientAddr {
    /// The key of the address in the map of sessions: the IP address, and a
    /// number made of the address family, the port, and for IPv6 the flow
    /// information and the scope.
    pub open spec fn key(self) -> ClientKey {
        match self {
            ClientAddr::V4 { octets, port } => (octets as u128, (port * 0x1_0000_0000_0000_0000) as u128),
            ClientAddr::V6 { segments, port, flowinfo, scope_id } => (
                segments,
                (0x1_0000_0000_0000_0000_0000 + port * 0x1_0000_0000_0000_0000 + flowinfo
                    * 0x1_0000_0000 + scope_id) as u128,
            ),
        }
    }

    /// Computes `key`.
    pub fn to_key(&self) -> (key: ClientKey)
        ensures
            key == self.key(),
    {
        match *self {
            ClientAddr::V4 { octets, port } => (octets as u128, port as u128 * 0x1_0000_0000_0000_0000),
            ClientAddr::V6 { segments, port, flowinfo, scope_id } => (
                segments,
                0x1_0000_0000_0000_0000_0000 + port as u128 * 0x1_0000_0000_0000_0000
                    + flowinfo as u128 * 0x1_0000_0000 + scope_id as u128,
            ),
        }
    }

    /// Two addresses with one key are one address.
    pub proof fn lemma_key_injective(a: ClientAddr, b: ClientAddr)
        requires
            a.key() == b.key(),
        ensures
            a == b,
    {
    }
}

/// The sessions of one forwarder: for each client that has one, the number
/// of the session and the sending end of the queue that feeds the session's
/// worker.
///
/// The sessions of one client are numbered in turn, so that a session can be
/// told from the one that it took the place of.
pub struct SessionMap {
    map: DashMap<ClientKey, (u64, Sender<Vec<u8>>), RandomState>,
}

impl View for SessionMap {
    type V = Map<ClientAddr, u64>;

    /// The number of the session of each client that has one.
    closed spec fn view(&self) -> Map<ClientAddr, u64> {
        Map::new(
            |client: ClientAddr| numbers(self.map).contains_key(client.key()),
            |client: ClientAddr| numbers(self.map)[client.key()],
        )
    }
}

/// A session that has begun and waits for its worker.
pub struct Session {
    /// The number of the session among those of its client.
    pub number: u64,
    /// The receiving end of the session's queue.
    pub queue: Receiver<Vec<u8>>,
}

/// What the forwarder did with a datagram from a client.
pub struct Dispatch {
    /// The session that this datagram began: a worker is to be started on
    /// it.
    pub worker: Option<Session>,
    /// What became of the datagram at the queue of the client's session:
    /// the new one's for a client that had none, else the one that was
    /// there.
    pub outcome: Enqueue,
}

/// The number of the next session of `client`: zero for a client without a
/// session, else the number after that of the session it has, beginning
/// again at zero after the greatest.
pub open spec fn next_number(sessions: Map<ClientAddr, u64>, client: ClientAddr) -> u64 {
    if !sessions.contains_key(client) || sessions[client] == u64::MAX {
        0
    } else {
        (sessions[client] + 1) as u64
    }
}

/// Whether `worker` is the next session of `client`, begun: the map holds it
/// for the client in place of any that the client had, and for every other
/// client what it held before.
pub open spec fn begun(
    worker: Option<Session>,
    client: ClientAddr,
    before: Map<ClientAddr, u64>,
    after: Map<ClientAddr, u64>,
) -> bool {
    &&& worker matches Some(session)
    &&& session.number == next_number(before, client)
    &&& after == before.insert(client, session.number)
}

/// The sessions after `client` has ended the session with this number: the
/// session is gone if it was the client's, and nothing has changed if the
/// client has none or another by now.
pub open spec fn without(sessions: Map<ClientAddr, u64>, client: ClientAddr, number: u64) -> Map<
    ClientAddr,
    u64,
> {
    if sessions.contains_key(client) && sessions[client] == number {
        sessions.remove(client)
    } else {
        sessions
    }
}

/// Whether a datagram from `client` begins a session, `outcome` being what
/// became of it at the queue of the session that the client has, if any. A
/// client without a session begins one. So does a client whose session has
/// lost its worker, which shows in a closed queue: the client is not left
/// without service because a worker has failed.
pub open spec fn begins_session(sessions: Set<ClientAddr>, client: ClientAddr, outcome: Enqueue) -> bool {
    !sessions.contains(client) || outcome == Enqueue::Closed
}

/// The clients with a session after datagrams from `senders`, one after the
/// other: the senders, and those that had one before.
pub open spec fn after_datagrams(sessions: Set<ClientAddr>, senders: Seq<ClientAddr>) -> Set<
    ClientAddr,
>
    decreases senders.len(),
{
    if senders.len() == 0 {
        sessions
    } else {
        after_datagrams(sessions, senders.drop_last()).insert(senders.last())
    }
}

/// The number of workers that datagrams from `senders` start, `outcomes`
/// being what became of each at its queue: one for each datagram that
/// begins a session.
pub open spec fn workers_started(
    sessions: Set<ClientAddr>,
    senders: Seq<ClientAddr>,
    outcomes: Seq<Enqueue>,
) -> nat
    decreases senders.len(),
{
    if senders.len() == 0 {
        0
    } else {
        let before = after_datagrams(sessions, senders.drop_last());
        let here: nat = if begins_session(before, senders.last(), outcomes.last()) {
            1
        } else {
            0
        };
        workers_started(sessions, senders.drop_last(), outcomes.drop_last()) + here
    }
}

/// The senders of a run of datagrams are the clients with a session after
/// it, for a forwarder that starts without sessions.
proof fn lemma_sessions_of_senders(senders: Seq<ClientAddr>)
    ensures
        after_datagrams(Set::empty(), senders) == senders.to_set(),
    decreases senders.len(),
{
    if senders.len() == 0 {
        assert(senders.to_set() =~= Set::<ClientAddr>::empty());
    } else {
        let earlier = senders.drop_last();
        let last = senders.last();
        lemma_sessions_of_senders(earlier);
        assert(senders.to_set() =~= earlier.to_set().insert(last)) by {
            assert forall|c: ClientAddr| senders.to_set().contains(c) implies earlier.to_set().insert(
                last,
            ).contains(c) by {
                let i = choose|i: int| 0 <= i < senders.len() && senders[i] == c;
                if i < earlier.len() {
                    assert(earlier[i] == c);
                }
            }
            assert forall|c: ClientAddr| earlier.to_set().insert(last).contains(
                c,
            ) implies senders.to_set().contains(c) by {
                if c == last {
                    assert(senders[senders.len() - 1] == c);
                } else {
                    let i = choose|i: int| 0 <= i < earlier.len() && earlier[i] == c;
                    assert(senders[i] == c);
                }
            }
        }
    }
}

/// The first datagrams of distinct clients, in whatever order they come to
/// a forwarder without sessions, start one worker each and leave one
/// session each, whatever becomes of them at the queues.
pub proof fn lemma_one_session_per_client(senders: Seq<ClientAddr>, outcomes: Seq<Enqueue>)
    requires
        outcomes.len() == senders.len(),
        senders.no_duplicates(),
    ensures
        after_datagrams(Set::empty(), senders) == senders.to_set(),
        senders.to_set().len() == senders.len(),
        workers_started(Set::empty(), senders, outcomes) == senders.len(),
    decreases senders.len(),
{
    lemma_sessions_of_senders(senders);
    senders.unique_seq_to_set();
    if senders.len() > 0 {
        let earlier = senders.drop_last();
        lemma_one_session_per_client(earlier, outcomes.drop_last());
        lemma_sessions_of_senders(earlier);
        if earlier.to_set().contains(senders.last()) {
            let i = choose|i: int| 0 <= i < earlier.len() && earlier[i] == senders.last();
            assert(senders[i] == senders[senders.len() - 1]);
        }
    }
}

/// As long as no queue loses its worker, a forwarder that starts without
/// sessions has started one worker for each client that has sent a
/// datagram, however many each has sent and in whatever order.
pub proof fn lemma_one_worker_per_client(senders: Seq<ClientAddr>, outcomes: Seq<Enqueue>)
    requires
        outcomes.len() == senders.len(),
        forall|i: int| 0 <= i < outcomes.len() ==> outcomes[i] != Enqueue::Closed,
    ensures
        after_datagrams(Set::empty(), senders) == senders.to_set(),
        workers_started(Set::empty(), senders, outcomes) == senders.to_set().len(),
    decreases senders.len(),
{
    lemma_sessions_of_senders(senders);
    senders.lemma_cardinality_of_set();
    if senders.len() > 0 {
        let earlier = senders.drop_last();
        let last = senders.last();
        lemma_one_worker_per_client(earlier, outcomes.drop_last());
        lemma_sessions_of_senders(earlier);
        earlier.lemma_cardinality_of_set();
        if earlier.to_set().contains(last) {
            assert(earlier.to_set().insert(last) =~= earlier.to_set());
        }
    }
}

impl SessionMap {
    /// A map without sessions.
    pub fn new() -> (sessions: SessionMap)
        ensures
            sessions@ == Map::<ClientAddr, u64>::empty(),
    {
        let sessions = SessionMap { map: map_new() };
        assert(sessions@ =~= Map::<ClientAddr, u64>::empty());
        sessions
    }

    /// The number of the session of `client`, if it has one.
    pub fn session_of(&self, client: ClientAddr) -> (number: Option<u64>)
        ensures
            number is Some <==> self@.contains_key(client),
            number matches Some(n) ==> n == self@[client],
    {
        match map_get(&self.map, client.to_key()) {
            Some(entry) => Some(entry.0),
            None => None,
        }
    }

    /// Whether `client` has a session.
    pub fn contains(&self, client: ClientAddr) -> (found: bool)
        ensures
            found == self@.contains_key(client),
    {
        self.session_of(client).is_some()
    }

    /// Files the two ends of a new queue as the next session of `client`,
    /// in place of any that the client has: the sending end goes into the
    /// map, the receiving end to the worker that is to be started.
    fn begin(&mut self, client: ClientAddr, ends: (Sender<Vec<u8>>, Receiver<Vec<u8>>)) -> (session:
        Session)
        ensures
            session.number == next_number(old(self)@, client),
            final(self)@ == old(self)@.insert(client, session.number),
    {
        let number = match self.session_of(client) {
            Some(n) => if n == u64::MAX {
                0
            } else {
                n + 1
            },
            None => 0,
        };
        let (sender, queue) = ends;
        map_insert(&mut self.map, client.to_key(), number, sender);
        proof {
            assert forall|other: ClientAddr| other.key() == client.key() implies other
                == client by {
                ClientAddr::lemma_key_injective(other, client);
            }
            assert(self@ =~= old(self)@.insert(client, number));
        }
        Session { number, queue }
    }

    /// Begins a session for `client` with `datagram`, the client's first:
    /// a new queue takes the datagram, and the map holds the queue's sending
    /// end for the client. Returns the session, on which a worker is to be
    /// started.
    pub fn open(&mut self, client: ClientAddr, datagram: Vec<u8>) -> (out: Dispatch)
        ensures
            out.outcome == Enqueue::Sent,
            begun(out.worker, client, old(self)@, final(self)@),
    {
        let mut ends = queue(QUEUE_BOUND);
        let outcome = first_send(&mut ends, datagram);
        let session = self.begin(client, ends);
        Dispatch { worker: Some(session), outcome }
    }

    /// Begins a session for `client` in place of one that has lost its
    /// worker: the map holds the sending end of a new queue for the client,
    /// and nothing is in the queue. Returns the session, on which a worker
    /// is to be started.
    pub fn renew(&mut self, client: ClientAddr) -> (session: Session)
        ensures
            session.number == next_number(old(self)@, client),
            final(self)@ == old(self)@.insert(client, session.number),
    {
        let ends = queue(QUEUE_BOUND);
        self.begin(client, ends)
    }

    /// Ends the session of `client` with this number. A session that has
    /// been replaced by now is not the caller's to end, and stays.
    pub fn close(&mut self, client: ClientAddr, number: u64) -> (closed: bool)
        ensures
            final(self)@ == without(old(self)@, client, number),
            closed == (old(self)@.contains_key(client) && old(self)@[client] == number),
    {
        match self.session_of(client) {
            Some(n) => if n == number {
                map_remove(&mut self.map, client.to_key());
                proof {
                    assert forall|other: ClientAddr| other.key() == client.key() implies other
                        == client by {
                        ClientAddr::lemma_key_injective(other, client);
                    }
                    assert(self@ =~= old(self)@.remove(client));
                }
                true
            } else {
                false
            },
            None => false,
        }
    }

    /// Acts on what became of a datagram that was offered to the queue of
    /// `client`'s session. A queue that is closed has lost its worker: the
    /// datagram is gone, and a new session takes the place of the old one
    /// at once, so that the client's next datagram finds a worker. Any other
    /// outcome leaves the session as it is.
    pub fn settle(&mut self, client: ClientAddr, outcome: Enqueue) -> (out: Dispatch)
        requires
            old(self)@.contains_key(client),
        ensures
            out.outcome == outcome,
            outcome != Enqueue::Closed ==> out.worker is None && final(self)@ == old(self)@,
            outcome == Enqueue::Closed ==> begun(out.worker, client, old(self)@, final(self)@),
    {
        let worker = if let Enqueue::Closed = outcome {
            Some(self.renew(client))
        } else {
            None
        };
        Dispatch { worker, outcome }
    }

    /// Hands a datagram from `client` to the client's session.
    ///
    /// - Where the client has no session, one begins: a new queue takes the
    ///   datagram, and the result holds the session, on which a worker is to
    ///   be started.
    /// - Where the queue of the client's session takes the datagram,
    ///   nothing else happens.
    /// - Where that queue is full, the datagram is dropped.
    /// - Where that queue is closed, its worker is gone. The datagram is
    ///   dropped, and a new session takes the place of the old one: the
    ///   result holds it, and a worker is to be started on it.
    ///
    /// Either way the client has a session afterwards, and no other client's
    /// session has changed.
    pub fn dispatch(&mut self, client: ClientAddr, datagram: Vec<u8>) -> (out: Dispatch)
        ensures
            out.worker is Some <==> begins_session(old(self)@.dom(), client, out.outcome),
            !old(self)@.contains_key(client) ==> out.outcome == Enqueue::Sent,
            out.worker is None ==> final(self)@ == old(self)@,
            out.worker is Some ==> begun(out.worker, client, old(self)@, final(self)@),
            final(self)@.dom() == old(self)@.dom().insert(client),
    {
        match map_get(&self.map, client.to_key()) {
            Some(entry) => {
                let mut sender = entry.1;
                let outcome = try_send(&mut sender, datagram);
                let out = self.settle(client, outcome);
                assert(self@.dom() =~= old(self)@.dom().insert(client));
                out
            },
            None => {
                let out = self.open(client, datagram);
                assert(self@.dom() =~= old(self)@.dom().insert(client));
                out
            },
        }
    }
}

/// What happens to the socket that a forwarder receives on.
#[derive(Debug)]
pub enum ReceiverEvent {
    /// The socket is bound to its address.
    Bound,
    /// The socket could not be bound: the error, in words.
    BindFailed(String),
    /// Receiving has failed: the error, in words.
    ReceiveFailed(String),
}

/// What a forwarder does next.
#[derive(Debug)]
pub enum ReceiverAction {
    /// Logs the line and goes on receiving.
    Log(LogLine),
    /// Logs the line and ends: this rule forwards nothing.
    Fail(LogLine),
}

/// How far a session's worker has come.
#[derive(Clone, Copy, Debug, PartialEq, Eq, Structural)]
pub enum SessionState {
    /// The socket to the upstream is being bound and connected.
    Starting,
    /// Datagrams are relayed in both directions.
    Relaying,
    /// The worker is over.
    Ended,
}

/// What happens to a session's worker.
#[derive(Debug)]
pub enum SessionEvent {
    /// The socket to the upstream is bound and connected.
    Connected,
    /// The socket could not be bound: the error, in words.
    BindFailed(String),
    /// The socket could not be connected: the error, in words.
    ConnectFailed(String),
    /// A datagram of the client has come out of the queue.
    Ingress(Vec<u8>),
    /// A datagram has come from the upstream.
    Upstream(Vec<u8>),
    /// A datagram could not be sent to the upstream: the error, in words.
    UpstreamSendFailed(String),
    /// A datagram could not be sent to the client: the error, in words.
    ClientSendFailed(String),
}

/// What a session's worker does next.
#[derive(Debug)]
pub enum SessionAction {
    /// Nothing: the event does not belong to the worker's state.
    Nothing,
    /// Waits for the queue, the upstream and the clock. By now the worker's
    /// socket is bound to `WORKER_BIND` and connected to the upstream.
    Relay,
    /// Sends the datagram to the upstream, before it looks at anything else.
    SendUpstream(Vec<u8>),
    /// Sends the datagram to the client, from the socket that the forwarder
    /// receives on.
    SendToClient(ClientAddr, Vec<u8>),
    /// Logs the line and goes on.
    Log(LogLine),
    /// Logs the line and ends, leaving the session in the map and dropping
    /// the queue: the client's next datagram finds the queue closed and
    /// begins another session.
    Abandon(LogLine),
}

/// The state of a worker after an event. An event that does not belong to
/// the state changes nothing.
pub open spec fn next_state(state: SessionState, event: SessionEvent) -> SessionState {
    match (state, event) {
        (SessionState::Starting, SessionEvent::Connected) => SessionState::Relaying,
        (SessionState::Starting, SessionEvent::BindFailed(_)) => SessionState::Ended,
        (SessionState::Starting, SessionEvent::ConnectFailed(_)) => SessionState::Ended,
        _ => state,
    }
}

/// A datagram on its way out of a worker.
pub enum Relayed {
    /// To the upstream.
    Upstream(Seq<u8>),
    /// To a client.
    Client(ClientAddr, Seq<u8>),
}

/// The datagram that an action sends, if it sends one.
pub open spec fn sends(action: SessionAction) -> Option<Relayed> {
    match action {
        SessionAction::SendUpstream(bytes) => Some(Relayed::Upstream(bytes@)),
        SessionAction::SendToClient(client, bytes) => Some(Relayed::Client(client, bytes@)),
        _ => None,
    }
}

/// The datagram that the worker of `client`'s session sends for an event in
/// `state`: while it relays, what comes out of the queue goes to the
/// upstream and what comes from the upstream goes to `client`.
pub open spec fn relayed(client: ClientAddr, state: SessionState, event: SessionEvent) -> Option<
    Relayed,
> {
    match (state, event) {
        (SessionState::Relaying, SessionEvent::Ingress(bytes)) => Some(Relayed::Upstream(bytes@)),
        (SessionState::Relaying, SessionEvent::Upstream(bytes)) => Some(
            Relayed::Client(client, bytes@),
        ),
        _ => None,
    }
}

/// The state of a worker after a run of events.
pub open spec fn state_after(state: SessionState, events: Seq<SessionEvent>) -> SessionState
    decreases events.len(),
{
    if events.len() == 0 {
        state
    } else {
        next_state(state_after(state, events.drop_last()), events.last())
    }
}

/// The datagrams that the worker of `client`'s session sends for a run of
/// events that begins in `state`, in the order in which it sends them.
pub open spec fn relayed_all(client: ClientAddr, state: SessionState, events: Seq<SessionEvent>) -> Seq<
    Relayed,
>
    decreases events.len(),
{
    if events.len() == 0 {
        Seq::<Relayed>::empty()
    } else {
        let before = relayed_all(client, state, events.drop_last());
        match relayed(client, state_after(state, events.drop_last()), events.last()) {
            Some(datagram) => before.push(datagram),
            None => before,
        }
    }
}

/// The datagrams among a run of events, each with where a relaying worker
/// of `client`'s session sends it, in the order of the events.
pub open spec fn arrivals(client: ClientAddr, events: Seq<SessionEvent>) -> Seq<Relayed>
    decreases events.len(),
{
    if events.len() == 0 {
        Seq::<Relayed>::empty()
    } else {
        let before = arrivals(client, events.drop_last());
        match events.last() {
            SessionEvent::Ingress(bytes) => before.push(Relayed::Upstream(bytes@)),
            SessionEvent::Upstream(bytes) => before.push(Relayed::Client(client, bytes@)),
            _ => before,
        }
    }
}

/// A worker that relays sends each datagram that arrives, once, unchanged
/// and in the order of arrival: those of its client to the upstream, those of
/// the upstream to its client and to no other. Nothing that happens to it
/// makes it stop relaying.
pub proof fn lemma_relays_in_order(client: ClientAddr, events: Seq<SessionEvent>)
    ensures
        state_after(SessionState::Relaying, events) == SessionState::Relaying,
        relayed_all(client, SessionState::Relaying, events) == arrivals(client, events),
    decreases events.len(),
{
    if events.len() > 0 {
        lemma_relays_in_order(client, events.drop_last());
    }
}

/// What a worker says when it ends its session for silence.
pub open spec fn idle_message() -> Seq<char> {
    "No data transport for "@ + decimal(IDLE_SECONDS as nat) + " seconds, closing connection"@
}

/// The first `len` bytes of `buffer`: the datagram that a receive of `len`
/// bytes left there.
pub fn datagram(buffer: &Vec<u8>, len: usize) -> (bytes: Vec<u8>)
    requires
        len <= buffer.len(),
    ensures
        bytes@ == buffer@.take(len as int),
{
    let mut bytes: Vec<u8> = Vec::with_capacity(len);
    let mut i: usize = 0;
    while i < len
        invariant
            i <= len <= buffer.len(),
            bytes@ == buffer@.take(i as int),
        decreases len - i,
    {
        bytes.push(buffer[i]);
        i += 1;
    }
    bytes
}

impl UdpProxy {
    /// A forwarder from `listen` to `upstream` with buffers of `buffer_size`
    /// bytes.
    pub fn new(listen: String, upstream: String, buffer_size: usize) -> (proxy: Self)
        ensures
            proxy.listen == listen,
            proxy.upstream == upstream,
            proxy.buffer_size == buffer_size,
    {
        Self { listen, upstream, buffer_size }
    }

    /// The name of the rule in log lines: `listen->upstream`.
    pub fn label(&self) -> (text: String)
        ensures
            text@ == rule_label(self.listen@, self.upstream@),
    {
        label(self.listen.as_str(), self.upstream.as_str())
    }

    /// A buffer of `buffer_size` bytes to receive into.
    pub fn buffer(&self) -> (bytes: Vec<u8>)
        ensures
            bytes.len() == self.buffer_size,
            forall|i: int| 0 <= i < bytes.len() ==> bytes[i] == 0,
    {
        let mut bytes: Vec<u8> = Vec::new();
        bytes.resize(self.buffer_size, 0u8);
        bytes
    }

    /// The text of a log line of this forwarder.
    pub open spec fn line(&self, level: Level, message: Seq<char>) -> Seq<char> {
        log_text(level, Protocol::Udp, self.listen@, self.upstream@, message)
    }

    /// Writes a log line of this forwarder.
    fn log(&self, level: Level, message: &str) -> (line: LogLine)
        ensures
            line.level == level,
            line.text@ == self.line(level, message@),
    {
        log_line(level, Protocol::Udp, self.listen.as_str(), self.upstream.as_str(), message)
    }

    /// Writes a warning of this forwarder: what failed, then the error.
    fn warn(&self, failure: &str, error: &str) -> (line: LogLine)
        ensures
            line.level == Level::Warning,
            line.text@ == self.line(Level::Warning, failure@ + error@),
    {
        let mut text = String::from_str(failure);
        text.append(error);
        self.log(Level::Warning, text.as_str())
    }

    /// What the forwarder does when something happens to its socket. Only a
    /// failure to bind ends it.
    pub fn on_receiver_event(&self, event: ReceiverEvent) -> (action: ReceiverAction)
        ensures
            match event {
                ReceiverEvent::Bound => action matches ReceiverAction::Log(line) && line.level
                    == Level::Info && line.text@ == self.line(Level::Info, "Listening"@),
                ReceiverEvent::BindFailed(error) => action matches ReceiverAction::Fail(line)
                    && line.level == Level::Warning && line.text@ == self.line(
                    Level::Warning,
                    "Failed to listen: "@ + error@,
                ),
                ReceiverEvent::ReceiveFailed(error) => action matches ReceiverAction::Log(line)
                    && line.level == Level::Warning && line.text@ == self.line(
                    Level::Warning,
                    "Failed to recv from downstream: "@ + error@,
                ),
            },
    {
        match event {
            ReceiverEvent::Bound => ReceiverAction::Log(self.log(Level::Info, "Listening")),
            ReceiverEvent::BindFailed(error) => ReceiverAction::Fail(
                self.warn("Failed to listen: ", error.as_str()),
            ),
            ReceiverEvent::ReceiveFailed(error) => ReceiverAction::Log(
                self.warn("Failed to recv from downstream: ", error.as_str()),
            ),
        }
    }

    /// The warning for a datagram that a queue did not take, or nothing for
    /// one that it took.
    pub fn on_enqueue(&self, outcome: Enqueue) -> (warning: Option<LogLine>)
        ensures
            match outcome {
                Enqueue::Sent => warning is None,
                Enqueue::Full => warning matches Some(line) && line.level == Level::Warning
                    && line.text@ == self.line(Level::Warning, "Datagram dropped: queue is full"@),
                Enqueue::Closed => warning matches Some(line) && line.level == Level::Warning
                    && line.text@ == self.line(
                    Level::Warning,
                    "Datagram dropped: queue is closed"@,
                ),
            },
    {
        match outcome {
            Enqueue::Sent => None,
            Enqueue::Full => Some(self.log(Level::Warning, "Datagram dropped: queue is full")),
            Enqueue::Closed => Some(self.log(Level::Warning, "Datagram dropped: queue is closed")),
        }
    }

    /// What the worker of `client`'s session does with an event in `state`,
    /// and the state it is in afterwards. A datagram from the queue goes to
    /// the upstream and one from the upstream to the client, each as it
    /// came. A failure to send ends nothing.
    pub fn on_session_event(&self, client: ClientAddr, state: SessionState, event: SessionEvent) -> (out: (
        SessionState,
        SessionAction,
    ))
        ensures
            out.0 == next_state(state, event),
            sends(out.1) == relayed(client, state, event),
            match (state, event) {
                (SessionState::Starting, SessionEvent::Connected) => out.1 is Relay,
                (SessionState::Starting, SessionEvent::BindFailed(error)) => out.1 matches SessionAction::Abandon(
                    line,
                ) && line.level == Level::Warning && line.text@ == self.line(
                    Level::Warning,
                    "Failed to bind client socket: "@ + error@,
                ),
                (SessionState::Starting, SessionEvent::ConnectFailed(error)) => out.1 matches SessionAction::Abandon(
                    line,
                ) && line.level == Level::Warning && line.text@ == self.line(
                    Level::Warning,
                    "Failed to connect to upstream: "@ + error@,
                ),
                (SessionState::Relaying, SessionEvent::Ingress(bytes)) => out.1
                    == SessionAction::SendUpstream(bytes),
                (SessionState::Relaying, SessionEvent::Upstream(bytes)) => out.1
                    == SessionAction::SendToClient(client, bytes),
                (SessionState::Relaying, SessionEvent::UpstreamSendFailed(error)) => out.1 matches SessionAction::Log(
                    line,
                ) && line.level == Level::Warning && line.text@ == self.line(
                    Level::Warning,
                    "Failed to send to upstream: "@ + error@,
                ),
                (SessionState::Relaying, SessionEvent::ClientSendFailed(error)) => out.1 matches SessionAction::Log(
                    line,
                ) && line.level == Level::Warning && line.text@ == self.line(
                    Level::Warning,
                    "Failed to send to downstream: "@ + error@,
                ),
                _ => out.1 is Nothing,
            },
    {
        match (state, event) {
            (SessionState::Starting, SessionEvent::Connected) => (
                SessionState::Relaying,
                SessionAction::Relay,
            ),
            (SessionState::Starting, SessionEvent::BindFailed(error)) => (
                SessionState::Ended,
                SessionAction::Abandon(
                    self.warn("Failed to bind client socket: ", error.as_str()),
                ),
            ),
            (SessionState::Starting, SessionEvent::ConnectFailed(error)) => (
                SessionState::Ended,
                SessionAction::Abandon(
                    self.warn("Failed to connect to upstream: ", error.as_str()),
                ),
            ),
            (SessionState::Relaying, SessionEvent::Ingress(bytes)) => (
                SessionState::Relaying,
                SessionAction::SendUpstream(bytes),
            ),
            (SessionState::Relaying, SessionEvent::Upstream(bytes)) => (
                SessionState::Relaying,
                SessionAction::SendToClient(client, bytes),
            ),
            (SessionState::Relaying, SessionEvent::UpstreamSendFailed(error)) => (
                SessionState::Relaying,
                SessionAction::Log(
                    self.warn("Failed to send to upstream: ", error.as_str()),
                ),
            ),
            (SessionState::Relaying, SessionEvent::ClientSendFailed(error)) => (
                SessionState::Relaying,
                SessionAction::Log(
                    self.warn("Failed to send to downstream: ", error.as_str()),
                ),
            ),
            (state, _) => (state, SessionAction::Nothing),
        }
    }

    /// Ends a session after `IDLE_SECONDS` without a datagram in either
    /// direction: the session of `client` with this number leaves the map,
    /// and the worker is over. The line is to be logged, and the worker's
    /// socket and queue are to be dropped after this call, not before. A
    /// worker that is not relaying has nothing to end.
    pub fn on_idle(
        &self,
        sessions: &mut SessionMap,
        client: ClientAddr,
        number: u64,
        state: SessionState,
    ) -> (out: (SessionState, Option<LogLine>))
        ensures
            state == SessionState::Relaying ==> {
                &&& out.0 == SessionState::Ended
                &&& final(sessions)@ == without(old(sessions)@, client, number)
                &&& out.1 matches Some(line) && line.level == Level::Info && line.text@
                    == self.line(Level::Info, idle_message())
            },
            state != SessionState::Relaying ==> {
                &&& out.0 == state
                &&& final(sessions)@ == old(sessions)@
                &&& out.1 is None
            },
    {
        match state {
            SessionState::Relaying => {
                sessions.close(client, number);
                let mut message = String::from_str("No data transport for ");
                push_decimal(&mut message, IDLE_SECONDS);
                message.append(" seconds, closing connection");
                (SessionState::Ended, Some(self.log(Level::Info, message.as_str())))
            },
            _ => (state, None),
        }
    }
}

} // verus!
