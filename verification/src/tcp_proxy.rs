//! The TCP forwarder of one rule: what the listener and each connection do
//! with what happens to them.
//!
//! The listener accepts connections for as long as it runs; a failed accept
//! ends nothing. Each connection dials the upstream, copies bytes both ways
//! until either stream closes, and reports the bytes moved in each
//! direction.

use crate::mapping_rule::Protocol;
use crate::report::{label, log_line, log_text, rule_label, Level, LogLine};
use crate::text::{decimal, push_decimal};
use vstd::prelude::*;
use vstd::string::StringExecFns;

verus! {

/// The TCP forwarder of one rule: the address listened on and the address
/// that connections are spliced to.
#[derive(Debug)]
pub struct TcpProxy {
    pub listen: String,
    pub upstream: String,
}

/// What happens to a listener.
#[derive(Debug)]
pub enum ListenerEvent {
    /// The listener is bound to its address.
    Bound,
    /// The listener could not be bound: the error, in words.
    BindFailed(String),
    /// A client has connected.
    Accepted,
    /// A connection could not be accepted: the error, in words.
    AcceptFailed(String),
}

/// What a listener does next.
#[derive(Debug)]
pub enum ListenerAction {
    /// Logs the line and goes on accepting.
    Log(LogLine),
    /// Starts a connection, which dials the upstream, and goes on accepting.
    Dial,
    /// Logs the line and ends: this rule forwards nothing.
    Fail(LogLine),
}

/// How far a connection has come.
#[derive(Clone, Copy, Debug, PartialEq, Eq, Structural)]
pub enum ConnectionState {
    /// The upstream is being dialled.
    Dialing,
    /// Bytes are copied in both directions.
    Splicing,
    /// The connection is over.
    Closed,
}

/// What happens to a connection.
#[derive(Debug)]
pub enum ConnectionEvent {
    /// The upstream has answered.
    Dialed,
    /// The upstream could not be reached: the error, in words.
    DialFailed(String),
    /// One of the streams has closed, which ends the copying: the bytes that
    /// went to the upstream by then and those that came from it.
    Spliced { sent: u64, received: u64 },
    /// Copying has failed: the error, in words.
    SpliceFailed(String),
}

/// What a connection does next.
#[derive(Debug)]
pub enum ConnectionAction {
    /// Nothing: the event does not belong to the connection's state.
    Nothing,
    /// Copies bytes in both directions until either stream closes.
    Splice,
    /// Logs the line, drops both streams and ends.
    Close(LogLine),
}

/// The state of a connection after an event. An event that does not belong
/// to the state changes nothing.
pub open spec fn next_state(state: ConnectionState, event: ConnectionEvent) -> ConnectionState {
    match (state, event) {
        (ConnectionState::Dialing, ConnectionEvent::Dialed) => ConnectionState::Splicing,
        (ConnectionState::Dialing, ConnectionEvent::DialFailed(_)) => ConnectionState::Closed,
        (ConnectionState::Splicing, ConnectionEvent::Spliced { .. }) => ConnectionState::Closed,
        (ConnectionState::Splicing, ConnectionEvent::SpliceFailed(_)) => ConnectionState::Closed,
        _ => state,
    }
}

/// The report of a connection that closed in order: the bytes moved in each
/// direction.
pub open spec fn closed_message(listen: Seq<char>, upstream: Seq<char>, sent: u64, received: u64) -> Seq<
    char,
> {
    "Connection closed: "@ + listen + " Send "@ + decimal(sent as nat) + "B to "@ + upstream
        + " and receive "@ + decimal(received as nat) + "B"@
}

impl TcpProxy {
    /// A forwarder from `listen` to `upstream`.
    pub fn new(listen: String, upstream: String) -> (proxy: Self)
        ensures
            proxy.listen == listen,
            proxy.upstream == upstream,
    {
        Self { listen, upstream }
    }

    /// The name of the rule in log lines: `listen->upstream`.
    pub fn label(&self) -> (text: String)
        ensures
            text@ == rule_label(self.listen@, self.upstream@),
    {
        label(self.listen.as_str(), self.upstream.as_str())
    }

    /// The text of a log line of this forwarder.
    pub open spec fn line(&self, level: Level, message: Seq<char>) -> Seq<char> {
        log_text(level, Protocol::Tcp, self.listen@, self.upstream@, message)
    }

    /// Writes a log line of this forwarder.
    fn log(&self, level: Level, message: &str) -> (line: LogLine)
        ensures
            line.level == level,
            line.text@ == self.line(level, message@),
    {
        log_line(level, Protocol::Tcp, self.listen.as_str(), self.upstream.as_str(), message)
    }

    /// Writes a warning of this forwarder: what failed, then the error.
    fn warn(&self, failure: &str, error: &str) -> (line: LogLine)
        ensures
            line.level == Level::Warning,
            line.text@ == self.line(Level::Warning, failure@ + error@),
    {
        let mut text = String::from_str(failure);
        text.append(error);
        self.log(Level::Warning, text.as_str())
    }

    /// What the listener does with an event. Only a failure to bind ends it.
    pub fn on_listener_event(&self, event: ListenerEvent) -> (action: ListenerAction)
        ensures
            match event {
                ListenerEvent::Bound => action matches ListenerAction::Log(line) && line.level
                    == Level::Info && line.text@ == self.line(Level::Info, "Listening"@),
                ListenerEvent::BindFailed(error) => action matches ListenerAction::Fail(line)
                    && line.level == Level::Warning && line.text@ == self.line(
                    Level::Warning,
                    "Failed to listen: "@ + error@,
                ),
                ListenerEvent::Accepted => action is Dial,
                ListenerEvent::AcceptFailed(error) => action matches ListenerAction::Log(line)
                    && line.level == Level::Warning && line.text@ == self.line(
                    Level::Warning,
                    "Failed to accept connection: "@ + error@,
                ),
            },
    {
        match event {
            ListenerEvent::Bound => ListenerAction::Log(self.log(Level::Info, "Listening")),
            ListenerEvent::BindFailed(error) => ListenerAction::Fail(
                self.warn("Failed to listen: ", error.as_str()),
            ),
            ListenerEvent::Accepted => ListenerAction::Dial,
            ListenerEvent::AcceptFailed(error) => ListenerAction::Log(
                self.warn("Failed to accept connection: ", error.as_str()),
            ),
        }
    }

    /// What a connection in `state` does with an event, and the state it is
    /// in afterwards. A failure ends the connection and nothing else.
    pub fn on_connection_event(&self, state: ConnectionState, event: ConnectionEvent) -> (out: (
        ConnectionState,
        ConnectionAction,
    ))
        ensures
            out.0 == next_state(state, event),
            match (state, event) {
                (ConnectionState::Dialing, ConnectionEvent::Dialed) => out.1 is Splice,
                (ConnectionState::Dialing, ConnectionEvent::DialFailed(error)) => out.1 matches ConnectionAction::Close(
                    line,
                ) && line.level == Level::Warning && line.text@ == self.line(
                    Level::Warning,
                    "Failed to connect: "@ + error@,
                ),
                (ConnectionState::Splicing, ConnectionEvent::Spliced { sent, received }) => out.1 matches ConnectionAction::Close(
                    line,
                ) && line.level == Level::Info && line.text@ == self.line(
                    Level::Info,
                    closed_message(self.listen@, self.upstream@, sent, received),
                ),
                (ConnectionState::Splicing, ConnectionEvent::SpliceFailed(error)) => out.1 matches ConnectionAction::Close(
                    line,
                ) && line.level == Level::Warning && line.text@ == self.line(
                    Level::Warning,
                    "Connection error: "@ + error@,
                ),
                _ => out.1 is Nothing,
            },
    {
        match (state, event) {
            (ConnectionState::Dialing, ConnectionEvent::Dialed) => (
                ConnectionState::Splicing,
                ConnectionAction::Splice,
            ),
            (ConnectionState::Dialing, ConnectionEvent::DialFailed(error)) => (
                ConnectionState::Closed,
                ConnectionAction::Close(
                    self.warn("Failed to connect: ", error.as_str()),
                ),
            ),
            (ConnectionState::Splicing, ConnectionEvent::Spliced { sent, received }) => {
                let mut detail = String::from_str("Connection closed: ");
                detail.append(self.listen.as_str());
                detail.append(" Send ");
                push_decimal(&mut detail, sent);
                detail.append("B to ");
                detail.append(self.upstream.as_str());
                detail.append(" and receive ");
                push_decimal(&mut detail, received);
                detail.append("B");
                (
                    ConnectionState::Closed,
                    ConnectionAction::Close(self.log(Level::Info, detail.as_str())),
                )
            },
            (ConnectionState::Splicing, ConnectionEvent::SpliceFailed(error)) => (
                ConnectionState::Closed,
                ConnectionAction::Close(
                    self.warn("Connection error: ", error.as_str()),
                ),
            ),
            (state, _) => (state, ConnectionAction::Nothing),
        }
    }
}

} // verus!
