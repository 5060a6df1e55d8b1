//! The event relay: what the listener does with the bytes of a connection,
//! how its accept loop moves on, and what a sender checks before it sends.
//!
//! Sockets and the subscriber are not here. The program around this library
//! reads and writes them; it hands over what it read and carries out what
//! these functions decide.

use crate::json::{parsed_bytes, Json};
use vstd::prelude::*;
use vstd::string::StringExecFns;

verus! {

/// The loopback address on which the relay listens.
pub const HOST: &'static str = "127.0.0.1";

/// The port on which the relay listens.
pub const PORT: u16 = 19876;

/// The name under which the relay publishes an event to its subscriber.
pub const EVENT_NAME: &'static str = "pet-event";

/// How long a sender waits for the relay to take its connection, in seconds.
pub const CONNECT_TIMEOUT_SECS: u64 = 1;

/// A buffer is an event where it is not empty and holds one JSON document.
pub open spec fn is_event(bytes: Seq<u8>) -> bool {
    bytes.len() > 0 && parsed_bytes(bytes) is Some
}

/// Why the relay dropped what a connection carried.
#[derive(Debug, PartialEq, Eq)]
pub enum Dropped {
    /// Reading the connection failed; holds the error's text.
    ReadFailed(String),
    /// The peer closed the connection without sending a byte.
    Empty,
    /// The bytes are not JSON; holds the parser's message.
    Malformed(String),
}

/// What the relay does with a connection once its peer has closed it.
#[derive(Debug, PartialEq, Eq)]
pub enum Delivery {
    /// Publish this payload to the subscriber, once.
    Publish(Json),
    /// Publish nothing.
    Drop(Dropped),
}

/// Decides what becomes of a connection, from what reading it to its end
/// gave: the bytes, or the text of a read error.
///
/// A buffer that is an event is published, once, with the document that the
/// bytes hold as its payload. Anything else is dropped: nothing is published
/// and nothing fails.
pub fn receive(read: Result<Vec<u8>, String>) -> (delivery: Delivery)
    ensures
        (match read {
            Err(text) => delivery matches Delivery::Drop(Dropped::ReadFailed(kept)) && kept@
                == text@,
            Ok(bytes) => if bytes@.len() == 0 {
                delivery == Delivery::Drop(Dropped::Empty)
            } else {
                match parsed_bytes(bytes@) {
                    Some(document) => delivery matches Delivery::Publish(payload) && payload@
                        == document,
                    None => delivery matches Delivery::Drop(Dropped::Malformed(_)),
                }
            },
        }),
        read matches Ok(bytes) ==> (is_event(bytes@) <==> delivery is Publish),
{
    match read {
        Err(text) => Delivery::Drop(Dropped::ReadFailed(text)),
        Ok(bytes) => {
            if bytes.len() == 0 {
                Delivery::Drop(Dropped::Empty)
            } else {
                match Json::parse_bytes(bytes.as_slice()) {
                    Ok(payload) => Delivery::Publish(payload),
                    Err(message) => Delivery::Drop(Dropped::Malformed(message)),
                }
            }
        },
    }
}

impl Dropped {
    /// The line that the relay logs for a dropped connection. An empty
    /// connection is dropped silently: it has no line.
    pub fn log_line(&self) -> (line: Option<String>)
        ensures
            (match self {
                Dropped::ReadFailed(text) => line matches Some(out) && out@ == "Read error: "@
                    + text@,
                Dropped::Empty => line is None,
                Dropped::Malformed(text) => line matches Some(out) && out@
                    == "JSON parse error: "@ + text@,
            }),
    {
        match self {
            Dropped::ReadFailed(text) => Some(
                String::from_str("Read error: ").concat(text.as_str()),
            ),
            Dropped::Empty => None,
            Dropped::Malformed(text) => Some(
                String::from_str("JSON parse error: ").concat(text.as_str()),
            ),
        }
    }
}

/// Where the listener stands.
#[derive(Clone, Copy, Debug, PartialEq, Eq, Structural)]
pub enum ServerState {
    /// Not bound yet.
    Starting,
    /// Bound, and accepting connections.
    Listening,
    /// Ended: the port could not be bound.
    Stopped,
}

/// What the listener's socket reported.
#[derive(Debug, PartialEq, Eq)]
pub enum ServerEvent {
    /// The port is bound.
    Bound,
    /// The port could not be bound, most often because another relay has it;
    /// holds the error's text.
    BindFailed(String),
    /// A connection came in.
    Accepted,
    /// Accepting a connection failed; holds the error's text.
    AcceptFailed(String),
}

/// What the listener does next.
#[derive(Clone, Copy, Debug, PartialEq, Eq, Structural)]
pub enum ServerAction {
    /// Bind the port.
    Bind,
    /// Wait for the next connection.
    Accept,
    /// Hand the connection that came in to a task of its own, and wait for
    /// the next one without waiting for that task.
    Serve,
    /// End the listener; the program around it goes on.
    Stop,
}

/// The state after an event.
///
/// A listener that has not bound yet starts listening or stops, as the bind
/// went. A listener that listens goes on listening whatever happens. A
/// stopped listener stays stopped.
pub open spec fn next_state(state: ServerState, event: ServerEvent) -> ServerState {
    match state {
        ServerState::Starting => match event {
            ServerEvent::Bound => ServerState::Listening,
            ServerEvent::BindFailed(_) => ServerState::Stopped,
            _ => ServerState::Starting,
        },
        ServerState::Listening => ServerState::Listening,
        ServerState::Stopped => ServerState::Stopped,
    }
}

/// What the listener does after an event. Once bound it waits for a
/// connection; it serves each connection that comes in and waits for the
/// next, also after a failed accept. It stops where the port could not be
/// bound.
pub open spec fn next_action(state: ServerState, event: ServerEvent) -> ServerAction {
    match state {
        ServerState::Starting => match event {
            ServerEvent::Bound => ServerAction::Accept,
            ServerEvent::BindFailed(_) => ServerAction::Stop,
            _ => ServerAction::Bind,
        },
        ServerState::Listening => if event is Accepted {
            ServerAction::Serve
        } else {
            ServerAction::Accept
        },
        ServerState::Stopped => ServerAction::Stop,
    }
}

/// The state after a run of events.
pub open spec fn state_after(state: ServerState, events: Seq<ServerEvent>) -> ServerState
    decreases events.len(),
{
    if events.len() == 0 {
        state
    } else {
        next_state(state_after(state, events.drop_last()), events.last())
    }
}

/// A listener that listens never stops: whatever events follow, accept
/// errors among them, it still listens.
pub proof fn lemma_listener_keeps_listening(events: Seq<ServerEvent>)
    ensures
        state_after(ServerState::Listening, events) == ServerState::Listening,
    decreases events.len(),
{
    if events.len() > 0 {
        lemma_listener_keeps_listening(events.drop_last());
    }
}

/// One step of the listener: the state and the action that follow an event.
///
/// The listener starts in `Starting`; the program around it binds the port
/// and reports `Bound` or `BindFailed`, and from then on reports each accept.
pub fn server_step(state: ServerState, event: &ServerEvent) -> (next: (ServerState, ServerAction))
    ensures
        next.0 == next_state(state, *event),
        next.1 == next_action(state, *event),
        state == ServerState::Listening ==> next.0 == ServerState::Listening && next.1
            != ServerAction::Stop,
{
    match state {
        ServerState::Starting => match event {
            ServerEvent::Bound => (ServerState::Listening, ServerAction::Accept),
            ServerEvent::BindFailed(_) => (ServerState::Stopped, ServerAction::Stop),
            _ => (ServerState::Starting, ServerAction::Bind),
        },
        ServerState::Listening => match event {
            ServerEvent::Accepted => (ServerState::Listening, ServerAction::Serve),
            _ => (ServerState::Listening, ServerAction::Accept),
        },
        ServerState::Stopped => (ServerState::Stopped, ServerAction::Stop),
    }
}

impl ServerEvent {
    /// The line that the relay logs for an event.
    pub fn log_line(&self) -> (line: Option<String>)
        ensures
            (match self {
                ServerEvent::Bound => line matches Some(out) && out@
                    == "Listening on 127.0.0.1:19876"@,
                ServerEvent::BindFailed(text) => line matches Some(out) && out@
                    == "Port 19876 already in use: "@ + text@,
                ServerEvent::Accepted => line is None,
                ServerEvent::AcceptFailed(text) => line matches Some(out) && out@
                    == "Accept error: "@ + text@,
            }),
    {
        match self {
            ServerEvent::Bound => Some(String::from_str("Listening on 127.0.0.1:19876")),
            ServerEvent::BindFailed(text) => Some(
                String::from_str("Port 19876 already in use: ").concat(text.as_str()),
            ),
            ServerEvent::Accepted => None,
            ServerEvent::AcceptFailed(text) => Some(
                String::from_str("Accept error: ").concat(text.as_str()),
            ),
        }
    }
}

/// Why a sender did not deliver its event.
#[derive(Clone, Copy, Debug, PartialEq, Eq, Structural)]
pub enum NotDelivered {
    /// Reading the input failed.
    ReadFailed,
    /// The input was empty.
    Empty,
    /// The input is not JSON.
    Malformed,
    /// The relay did not take the connection in time.
    Unreachable,
    /// The connection broke while the event was written.
    WriteFailed,
}

/// How a sender's one attempt ended.
#[derive(Clone, Copy, Debug, PartialEq, Eq, Structural)]
pub enum SendOutcome {
    Delivered,
    NotDelivered(NotDelivered),
}

/// Checks what a sender read from its input, before it connects.
///
/// An input that is an event is handed back as it is, to be written to the
/// relay whole. For any other input there is nothing to send.
pub fn prepare_event(input: Result<Vec<u8>, String>) -> (r: Result<Vec<u8>, NotDelivered>)
    ensures
        (match input {
            Err(_) => r == Err::<Vec<u8>, NotDelivered>(NotDelivered::ReadFailed),
            Ok(bytes) => if bytes@.len() == 0 {
                r == Err::<Vec<u8>, NotDelivered>(NotDelivered::Empty)
            } else if parsed_bytes(bytes@) is None {
                r == Err::<Vec<u8>, NotDelivered>(NotDelivered::Malformed)
            } else {
                r == Ok::<Vec<u8>, NotDelivered>(bytes)
            },
        }),
        input matches Ok(bytes) ==> (is_event(bytes@) <==> r is Ok),
{
    match input {
        Err(_) => Err(NotDelivered::ReadFailed),
        Ok(bytes) => {
            if bytes.len() == 0 {
                Err(NotDelivered::Empty)
            } else {
                match Json::parse_bytes(bytes.as_slice()) {
                    Ok(_) => Ok(bytes),
                    Err(_) => Err(NotDelivered::Malformed),
                }
            }
        },
    }
}

/// How a sender's attempt ended, from what connecting and writing gave. A
/// sender reports this to nobody: its caller sees only that it returned.
pub fn send_outcome(connected: bool, written: bool) -> (outcome: SendOutcome)
    ensures
        outcome == if !connected {
            SendOutcome::NotDelivered(NotDelivered::Unreachable)
        } else if !written {
            SendOutcome::NotDelivered(NotDelivered::WriteFailed)
        } else {
            SendOutcome::Delivered
        },
{
    if !connected {
        SendOutcome::NotDelivered(NotDelivered::Unreachable)
    } else if !written {
        SendOutcome::NotDelivered(NotDelivered::WriteFailed)
    } else {
        SendOutcome::Delivered
    }
}

} // verus!
