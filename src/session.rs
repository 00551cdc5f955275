use crate::codec::{decode, decoded, lemma_round_trip, message_bytes, MessageModel, PortStatus};
use crate::command::{command_effect, execute, reply_view, status_reply, Response};
use crate::port::PinWrite;
use crate::switch::{Port, Switch};
use vstd::prelude::*;

verus! {

/// The TCP port on which the control channel listens.
pub const TCP_PORT: u16 = 1234;

/// Seconds without a received byte after which a connection is dropped.
pub const IDLE_TIMEOUT_SECS: u64 = 10;

/// The most bytes read from a connection at once; one read holds one frame.
pub const FRAME_CAPACITY: usize = 1024;

/// Where the control channel stands. One connection is served at a time.
#[derive(Clone, Copy, Debug, PartialEq, Eq, Structural)]
pub enum SessionState {
    /// Waiting for a peer to connect.
    Listening,
    /// Reading frames from the connected peer.
    Serving,
}

/// What happened on the control channel.
#[derive(Clone, Debug, PartialEq, Eq)]
pub enum SessionEvent {
    /// A peer connected.
    Accepted,
    /// Accepting a peer failed.
    AcceptFailed,
    /// A read returned these bytes; none means that the peer closed the connection.
    Received(Vec<u8>),
    /// A read failed.
    ReadFailed,
    /// Nothing was received for the idle timeout.
    TimedOut,
    /// Writing a reply failed.
    WriteFailed,
}

pub enum EventModel {
    Accepted,
    AcceptFailed,
    Received(Seq<u8>),
    ReadFailed,
    TimedOut,
    WriteFailed,
}

impl View for SessionEvent {
    type V = EventModel;

    open spec fn view(&self) -> EventModel {
        match self {
            SessionEvent::Accepted => EventModel::Accepted,
            SessionEvent::AcceptFailed => EventModel::AcceptFailed,
            SessionEvent::Received(b) => EventModel::Received(b@),
            SessionEvent::ReadFailed => EventModel::ReadFailed,
            SessionEvent::TimedOut => EventModel::TimedOut,
            SessionEvent::WriteFailed => EventModel::WriteFailed,
        }
    }
}

/// The outcome of one event: the state to go on in (going from `Serving` to
/// `Listening` closes the connection), pin writes, and a reply to write to the peer.
pub struct SessionStep {
    pub state: SessionState,
    pub writes: Vec<PinWrite>,
    pub reply: Option<Vec<u8>>,
}

/// State, ports, writes and reply after event `e` in state `state` on ports `ports`.
/// A frame that does not decode ends the connection and changes nothing; so do a
/// failed read or write, a peer that closed, and the idle timeout.
pub open spec fn session_next(state: SessionState, ports: Seq<Port>, e: EventModel) -> (
    SessionState,
    Seq<Port>,
    Seq<PinWrite>,
    Option<Seq<u8>>,
) {
    match state {
        SessionState::Listening => match e {
            EventModel::Accepted => (SessionState::Serving, ports, Seq::empty(), None),
            _ => (SessionState::Listening, ports, Seq::empty(), None),
        },
        SessionState::Serving => match e {
            EventModel::Received(b) => match decoded(b) {
                Some(m) => {
                    let (p, w, r) = command_effect(ports, m);
                    (SessionState::Serving, p, w, r)
                },
                None => (SessionState::Listening, ports, Seq::empty(), None),
            },
            EventModel::Accepted | EventModel::AcceptFailed => (
                SessionState::Serving,
                ports,
                Seq::empty(),
                None,
            ),
            _ => (SessionState::Listening, ports, Seq::empty(), None),
        },
    }
}

/// Decides what the control channel does on `event`, and applies a decoded command
/// to the switch.
pub fn session_step(state: SessionState, switch: &mut Switch, event: SessionEvent) -> (r: SessionStep)
    ensures
        (r.state, final(switch)@, r.writes@, reply_view(r.reply)) == session_next(
            state,
            old(switch)@,
            event@,
        ),
{
    let idle = SessionStep { state, writes: Vec::new(), reply: None };
    let closed = SessionStep { state: SessionState::Listening, writes: Vec::new(), reply: None };
    match state {
        SessionState::Listening => match event {
            SessionEvent::Accepted => SessionStep {
                state: SessionState::Serving,
                writes: Vec::new(),
                reply: None,
            },
            _ => closed,
        },
        SessionState::Serving => match event {
            SessionEvent::Received(frame) => match decode(frame.as_slice()) {
                Ok(m) => {
                    let Response { writes, reply } = execute(switch, m);
                    SessionStep { state: SessionState::Serving, writes, reply }
                },
                Err(_) => closed,
            },
            SessionEvent::Accepted | SessionEvent::AcceptFailed => idle,
            _ => closed,
        },
    }
}

/// The idle timeout closes the connection, the listener takes the next one, and the
/// ports stay as they were.
pub proof fn lemma_timeout_closes(ports: Seq<Port>)
    ensures
        session_next(SessionState::Serving, ports, EventModel::TimedOut) == (
            SessionState::Listening,
            ports,
            Seq::<PinWrite>::empty(),
            None::<Seq<u8>>,
        ),
        session_next(SessionState::Listening, ports, EventModel::Accepted).0 == SessionState::Serving,
        session_next(SessionState::Listening, ports, EventModel::Accepted).1 == ports,
{
}

/// A frame that does not decode closes that connection only: the ports are left as
/// they were, and a peer that connects next and queries a port gets its prior state.
pub proof fn lemma_malformed_frame_closes(ports: Seq<Port>, frame: Seq<u8>, i: usize)
    requires
        decoded(frame) is None,
        i < ports.len(),
    ensures
        ({
            let (s1, p1, w1, r1) = session_next(SessionState::Serving, ports, EventModel::Received(frame));
            let (s2, p2, w2, r2) = session_next(s1, p1, EventModel::Accepted);
            let query = message_bytes(MessageModel::GetPortStatus(PortStatus::Query(Some(i))));
            let (s3, p3, w3, r3) = session_next(s2, p2, EventModel::Received(query));
            &&& s1 == SessionState::Listening && p1 == ports && w1.len() == 0 && r1 is None
            &&& s2 == SessionState::Serving && p2 == ports
            &&& s3 == SessionState::Serving && p3 == ports && w3.len() == 0
            &&& r3 == Some(status_reply(i, ports))
        }),
{
    lemma_round_trip(MessageModel::GetPortStatus(PortStatus::Query(Some(i))));
}

} // verus!
