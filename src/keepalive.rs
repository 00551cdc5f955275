use crate::codec::{decode, decoded};
use crate::command::{command_effect, execute, Response};
use crate::port::PinWrite;
use crate::switch::{Port, Switch};
use vstd::prelude::*;

verus! {

/// Seconds to wait for a published message before a ping is sent to the broker.
pub const HEARTBEAT_SECS: u64 = 2;

/// Where the broker session stands.
#[derive(Clone, Copy, Debug, PartialEq, Eq, Structural)]
pub enum KeepaliveState {
    /// Opening the connection to the broker and shaking hands.
    Connecting,
    /// Asking for the subscription.
    Subscribing,
    /// Waiting for a published message or for the heartbeat deadline, whichever
    /// comes first.
    Waiting,
    /// The session could not be set up; the front end has to be restarted.
    Stopped,
}

/// What happened on the broker session.
#[derive(Clone, Debug, PartialEq, Eq)]
pub enum KeepaliveEvent {
    Connected,
    ConnectFailed,
    Subscribed,
    SubscribeFailed,
    /// A message was published to a subscribed topic with this payload.
    Published(Vec<u8>),
    /// The heartbeat deadline passed with no message.
    DeadlineElapsed,
    /// Sending a ping failed.
    PingFailed,
}

pub enum KeepaliveEventModel {
    Connected,
    ConnectFailed,
    Subscribed,
    SubscribeFailed,
    Published(Seq<u8>),
    DeadlineElapsed,
    PingFailed,
}

impl View for KeepaliveEvent {
    type V = KeepaliveEventModel;

    open spec fn view(&self) -> KeepaliveEventModel {
        match self {
            KeepaliveEvent::Connected => KeepaliveEventModel::Connected,
            KeepaliveEvent::ConnectFailed => KeepaliveEventModel::ConnectFailed,
            KeepaliveEvent::Subscribed => KeepaliveEventModel::Subscribed,
            KeepaliveEvent::SubscribeFailed => KeepaliveEventModel::SubscribeFailed,
            KeepaliveEvent::Published(b) => KeepaliveEventModel::Published(b@),
            KeepaliveEvent::DeadlineElapsed => KeepaliveEventModel::DeadlineElapsed,
            KeepaliveEvent::PingFailed => KeepaliveEventModel::PingFailed,
        }
    }
}

/// The outcome of one event: the state to go on in, pin writes, and whether to send
/// a ping before waiting again.
pub struct KeepaliveStep {
    pub state: KeepaliveState,
    pub writes: Vec<PinWrite>,
    pub ping: bool,
}

/// State, ports, writes and ping after event `e` in state `state` on ports `ports`.
/// A payload that does not decode is skipped and the session kept; a failed ping is
/// retried at the next deadline.
pub open spec fn keepalive_next(state: KeepaliveState, ports: Seq<Port>, e: KeepaliveEventModel) -> (
    KeepaliveState,
    Seq<Port>,
    Seq<PinWrite>,
    bool,
) {
    match state {
        KeepaliveState::Connecting => match e {
            KeepaliveEventModel::Connected => (KeepaliveState::Subscribing, ports, Seq::empty(), false),
            KeepaliveEventModel::ConnectFailed => (KeepaliveState::Stopped, ports, Seq::empty(), false),
            _ => (state, ports, Seq::empty(), false),
        },
        KeepaliveState::Subscribing => match e {
            KeepaliveEventModel::Subscribed => (KeepaliveState::Waiting, ports, Seq::empty(), false),
            KeepaliveEventModel::SubscribeFailed => (KeepaliveState::Stopped, ports, Seq::empty(), false),
            _ => (state, ports, Seq::empty(), false),
        },
        KeepaliveState::Waiting => match e {
            KeepaliveEventModel::Published(b) => match decoded(b) {
                Some(m) => (KeepaliveState::Waiting, command_effect(ports, m).0, command_effect(ports, m).1, false),
                None => (KeepaliveState::Waiting, ports, Seq::empty(), false),
            },
            KeepaliveEventModel::DeadlineElapsed => (KeepaliveState::Waiting, ports, Seq::empty(), true),
            _ => (state, ports, Seq::empty(), false),
        },
        KeepaliveState::Stopped => (state, ports, Seq::empty(), false),
    }
}

/// Decides what the broker session does on `event`, and applies a decoded update to
/// the switch. Nothing is replied on this channel.
pub fn keepalive_step(state: KeepaliveState, switch: &mut Switch, event: KeepaliveEvent) -> (r: KeepaliveStep)
    ensures
        (r.state, final(switch)@, r.writes@, r.ping) == keepalive_next(state, old(switch)@, event@),
{
    let same = KeepaliveStep { state, writes: Vec::new(), ping: false };
    match state {
        KeepaliveState::Connecting => match event {
            KeepaliveEvent::Connected => KeepaliveStep {
                state: KeepaliveState::Subscribing,
                writes: Vec::new(),
                ping: false,
            },
            KeepaliveEvent::ConnectFailed => KeepaliveStep {
                state: KeepaliveState::Stopped,
                writes: Vec::new(),
                ping: false,
            },
            _ => same,
        },
        KeepaliveState::Subscribing => match event {
            KeepaliveEvent::Subscribed => KeepaliveStep {
                state: KeepaliveState::Waiting,
                writes: Vec::new(),
                ping: false,
            },
            KeepaliveEvent::SubscribeFailed => KeepaliveStep {
                state: KeepaliveState::Stopped,
                writes: Vec::new(),
                ping: false,
            },
            _ => same,
        },
        KeepaliveState::Waiting => match event {
            KeepaliveEvent::Published(payload) => match decode(payload.as_slice()) {
                Ok(m) => {
                    let Response { writes, reply: _ } = execute(switch, m);
                    KeepaliveStep { state: KeepaliveState::Waiting, writes, ping: false }
                },
                Err(_) => same,
            },
            KeepaliveEvent::DeadlineElapsed => KeepaliveStep {
                state: KeepaliveState::Waiting,
                writes: Vec::new(),
                ping: true,
            },
            _ => same,
        },
        KeepaliveState::Stopped => same,
    }
}

/// How each heartbeat window ended: a message arrived first, or the deadline passed.
pub open spec fn is_window_end(e: KeepaliveEventModel) -> bool {
    e is Published || e is DeadlineElapsed
}

/// The number of windows in `es` that ended at the deadline.
pub open spec fn deadlines(es: Seq<KeepaliveEventModel>) -> nat
    decreases es.len(),
{
    if es.len() == 0 {
        0
    } else {
        deadlines(es.drop_last()) + if es.last() is DeadlineElapsed {
            1nat
        } else {
            0nat
        }
    }
}

/// The state, ports and number of pings after the events `es`, one after the other.
pub open spec fn keepalive_run(state: KeepaliveState, ports: Seq<Port>, es: Seq<KeepaliveEventModel>) -> (
    KeepaliveState,
    Seq<Port>,
    nat,
)
    decreases es.len(),
{
    if es.len() == 0 {
        (state, ports, 0)
    } else {
        let (s, p, n) = keepalive_run(state, ports, es.drop_last());
        let (s2, p2, _, ping) = keepalive_next(s, p, es.last());
        (s2, p2, n + if ping {
            1nat
        } else {
            0nat
        })
    }
}

/// Once subscribed, a window that ends at the deadline sends exactly one ping and a
/// window in which a message arrives sends none: over any run of windows the pings
/// number the windows that saw no message, and the session keeps waiting.
pub proof fn lemma_one_ping_per_silent_window(ports: Seq<Port>, es: Seq<KeepaliveEventModel>)
    requires
        forall|i: int| 0 <= i < es.len() ==> is_window_end(#[trigger] es[i]),
    ensures
        keepalive_run(KeepaliveState::Waiting, ports, es).0 == KeepaliveState::Waiting,
        keepalive_run(KeepaliveState::Waiting, ports, es).2 == deadlines(es),
    decreases es.len(),
{
    if es.len() > 0 {
        let front = es.drop_last();
        assert forall|i: int| 0 <= i < front.len() implies is_window_end(#[trigger] front[i]) by {
            assert(front[i] == es[i]);
        }
        lemma_one_ping_per_silent_window(ports, front);
        assert(is_window_end(es[es.len() - 1]));
    }
}

} // verus!
