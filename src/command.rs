use crate::codec::{encode, message_bytes, Message, MessageModel, PortStatus};
use crate::port::{PinWrite, PortCard};
use crate::switch::{card_of, port_of, ports_from_cards, write_of, writes_of, Port, Switch};
use vstd::prelude::*;

verus! {

/// What the device does for one command: pin writes to perform, and the bytes of a
/// reply for the peer, if one is owed.
pub struct Response {
    pub writes: Vec<PinWrite>,
    pub reply: Option<Vec<u8>>,
}

pub open spec fn reply_view(reply: Option<Vec<u8>>) -> Option<Seq<u8>> {
    match reply {
        Some(v) => Some(v@),
        None => None,
    }
}

/// The ports, writes and reply that a command gives on ports `ports`. A port index out
/// of range, a query without an index and a reply sent to the device do nothing; an
/// update whose card count is not the port count does nothing either.
pub open spec fn command_effect(ports: Seq<Port>, m: MessageModel) -> (Seq<Port>, Seq<PinWrite>, Option<Seq<u8>>) {
    match m {
        MessageModel::SetPort(c) => if c.port < ports.len() {
            (ports.update(c.port as int, port_of(c)), seq![write_of(c.port as int, port_of(c))], None)
        } else {
            (ports, Seq::empty(), None)
        },
        MessageModel::GetPortStatus(PortStatus::Query(Some(i))) => if i < ports.len() {
            (ports, Seq::empty(), Some(status_reply(i, ports)))
        } else {
            (ports, Seq::empty(), None)
        },
        MessageModel::GetPortStatus(_) => (ports, Seq::empty(), None),
        MessageModel::SwitchUpdate(cs) => if cs.len() == ports.len() {
            (ports_from_cards(cs), writes_of(ports_from_cards(cs)), None)
        } else {
            (ports, Seq::empty(), None)
        },
    }
}

/// The encoded answer to a query of port `i`: a status message carrying its card.
pub open spec fn status_reply(i: usize, ports: Seq<Port>) -> Seq<u8> {
    message_bytes(MessageModel::GetPortStatus(PortStatus::Reply(card_of(i, ports[i as int]))))
}

/// Carries out a command on the switch. Every front end goes through here, so single
/// and bulk updates share one path to the ports.
pub fn execute(switch: &mut Switch, m: Message) -> (r: Response)
    ensures
        (final(switch)@, r.writes@, reply_view(r.reply)) == command_effect(old(switch)@, m@),
{
    match m {
        Message::SetPort(card) => {
            let writes = match switch.set_port(card) {
                Ok(w) => vec![w],
                Err(_) => Vec::new(),
            };
            proof {
                assert(writes@ =~= command_effect(old(switch)@, m@).1);
            }
            Response { writes, reply: None }
        },
        Message::GetPortStatus(PortStatus::Query(Some(i))) => {
            let reply = match switch.get_port(i) {
                Ok(card) => Some(encode(&Message::GetPortStatus(PortStatus::Reply(card)))),
                Err(_) => None,
            };
            Response { writes: Vec::new(), reply }
        },
        Message::GetPortStatus(_) => Response { writes: Vec::new(), reply: None },
        Message::SwitchUpdate(cards) => {
            let writes = match switch.set_all(cards.as_slice()) {
                Ok(w) => w,
                Err(_) => Vec::new(),
            };
            Response { writes, reply: None }
        },
    }
}

} // verus!
