use crate::port::{PortCard, State, Timer};
use vstd::prelude::*;

verus! {

/// An unsigned integer in seven-bit groups, least significant first; every byte
/// but the last has its top bit set.
pub open spec fn varint(n: nat) -> Seq<u8>
    decreases n,
{
    if n < 128 {
        seq![n as u8]
    } else {
        seq![(n % 128 + 128) as u8] + varint(n / 128)
    }
}

/// Reads one `varint` from the front of `s`, with what follows it. A last group of
/// zero after other groups is refused, so each number has exactly one encoding.
pub open spec fn parse_varint(s: Seq<u8>) -> Option<(nat, Seq<u8>)>
    decreases s.len(),
{
    if s.len() == 0 {
        None
    } else if s[0] < 128 {
        Some((s[0] as nat, s.drop_first()))
    } else {
        match parse_varint(s.drop_first()) {
            Some((v, rest)) => if v == 0 {
                None
            } else {
                Some(((s[0] - 128) as nat + 128 * v, rest))
            },
            None => None,
        }
    }
}

proof fn lemma_varint_round(n: nat, rest: Seq<u8>)
    ensures
        parse_varint(varint(n) + rest) == Some((n, rest)),
    decreases n,
{
    let s = varint(n) + rest;
    if n < 128 {
        assert(s.drop_first() =~= rest);
    } else {
        lemma_varint_round(n / 128, rest);
        assert(s.drop_first() =~= varint(n / 128) + rest);
    }
}

proof fn lemma_varint_exact(s: Seq<u8>)
    requires
        parse_varint(s) is Some,
    ensures
        s == varint(parse_varint(s).unwrap().0) + parse_varint(s).unwrap().1,
    decreases s.len(),
{
    let (n, rest) = parse_varint(s).unwrap();
    if s[0] < 128 {
        assert(s =~= varint(n) + rest);
    } else {
        let t = s.drop_first();
        lemma_varint_exact(t);
        let v = parse_varint(t).unwrap().0;
        assert(n % 128 == (s[0] - 128) as nat && n / 128 == v);
        assert(n >= 128);
        assert(varint(n) == seq![s[0]] + varint(v));
        assert(t == varint(v) + rest);
        assert(s =~= seq![s[0]] + t);
        assert(s =~= varint(n) + rest);
    }
}

/// Reads a `varint` that starts at `pos`, if it is there and at most `max`, and where
/// it ends.
fn read_varint(b: &[u8], pos: usize, max: u64) -> (r: Option<(u64, usize)>)
    requires
        pos <= b@.len(),
    ensures
        match r {
            Some((v, end)) => v <= max && pos < end <= b@.len() && parse_varint(b@.skip(pos as int))
                == Some((v as nat, b@.skip(end as int))),
            None => match parse_varint(b@.skip(pos as int)) {
                Some((v, _)) => v > max,
                None => true,
            },
        },
    decreases b@.len() - pos,
{
    if pos >= b.len() {
        return None;
    }
    let byte = b[pos];
    let ghost s = b@.skip(pos as int);
    assert(s.drop_first() =~= b@.skip(pos + 1));
    if byte < 128 {
        if (byte as u64) <= max {
            return Some((byte as u64, pos + 1));
        } else {
            return None;
        }
    }
    let low = (byte - 128) as u64;
    if max < 128 {
        return None;
    }
    let rmax = (max - low) / 128;
    match read_varint(b, pos + 1, rmax) {
        Some((v, end)) => {
            if v == 0 {
                None
            } else {
                assert(128 * v <= max - low) by (nonlinear_arith)
                    requires
                        v <= rmax,
                        rmax == (max - low) / 128,
                        low <= max,
                ;
                Some((low + 128 * v, end))
            }
        },
        None => {
            proof {
                if let Some((v, _)) = parse_varint(b@.skip(pos + 1)) {
                    assert(128 * v > max - low) by (nonlinear_arith)
                        requires
                            v > rmax,
                            rmax == (max - low) / 128,
                            low <= max,
                    ;
                }
            }
            None
        },
    }
}

/// Appends the `varint` of `n`.
fn write_varint(out: &mut Vec<u8>, n: u64)
    ensures
        final(out)@ == old(out)@ + varint(n as nat),
{
    let mut x = n;
    while x >= 128
        invariant
            out@ + varint(x as nat) == old(out)@ + varint(n as nat),
        decreases x,
    {
        let ghost before = out@;
        out.push((x % 128 + 128) as u8);
        assert(before + varint(x as nat) =~= out@ + varint((x / 128) as nat));
        x = x / 128;
    }
    let ghost before = out@;
    out.push(x as u8);
    assert(before + varint(x as nat) =~= out@);
}

/// The encoding of a state.
pub open spec fn state_bytes(st: State) -> Seq<u8> {
    match st {
        State::On => seq![0u8],
        State::Off => seq![1u8],
    }
}

pub open spec fn parse_state(s: Seq<u8>) -> Option<(State, Seq<u8>)> {
    if s.len() == 0 {
        None
    } else if s[0] == 0 {
        Some((State::On, s.drop_first()))
    } else if s[0] == 1 {
        Some((State::Off, s.drop_first()))
    } else {
        None
    }
}

/// The encoding of an optional duration: a presence byte, then the seconds.
pub open spec fn duration_bytes(d: Option<Timer>) -> Seq<u8> {
    match d {
        None => seq![0u8],
        Some(t) => seq![1u8] + varint(t.seconds as nat),
    }
}

pub open spec fn parse_duration(s: Seq<u8>) -> Option<(Option<Timer>, Seq<u8>)> {
    if s.len() == 0 {
        None
    } else if s[0] == 0 {
        Some((None, s.drop_first()))
    } else if s[0] == 1 {
        match parse_varint(s.drop_first()) {
            Some((v, rest)) => if v <= u32::MAX {
                Some((Some(Timer { seconds: v as u32 }), rest))
            } else {
                None
            },
            None => None,
        }
    } else {
        None
    }
}

/// The encoding of a card: port index, state, optional duration.
pub open spec fn card_bytes(c: PortCard) -> Seq<u8> {
    varint(c.port as nat) + state_bytes(c.state) + duration_bytes(c.duration)
}

pub open spec fn parse_card(s: Seq<u8>) -> Option<(PortCard, Seq<u8>)> {
    match parse_varint(s) {
        Some((p, r1)) => if p <= usize::MAX {
            match parse_state(r1) {
                Some((st, r2)) => match parse_duration(r2) {
                    Some((d, r3)) => Some((PortCard { port: p as usize, state: st, duration: d }, r3)),
                    None => None,
                },
                None => None,
            }
        } else {
            None
        },
        None => None,
    }
}

/// The encodings of `cs`, one after the other.
pub open spec fn cards_bytes(cs: Seq<PortCard>) -> Seq<u8>
    decreases cs.len(),
{
    if cs.len() == 0 {
        Seq::empty()
    } else {
        cards_bytes(cs.drop_last()) + card_bytes(cs.last())
    }
}

/// Reads `k` cards one after the other.
pub open spec fn parse_cards(s: Seq<u8>, k: nat) -> Option<(Seq<PortCard>, Seq<u8>)>
    decreases k,
{
    if k == 0 {
        Some((Seq::empty(), s))
    } else {
        match parse_cards(s, (k - 1) as nat) {
            Some((cs, r)) => match parse_card(r) {
                Some((c, r2)) => Some((cs.push(c), r2)),
                None => None,
            },
            None => None,
        }
    }
}

/// The encoding of an optional port index.
pub open spec fn index_bytes(i: Option<usize>) -> Seq<u8> {
    match i {
        None => seq![0u8],
        Some(n) => seq![1u8] + varint(n as nat),
    }
}

pub open spec fn parse_index(s: Seq<u8>) -> Option<(Option<usize>, Seq<u8>)> {
    if s.len() == 0 {
        None
    } else if s[0] == 0 {
        Some((None, s.drop_first()))
    } else if s[0] == 1 {
        match parse_varint(s.drop_first()) {
            Some((v, rest)) => if v <= usize::MAX {
                Some((Some(v as usize), rest))
            } else {
                None
            },
            None => None,
        }
    } else {
        None
    }
}

proof fn lemma_state_round(st: State, rest: Seq<u8>)
    ensures
        parse_state(state_bytes(st) + rest) == Some((st, rest)),
{
    assert((state_bytes(st) + rest).drop_first() =~= rest);
}

proof fn lemma_state_exact(s: Seq<u8>)
    requires
        parse_state(s) is Some,
    ensures
        s == state_bytes(parse_state(s).unwrap().0) + parse_state(s).unwrap().1,
{
    assert(s =~= state_bytes(parse_state(s).unwrap().0) + parse_state(s).unwrap().1);
}

proof fn lemma_duration_round(d: Option<Timer>, rest: Seq<u8>)
    ensures
        parse_duration(duration_bytes(d) + rest) == Some((d, rest)),
{
    let s = duration_bytes(d) + rest;
    if let Some(t) = d {
        lemma_varint_round(t.seconds as nat, rest);
        assert(s.drop_first() =~= varint(t.seconds as nat) + rest);
    } else {
        assert(s.drop_first() =~= rest);
    }
}

proof fn lemma_duration_exact(s: Seq<u8>)
    requires
        parse_duration(s) is Some,
    ensures
        s == duration_bytes(parse_duration(s).unwrap().0) + parse_duration(s).unwrap().1,
{
    let (d, rest) = parse_duration(s).unwrap();
    if s[0] == 1 {
        let t = s.drop_first();
        lemma_varint_exact(t);
        assert(t == varint(d.unwrap().seconds as nat) + rest);
        assert(s =~= seq![1u8] + t);
    }
    assert(s =~= duration_bytes(d) + rest);
}

proof fn lemma_index_round(i: Option<usize>, rest: Seq<u8>)
    ensures
        parse_index(index_bytes(i) + rest) == Some((i, rest)),
{
    let s = index_bytes(i) + rest;
    if let Some(n) = i {
        lemma_varint_round(n as nat, rest);
        assert(s.drop_first() =~= varint(n as nat) + rest);
    } else {
        assert(s.drop_first() =~= rest);
    }
}

proof fn lemma_index_exact(s: Seq<u8>)
    requires
        parse_index(s) is Some,
    ensures
        s == index_bytes(parse_index(s).unwrap().0) + parse_index(s).unwrap().1,
{
    let (i, rest) = parse_index(s).unwrap();
    if s[0] == 1 {
        let t = s.drop_first();
        lemma_varint_exact(t);
        assert(t == varint(i.unwrap() as nat) + rest);
        assert(s =~= seq![1u8] + t);
    }
    assert(s =~= index_bytes(i) + rest);
}

proof fn lemma_card_round(c: PortCard, rest: Seq<u8>)
    ensures
        parse_card(card_bytes(c) + rest) == Some((c, rest)),
{
    let r2 = duration_bytes(c.duration) + rest;
    let r1 = state_bytes(c.state) + r2;
    assert(card_bytes(c) + rest =~= varint(c.port as nat) + r1);
    lemma_varint_round(c.port as nat, r1);
    lemma_state_round(c.state, r2);
    lemma_duration_round(c.duration, rest);
}

proof fn lemma_card_exact(s: Seq<u8>)
    requires
        parse_card(s) is Some,
    ensures
        s == card_bytes(parse_card(s).unwrap().0) + parse_card(s).unwrap().1,
{
    let (c, rest) = parse_card(s).unwrap();
    lemma_varint_exact(s);
    let r1 = parse_varint(s).unwrap().1;
    lemma_state_exact(r1);
    let r2 = parse_state(r1).unwrap().1;
    lemma_duration_exact(r2);
    assert(s =~= card_bytes(c) + rest);
}

proof fn lemma_cards_round(cs: Seq<PortCard>, rest: Seq<u8>)
    ensures
        parse_cards(cards_bytes(cs) + rest, cs.len()) == Some((cs, rest)),
    decreases cs.len(),
{
    if cs.len() > 0 {
        let r = card_bytes(cs.last()) + rest;
        assert(cards_bytes(cs) + rest =~= cards_bytes(cs.drop_last()) + r);
        lemma_cards_round(cs.drop_last(), r);
        lemma_card_round(cs.last(), rest);
        assert(cs.drop_last().push(cs.last()) =~= cs);
    }
}

proof fn lemma_cards_exact(s: Seq<u8>, k: nat)
    requires
        parse_cards(s, k) is Some,
    ensures
        s == cards_bytes(parse_cards(s, k).unwrap().0) + parse_cards(s, k).unwrap().1,
        parse_cards(s, k).unwrap().0.len() == k,
    decreases k,
{
    let (cs, rest) = parse_cards(s, k).unwrap();
    if k == 0 {
        assert(s =~= cards_bytes(cs) + rest);
    } else {
        lemma_cards_exact(s, (k - 1) as nat);
        let (cs0, r0) = parse_cards(s, (k - 1) as nat).unwrap();
        lemma_card_exact(r0);
        assert(cs.drop_last() =~= cs0);
        assert(s =~= cards_bytes(cs) + rest);
    }
}

proof fn lemma_cards_fail_on(s: Seq<u8>, j: nat, k: nat)
    requires
        parse_cards(s, j) is None,
        j <= k,
    ensures
        parse_cards(s, k) is None,
    decreases k,
{
    if k > j {
        lemma_cards_fail_on(s, j, (k - 1) as nat);
    }
}

/// The payload of a status message: a query names a port, the reply to it carries
/// that port's card.
#[derive(Clone, Copy, Debug, PartialEq, Eq, Structural)]
pub enum PortStatus {
    Query(Option<usize>),
    Reply(PortCard),
}

/// A message of the control protocol.
#[derive(Clone, Debug, PartialEq, Eq)]
pub enum Message {
    /// Set one port.
    SetPort(PortCard),
    /// Ask for one port's state, or answer with it.
    GetPortStatus(PortStatus),
    /// Replace the state of every port, one card per port in order.
    SwitchUpdate(Vec<PortCard>),
}

/// What a `Message` holds.
pub enum MessageModel {
    SetPort(PortCard),
    GetPortStatus(PortStatus),
    SwitchUpdate(Seq<PortCard>),
}

impl View for Message {
    type V = MessageModel;

    open spec fn view(&self) -> MessageModel {
        match self {
            Message::SetPort(c) => MessageModel::SetPort(*c),
            Message::GetPortStatus(p) => MessageModel::GetPortStatus(*p),
            Message::SwitchUpdate(cs) => MessageModel::SwitchUpdate(cs@),
        }
    }
}

/// The buffer did not hold a message.
#[derive(Clone, Copy, Debug, PartialEq, Eq, Structural)]
pub struct DecodeError;

/// A message that a `Message` value can hold: its card count fits a `usize`.
pub open spec fn message_fits(m: MessageModel) -> bool {
    match m {
        MessageModel::SwitchUpdate(cs) => cs.len() <= usize::MAX,
        _ => true,
    }
}

pub open spec fn status_bytes(p: PortStatus) -> Seq<u8> {
    match p {
        PortStatus::Query(i) => seq![0u8] + index_bytes(i),
        PortStatus::Reply(c) => seq![1u8] + card_bytes(c),
    }
}

pub open spec fn parse_status(s: Seq<u8>) -> Option<(PortStatus, Seq<u8>)> {
    if s.len() == 0 {
        None
    } else if s[0] == 0 {
        match parse_index(s.drop_first()) {
            Some((i, r)) => Some((PortStatus::Query(i), r)),
            None => None,
        }
    } else if s[0] == 1 {
        match parse_card(s.drop_first()) {
            Some((c, r)) => Some((PortStatus::Reply(c), r)),
            None => None,
        }
    } else {
        None
    }
}

/// The encoding of a message: a variant tag, then the variant's fields; the cards of
/// an update come after their count.
pub open spec fn message_bytes(m: MessageModel) -> Seq<u8> {
    match m {
        MessageModel::SetPort(c) => seq![0u8] + card_bytes(c),
        MessageModel::GetPortStatus(p) => seq![1u8] + status_bytes(p),
        MessageModel::SwitchUpdate(cs) => seq![2u8] + varint(cs.len()) + cards_bytes(cs),
    }
}

pub open spec fn parse_message(s: Seq<u8>) -> Option<(MessageModel, Seq<u8>)> {
    if s.len() == 0 {
        None
    } else if s[0] == 0 {
        match parse_card(s.drop_first()) {
            Some((c, r)) => Some((MessageModel::SetPort(c), r)),
            None => None,
        }
    } else if s[0] == 1 {
        match parse_status(s.drop_first()) {
            Some((p, r)) => Some((MessageModel::GetPortStatus(p), r)),
            None => None,
        }
    } else if s[0] == 2 {
        match parse_varint(s.drop_first()) {
            Some((n, r1)) => if n <= usize::MAX {
                match parse_cards(r1, n) {
                    Some((cs, r2)) => Some((MessageModel::SwitchUpdate(cs), r2)),
                    None => None,
                }
            } else {
                None
            },
            None => None,
        }
    } else {
        None
    }
}

/// The message at the front of a buffer, if there is one; what follows it is ignored.
pub open spec fn decoded(s: Seq<u8>) -> Option<MessageModel> {
    match parse_message(s) {
        Some((m, _)) => Some(m),
        None => None,
    }
}

proof fn lemma_status_round(p: PortStatus, rest: Seq<u8>)
    ensures
        parse_status(status_bytes(p) + rest) == Some((p, rest)),
{
    let s = status_bytes(p) + rest;
    match p {
        PortStatus::Query(i) => {
            assert(s.drop_first() =~= index_bytes(i) + rest);
            lemma_index_round(i, rest);
        },
        PortStatus::Reply(c) => {
            assert(s.drop_first() =~= card_bytes(c) + rest);
            lemma_card_round(c, rest);
        },
    }
}

proof fn lemma_status_exact(s: Seq<u8>)
    requires
        parse_status(s) is Some,
    ensures
        s == status_bytes(parse_status(s).unwrap().0) + parse_status(s).unwrap().1,
{
    let (p, rest) = parse_status(s).unwrap();
    let t = s.drop_first();
    if s[0] == 0 {
        lemma_index_exact(t);
    } else {
        lemma_card_exact(t);
    }
    assert(s =~= seq![s[0]] + t);
    assert(s =~= status_bytes(p) + rest);
}

proof fn lemma_message_round(m: MessageModel, rest: Seq<u8>)
    requires
        message_fits(m),
    ensures
        parse_message(message_bytes(m) + rest) == Some((m, rest)),
{
    let s = message_bytes(m) + rest;
    match m {
        MessageModel::SetPort(c) => {
            assert(s.drop_first() =~= card_bytes(c) + rest);
            lemma_card_round(c, rest);
        },
        MessageModel::GetPortStatus(p) => {
            assert(s.drop_first() =~= status_bytes(p) + rest);
            lemma_status_round(p, rest);
        },
        MessageModel::SwitchUpdate(cs) => {
            let r1 = cards_bytes(cs) + rest;
            assert(s.drop_first() =~= varint(cs.len()) + r1);
            lemma_varint_round(cs.len(), r1);
            lemma_cards_round(cs, rest);
        },
    }
}

proof fn lemma_message_exact(s: Seq<u8>)
    requires
        parse_message(s) is Some,
    ensures
        s == message_bytes(parse_message(s).unwrap().0) + parse_message(s).unwrap().1,
        message_fits(parse_message(s).unwrap().0),
{
    let (m, rest) = parse_message(s).unwrap();
    let t = s.drop_first();
    assert(s =~= seq![s[0]] + t);
    if s[0] == 0 {
        lemma_card_exact(t);
    } else if s[0] == 1 {
        lemma_status_exact(t);
    } else {
        lemma_varint_exact(t);
        let (n, r1) = parse_varint(t).unwrap();
        lemma_cards_exact(r1, n);
    }
    assert(s =~= message_bytes(m) + rest);
}

/// Decoding the encoding of a message gives the message back.
pub proof fn lemma_round_trip(m: MessageModel)
    requires
        message_fits(m),
    ensures
        decoded(message_bytes(m)) == Some(m),
{
    lemma_message_round(m, Seq::empty());
    assert(message_bytes(m) + Seq::<u8>::empty() =~= message_bytes(m));
}

/// A buffer decodes to a message exactly when it starts with that message's encoding:
/// a buffer that starts with no encoding, whatever its length, decodes to nothing.
pub proof fn lemma_decoded_iff_prefix(s: Seq<u8>, m: MessageModel)
    ensures
        decoded(s) == Some(m) <==> message_fits(m) && message_bytes(m).is_prefix_of(s),
{
    if decoded(s) == Some(m) {
        lemma_message_exact(s);
    }
    if message_fits(m) && message_bytes(m).is_prefix_of(s) {
        let rest = s.skip(message_bytes(m).len() as int);
        assert(s =~= message_bytes(m) + rest);
        lemma_message_round(m, rest);
    }
}

/// `r` is what reading at `pos` of `b` gives when `parsed` is what the matching parse function reads there.
spec fn reads<T>(b: Seq<u8>, pos: usize, r: Option<(T, usize)>, parsed: Option<(T, Seq<u8>)>) -> bool {
    match r {
        Some((x, end)) => pos <= end <= b.len() && parsed == Some((x, b.skip(end as int))),
        None => parsed is None,
    }
}

fn read_state(b: &[u8], pos: usize) -> (r: Option<(State, usize)>)
    requires
        pos <= b@.len(),
    ensures
        reads(b@, pos, r, parse_state(b@.skip(pos as int))),
{
    if pos >= b.len() {
        return None;
    }
    assert(b@.skip(pos as int).drop_first() =~= b@.skip(pos + 1));
    if b[pos] == 0 {
        Some((State::On, pos + 1))
    } else if b[pos] == 1 {
        Some((State::Off, pos + 1))
    } else {
        None
    }
}

fn read_duration(b: &[u8], pos: usize) -> (r: Option<(Option<Timer>, usize)>)
    requires
        pos <= b@.len(),
    ensures
        reads(b@, pos, r, parse_duration(b@.skip(pos as int))),
{
    if pos >= b.len() {
        return None;
    }
    assert(b@.skip(pos as int).drop_first() =~= b@.skip(pos + 1));
    if b[pos] == 0 {
        Some((None, pos + 1))
    } else if b[pos] == 1 {
        match read_varint(b, pos + 1, u32::MAX as u64) {
            Some((v, end)) => Some((Some(Timer { seconds: v as u32 }), end)),
            None => None,
        }
    } else {
        None
    }
}

fn read_index(b: &[u8], pos: usize) -> (r: Option<(Option<usize>, usize)>)
    requires
        pos <= b@.len(),
    ensures
        reads(b@, pos, r, parse_index(b@.skip(pos as int))),
{
    if pos >= b.len() {
        return None;
    }
    assert(b@.skip(pos as int).drop_first() =~= b@.skip(pos + 1));
    if b[pos] == 0 {
        Some((None, pos + 1))
    } else if b[pos] == 1 {
        match read_varint(b, pos + 1, usize::MAX as u64) {
            Some((v, end)) => Some((Some(v as usize), end)),
            None => None,
        }
    } else {
        None
    }
}

fn read_card(b: &[u8], pos: usize) -> (r: Option<(PortCard, usize)>)
    requires
        pos <= b@.len(),
    ensures
        reads(b@, pos, r, parse_card(b@.skip(pos as int))),
{
    let (port, p1) = match read_varint(b, pos, usize::MAX as u64) {
        Some(x) => x,
        None => return None,
    };
    let (state, p2) = match read_state(b, p1) {
        Some(x) => x,
        None => return None,
    };
    let (duration, p3) = match read_duration(b, p2) {
        Some(x) => x,
        None => return None,
    };
    Some((PortCard { port: port as usize, state, duration }, p3))
}

fn read_status(b: &[u8], pos: usize) -> (r: Option<(PortStatus, usize)>)
    requires
        pos <= b@.len(),
    ensures
        reads(b@, pos, r, parse_status(b@.skip(pos as int))),
{
    if pos >= b.len() {
        return None;
    }
    assert(b@.skip(pos as int).drop_first() =~= b@.skip(pos + 1));
    if b[pos] == 0 {
        match read_index(b, pos + 1) {
            Some((i, end)) => Some((PortStatus::Query(i), end)),
            None => None,
        }
    } else if b[pos] == 1 {
        match read_card(b, pos + 1) {
            Some((c, end)) => Some((PortStatus::Reply(c), end)),
            None => None,
        }
    } else {
        None
    }
}

fn read_cards(b: &[u8], pos: usize, count: usize) -> (r: Option<(Vec<PortCard>, usize)>)
    requires
        pos <= b@.len(),
    ensures
        match r {
            Some((cs, end)) => pos <= end <= b@.len() && parse_cards(b@.skip(pos as int), count as nat)
                == Some((cs@, b@.skip(end as int))),
            None => parse_cards(b@.skip(pos as int), count as nat) is None,
        },
{
    let ghost s = b@.skip(pos as int);
    let mut cards: Vec<PortCard> = Vec::new();
    let mut at = pos;
    let mut i: usize = 0;
    while i < count
        invariant
            pos <= at <= b@.len(),
            i <= count,
            s == b@.skip(pos as int),
            parse_cards(s, i as nat) == Some((cards@, b@.skip(at as int))),
        decreases count - i,
    {
        match read_card(b, at) {
            Some((c, next)) => {
                cards.push(c);
                at = next;
            },
            None => {
                proof {
                    lemma_cards_fail_on(s, (i + 1) as nat, count as nat);
                }
                return None;
            },
        }
        i = i + 1;
    }
    Some((cards, at))
}

/// Decodes the message at the front of `bytes`; what follows it is ignored. A buffer
/// that does not start with the encoding of a message is refused.
pub fn decode(bytes: &[u8]) -> (r: Result<Message, DecodeError>)
    ensures
        match r {
            Ok(m) => decoded(bytes@) == Some(m@) && message_bytes(m@).is_prefix_of(bytes@),
            Err(_) => decoded(bytes@) is None && forall|m: MessageModel|
                message_fits(m) ==> !(#[trigger] message_bytes(m).is_prefix_of(bytes@)),
        },
{
    let r = decode_at_front(bytes);
    proof {
        match &r {
            Ok(m) => lemma_decoded_iff_prefix(bytes@, m@),
            Err(_) => {
                assert forall|m: MessageModel| message_fits(m) implies !(
                #[trigger] message_bytes(m).is_prefix_of(bytes@)) by {
                    lemma_decoded_iff_prefix(bytes@, m);
                }
            },
        }
    }
    r
}

fn decode_at_front(bytes: &[u8]) -> (r: Result<Message, DecodeError>)
    ensures
        match r {
            Ok(m) => decoded(bytes@) == Some(m@),
            Err(_) => decoded(bytes@) is None,
        },
{
    if bytes.len() == 0 {
        return Err(DecodeError);
    }
    assert(bytes@.drop_first() =~= bytes@.skip(1));
    assert(bytes@.skip(0) =~= bytes@);
    if bytes[0] == 0 {
        match read_card(bytes, 1) {
            Some((c, _)) => Ok(Message::SetPort(c)),
            None => Err(DecodeError),
        }
    } else if bytes[0] == 1 {
        match read_status(bytes, 1) {
            Some((p, _)) => Ok(Message::GetPortStatus(p)),
            None => Err(DecodeError),
        }
    } else if bytes[0] == 2 {
        match read_varint(bytes, 1, usize::MAX as u64) {
            Some((n, p1)) => match read_cards(bytes, p1, n as usize) {
                Some((cs, _)) => Ok(Message::SwitchUpdate(cs)),
                None => Err(DecodeError),
            },
            None => Err(DecodeError),
        }
    } else {
        Err(DecodeError)
    }
}

fn write_state(out: &mut Vec<u8>, st: State)
    ensures
        final(out)@ == old(out)@ + state_bytes(st),
{
    match st {
        State::On => out.push(0),
        State::Off => out.push(1),
    }
    assert(final(out)@ =~= old(out)@ + state_bytes(st));
}

fn write_card(out: &mut Vec<u8>, c: PortCard)
    ensures
        final(out)@ == old(out)@ + card_bytes(c),
{
    write_varint(out, c.port as u64);
    write_state(out, c.state);
    match c.duration {
        None => out.push(0),
        Some(t) => {
            out.push(1);
            write_varint(out, t.seconds as u64);
        },
    }
    assert(final(out)@ =~= old(out)@ + card_bytes(c));
}

/// Encodes a message, to be read back by `decode`.
pub fn encode(m: &Message) -> (r: Vec<u8>)
    ensures
        r@ == message_bytes(m@),
{
    let mut out: Vec<u8> = Vec::new();
    match m {
        Message::SetPort(c) => {
            out.push(0);
            write_card(&mut out, *c);
        },
        Message::GetPortStatus(p) => {
            out.push(1);
            match p {
                PortStatus::Query(i) => {
                    out.push(0);
                    match i {
                        None => out.push(0),
                        Some(n) => {
                            out.push(1);
                            write_varint(&mut out, *n as u64);
                        },
                    }
                },
                PortStatus::Reply(c) => {
                    out.push(1);
                    write_card(&mut out, *c);
                },
            }
        },
        Message::SwitchUpdate(cs) => {
            out.push(2);
            write_varint(&mut out, cs.len() as u64);
            let ghost start = out@;
            let mut i: usize = 0;
            while i < cs.len()
                invariant
                    i <= cs@.len(),
                    out@ == start + cards_bytes(cs@.take(i as int)),
                decreases cs@.len() - i,
            {
                write_card(&mut out, cs[i]);
                assert(cs@.take(i + 1).drop_last() =~= cs@.take(i as int));
                assert(out@ =~= start + cards_bytes(cs@.take(i + 1)));
                i = i + 1;
            }
            assert(cs@.take(cs@.len() as int) =~= cs@);
        },
    }
    assert(out@ =~= message_bytes(m@));
    out
}

} // verus!
