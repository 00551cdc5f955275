use crate::port::{level_of, pin_level, Level, PinWrite, PortCard, State, Timer};
use vstd::prelude::*;

verus! {

/// The most outlets a switch can own.
pub const PORT_CAPACITY: usize = 32;

/// The stored state of one outlet.
#[derive(Clone, Copy, Debug, PartialEq, Eq, Structural)]
pub struct Port {
    pub state: State,
    pub duration: Option<Timer>,
}

/// The index named no port of the switch.
#[derive(Clone, Copy, Debug, PartialEq, Eq, Structural)]
pub struct PortNotFound {
    pub port: usize,
}

/// heapless's fixed-capacity vector, which keeps the ports of a switch. Its contents
/// are known to the proofs through `slots` alone.
#[verifier::external_type_specification]
#[verifier::external_body]
#[verifier::reject_recursive_types(T)]
pub struct ExFixedVec<T, const N: usize>(heapless::Vec<T, N>);

/// The ports held by a fixed-capacity vector, in order.
pub uninterp spec fn slots(v: heapless::Vec<Port, PORT_CAPACITY>) -> Seq<Port>;

/// Relies on heapless::Vec::new: the vector starts empty.
#[verifier::external_body]
fn slots_new() -> (r: heapless::Vec<Port, PORT_CAPACITY>)
    ensures
        slots(r) == Seq::<Port>::empty(),
{
    heapless::Vec::new()
}

/// Relies on heapless::Vec::push: the item is appended while the length is under the
/// capacity, and handed back otherwise.
#[verifier::external_body]
fn slots_push(v: &mut heapless::Vec<Port, PORT_CAPACITY>, p: Port) -> (r: Result<(), Port>)
    ensures
        slots(*old(v)).len() < PORT_CAPACITY ==> r is Ok && slots(*final(v)) == slots(*old(v)).push(p),
        slots(*old(v)).len() >= PORT_CAPACITY ==> (r matches Err(q) && q == p) && slots(*final(v)) == slots(*old(v)),
{
    v.push(p)
}

/// Relies on heapless::Vec::as_slice: the slice holds the items, in order.
#[verifier::external_body]
fn slots_slice(v: &heapless::Vec<Port, PORT_CAPACITY>) -> (r: &[Port])
    ensures
        r@ == slots(*v),
{
    v.as_slice()
}

/// Relies on heapless::Vec::as_mut_slice: the slice holds the items, in order, and
/// what is written through it is what the vector then holds.
#[verifier::external_body]
fn slots_slice_mut(v: &mut heapless::Vec<Port, PORT_CAPACITY>) -> (r: &mut [Port])
    ensures
        r@ == slots(*old(v)),
        slots(*final(v)) == final(r)@,
{
    v.as_mut_slice()
}

} // verus!

verus! {

/// What `set_port` stores for a card.
pub open spec fn port_of(card: PortCard) -> Port {
    Port { state: card.state, duration: card.duration }
}

/// The snapshot of port `index` in state `p`.
pub open spec fn card_of(index: usize, p: Port) -> PortCard {
    PortCard { port: index, state: p.state, duration: p.duration }
}

/// The write that brings output `index` in line with port state `p`.
pub open spec fn write_of(index: int, p: Port) -> PinWrite {
    PinWrite { index: index as usize, level: level_of(p.state) }
}

/// The writes that bring every output in line with the ports, in index order.
pub open spec fn writes_of(ports: Seq<Port>) -> Seq<PinWrite> {
    Seq::new(ports.len(), |i: int| write_of(i, ports[i]))
}

/// The ports of a switch once every state of `cards` is stored at its position.
pub open spec fn ports_from_cards(cards: Seq<PortCard>) -> Seq<Port> {
    cards.map_values(|c: PortCard| port_of(c))
}

/// The outlets of the device, each with its logical state.
///
/// The switch owns the state only: every operation that changes what an output
/// should show returns the pin writes that the caller performs on the hardware.
pub struct Switch {
    ports: heapless::Vec<Port, PORT_CAPACITY>,
}

impl View for Switch {
    type V = Seq<Port>;

    closed spec fn view(&self) -> Seq<Port> {
        slots(self.ports)
    }
}

impl Switch {
    /// A switch of `port_count` ports, all off with no duration. No write is made.
    pub fn new(port_count: usize) -> (r: Switch)
        requires
            port_count <= PORT_CAPACITY,
        ensures
            r@ == Seq::new(port_count as nat, |i: int| Port { state: State::Off, duration: None }),
    {
        let mut ports = slots_new();
        let off = Port { state: State::Off, duration: None };
        let mut i: usize = 0;
        while i < port_count
            invariant
                i <= port_count <= PORT_CAPACITY,
                slots(ports) == Seq::new(i as nat, |j: int| off),
            decreases port_count - i,
        {
            let _ = slots_push(&mut ports, off);
            assert(slots(ports) =~= Seq::new((i + 1) as nat, |j: int| off));
            i = i + 1;
        }
        Switch { ports }
    }

    /// The number of ports, fixed when the switch was made.
    pub fn len(&self) -> (r: usize)
        ensures
            r == self@.len(),
    {
        slots_slice(&self.ports).len()
    }

    /// The writes that set every output to its port's state, active-low, in index
    /// order. Nothing is changed, so two calls give the same writes.
    pub fn apply(&self) -> (r: Vec<PinWrite>)
        ensures
            r@ == writes_of(self@),
    {
        let n = slots_slice(&self.ports).len();
        let mut writes: Vec<PinWrite> = Vec::new();
        let mut i: usize = 0;
        while i < n
            invariant
                n == self@.len(),
                i <= n,
                writes@ == writes_of(self@).subrange(0, i as int),
            decreases n - i,
        {
            writes.push(self.apply_port(i));
            assert(writes@ =~= writes_of(self@).subrange(0, i + 1));
            i = i + 1;
        }
        assert(writes@ =~= writes_of(self@));
        writes
    }

    /// The write that sets output `index` to its port's state.
    fn apply_port(&self, index: usize) -> (r: PinWrite)
        requires
            index < self@.len(),
        ensures
            r == write_of(index as int, self@[index as int]),
    {
        let p = slots_slice(&self.ports)[index];
        PinWrite { index, level: pin_level(p.state) }
    }

    /// Stores the state and duration of `card` in port `card.port` and returns the
    /// one write that updates that output. An index out of range changes nothing.
    pub fn set_port(&mut self, card: PortCard) -> (r: Result<PinWrite, PortNotFound>)
        ensures
            card.port < old(self)@.len() ==> r == Ok::<PinWrite, PortNotFound>(
                write_of(card.port as int, port_of(card)),
            ) && final(self)@ == old(self)@.update(card.port as int, port_of(card)),
            card.port >= old(self)@.len() ==> r == Err::<PinWrite, PortNotFound>(
                PortNotFound { port: card.port },
            ) && final(self)@ == old(self)@,
    {
        if card.port >= slots_slice(&self.ports).len() {
            return Err(PortNotFound { port: card.port });
        }
        let slice = slots_slice_mut(&mut self.ports);
        slice[card.port] = Port { state: card.state, duration: card.duration };
        Ok(self.apply_port(card.port))
    }

    /// The snapshot of port `index`. The hardware is not touched.
    pub fn get_port(&self, index: usize) -> (r: Result<PortCard, PortNotFound>)
        ensures
            index < self@.len() ==> r == Ok::<PortCard, PortNotFound>(card_of(index, self@[index as int])),
            index >= self@.len() ==> r == Err::<PortCard, PortNotFound>(PortNotFound { port: index }),
    {
        if index >= slots_slice(&self.ports).len() {
            return Err(PortNotFound { port: index });
        }
        let p = slots_slice(&self.ports)[index];
        Ok(PortCard { port: index, state: p.state, duration: p.duration })
    }

    /// Stores, for every port, the state and duration of the card at its position,
    /// then returns the writes of `apply`. Unless there is exactly one card per
    /// port nothing changes.
    pub fn set_all(&mut self, cards: &[PortCard]) -> (r: Result<Vec<PinWrite>, ()>)
        ensures
            cards@.len() == old(self)@.len() ==> final(self)@ == ports_from_cards(cards@) && (r matches Ok(
                w,
            ) && w@ == writes_of(final(self)@)),
            cards@.len() != old(self)@.len() ==> r is Err && final(self)@ == old(self)@,
    {
        let n = slots_slice(&self.ports).len();
        if cards.len() != n {
            return Err(());
        }
        let mut i: usize = 0;
        while i < n
            invariant
                n == cards@.len(),
                i <= n,
                self@.len() == n,
                forall|j: int| 0 <= j < i ==> self@[j] == port_of(cards@[j]),
            decreases n - i,
        {
            let c = cards[i];
            let slice = slots_slice_mut(&mut self.ports);
            slice[i] = Port { state: c.state, duration: c.duration };
            i = i + 1;
        }
        assert(self@ =~= ports_from_cards(cards@));
        Ok(self.apply())
    }
}

} // verus!

verus! {

/// The levels of a row of outputs after `writes` are performed on it in order. A write
/// to an index past the row is lost.
pub open spec fn drive(pins: Seq<Level>, writes: Seq<PinWrite>) -> Seq<Level>
    decreases writes.len(),
{
    if writes.len() == 0 {
        pins
    } else {
        let before = drive(pins, writes.drop_last());
        let w = writes.last();
        if w.index < before.len() {
            before.update(w.index as int, w.level)
        } else {
            before
        }
    }
}

/// The level that each output shows when it matches its port.
pub open spec fn levels_of(ports: Seq<Port>) -> Seq<Level> {
    Seq::new(ports.len(), |i: int| level_of(ports[i].state))
}

proof fn lemma_drive_prefix(pins: Seq<Level>, ports: Seq<Port>, k: int)
    requires
        pins.len() == ports.len() <= PORT_CAPACITY,
        0 <= k <= ports.len(),
    ensures
        drive(pins, writes_of(ports).subrange(0, k)) == Seq::new(
            ports.len(),
            |i: int| if i < k { level_of(ports[i].state) } else { pins[i] },
        ),
    decreases k,
{
    let ws = writes_of(ports).subrange(0, k);
    if k > 0 {
        lemma_drive_prefix(pins, ports, k - 1);
        assert(ws.drop_last() =~= writes_of(ports).subrange(0, k - 1));
    }
    assert(drive(pins, ws) =~= Seq::new(
        ports.len(),
        |i: int| if i < k { level_of(ports[i].state) } else { pins[i] },
    ));
}

/// Performing the writes of `apply` leaves every output of a row of the switch's
/// length at the level of its port, whatever the row showed before: low for a port
/// that is on, high for one that is off.
pub proof fn lemma_apply_sets_levels(pins: Seq<Level>, ports: Seq<Port>)
    requires
        pins.len() == ports.len() <= PORT_CAPACITY,
    ensures
        drive(pins, writes_of(ports)) == levels_of(ports),
        forall|i: int|
            0 <= i < ports.len() ==> (#[trigger] drive(pins, writes_of(ports))[i] == Level::Low
                <==> ports[i].state == State::On),
{
    lemma_drive_prefix(pins, ports, ports.len() as int);
    assert(writes_of(ports).subrange(0, ports.len() as int) =~= writes_of(ports));
    assert(drive(pins, writes_of(ports)) =~= levels_of(ports));
}

/// Performing the writes of `apply` a second time, with the ports unchanged, leaves the
/// outputs as the first time did.
pub proof fn lemma_apply_idempotent(pins: Seq<Level>, ports: Seq<Port>)
    requires
        pins.len() == ports.len() <= PORT_CAPACITY,
    ensures
        drive(drive(pins, writes_of(ports)), writes_of(ports)) == drive(pins, writes_of(ports)),
{
    lemma_apply_sets_levels(pins, ports);
    lemma_apply_sets_levels(drive(pins, writes_of(ports)), ports);
}

/// After `set_port` with an index in range, `get_port` of that index returns the card
/// that was set.
pub proof fn lemma_set_then_get(ports: Seq<Port>, card: PortCard)
    requires
        card.port < ports.len(),
    ensures
        card_of(card.port, ports.update(card.port as int, port_of(card))[card.port as int]) == card,
{
}

} // verus!
