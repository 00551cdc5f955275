use vstd::prelude::*;

verus! {

/// The logical state of an outlet.
#[derive(Clone, Copy, Debug, PartialEq, Eq, Structural)]
pub enum State {
    On,
    Off,
}

/// A requested auto-revert duration. It is stored and carried, never acted upon.
#[derive(Clone, Copy, Debug, PartialEq, Eq, Structural)]
pub struct Timer {
    pub seconds: u32,
}

/// A snapshot of one port, or a request to set it.
#[derive(Clone, Copy, Debug, PartialEq, Eq, Structural)]
pub struct PortCard {
    pub port: usize,
    pub state: State,
    pub duration: Option<Timer>,
}

/// The electrical level of an output pin.
#[derive(Clone, Copy, Debug, PartialEq, Eq, Structural)]
pub enum Level {
    Low,
    High,
}

/// One write to the hardware: drive output `index` to `level`.
#[derive(Clone, Copy, Debug, PartialEq, Eq, Structural)]
pub struct PinWrite {
    pub index: usize,
    pub level: Level,
}

/// The outlets are wired active-low: on is a low pin, off a high one.
pub open spec fn level_of(state: State) -> Level {
    match state {
        State::On => Level::Low,
        State::Off => Level::High,
    }
}

/// The one place where a logical state becomes an electrical level.
pub fn pin_level(state: State) -> (r: Level)
    ensures
        r == level_of(state),
{
    match state {
        State::On => Level::Low,
        State::Off => Level::High,
    }
}

} // verus!
