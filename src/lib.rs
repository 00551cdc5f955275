//! Port-state controller and command protocol of a network-controlled relay switch.
//!
//! The library holds the logical state of every outlet, turns it into pin writes at
//! the active-low hardware boundary, encodes and decodes the wire messages, and
//! decides what the TCP and MQTT front ends do on each event. Performing the I/O is
//! left to the caller.
pub mod codec;
pub mod command;
pub mod keepalive;
pub mod port;
pub mod session;
pub mod switch;

pub use codec::{decode, encode, DecodeError, Message, PortStatus};
pub use command::{execute, Response};
pub use keepalive::{keepalive_step, KeepaliveEvent, KeepaliveState, KeepaliveStep, HEARTBEAT_SECS};
pub use port::{pin_level, Level, PinWrite, PortCard, State, Timer};
pub use session::{
    session_step, SessionEvent, SessionState, SessionStep, FRAME_CAPACITY, IDLE_TIMEOUT_SECS, TCP_PORT,
};
pub use switch::{Port, PortNotFound, Switch, PORT_CAPACITY};
