use vstd::prelude::*;

/// Comparing texts.
pub mod text;
/// The binary frame codec of the TCP protocol, with CRC-16/MODBUS checks.
pub mod frame;
/// Publish and subscribe topics, and the per-client key inserted into them.
pub mod topic;
/// The parameters of a run and their validation.
pub mod config;
/// The records of simulated clients.
pub mod client;
/// The fleet: every client of a run, by identifier.
pub mod fleet;
/// The connection budget of the setup phase.
pub mod limiter;
/// Waiting for connections, the event loop of a connection, broker addresses.
pub mod connect;
/// Worker groups and what each of their ticks sends.
pub mod dispatch;
/// The run control: start, the sent-message counter, and stop.
pub mod lifecycle;
/// Payload templates and the rules that fill them.
pub mod template;
/// The registration handshake.
pub mod registration;
/// Hexadecimal payload text.
pub mod hexcode;
/// The events that a run reports.
pub mod events;
/// TCP payloads and connections.
pub mod tcp;

verus! {

} // verus!
