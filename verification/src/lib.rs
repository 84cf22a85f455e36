//! Authoritative state-synchronization core for a real-time multiplayer
//! tank game server.
//!
//! The library holds the verified heart of the server: the entity model
//! (`World` and `Tank`), fixed-point kinematics, the per-tick action
//! intake, the connection registry, the per-tick simulation step, the
//! snapshot publisher and the wire codec. The asynchronous transport
//! around it (sockets, tasks, timers) lives outside the library and
//! talks to it through plain values.

pub mod action;
pub mod codec;
pub mod config;
mod entropy;
pub mod intake;
pub mod math;
pub mod registry;
pub mod session;
pub mod sim;
pub mod snapshot;
pub mod tank;
pub mod world;
