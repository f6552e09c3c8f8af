//! Verified core of a game-controller relay.
//!
//! A producer mutates one canonical controller state and serializes full
//! snapshots of it; an ingress server forwards raw text payloads to a
//! lossy fan-out bus; an emulation consumer decodes wire snapshots and
//! applies them to a virtual-controller session. Everything that decides
//! or computes lives here; sockets, threads and the driver live in the
//! surrounding application.

pub mod state;
pub mod wire;
pub mod bus;
pub mod server;
pub mod pad;
