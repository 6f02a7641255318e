//! Core logic of a minimal single-room Matrix chat client.
//!
//! The library covers the session lifecycle and event-streaming subsystem:
//! persistent session storage, the login/restore decision, the client
//! factory's derived parameters, the sync-cursor state machine, the event
//! bridge that filters room events into UI messages, and the UI shell's
//! state transitions. Network and disk I/O, and the GUI toolkit, live
//! outside the library and exchange plain values with it.

pub mod auth;
pub mod bridge;
mod clock;
pub mod codec;
pub mod dispatch;
pub mod errors;
pub mod factory;
pub mod rng;
pub mod session;
pub mod shell;
pub mod sync;
