//! The core of a real-time chat relay: a registry of named rooms, the
//! per-room fan-out of envelopes to subscribers with a bounded backlog, the
//! presence of display names in a room, the state machine of one connected
//! client, and the accounts that clients log in with.
//!
//! Every operation is one atomic step on the state it borrows mutably; a
//! server that shares a [`registry::Registry`] between tasks serializes the
//! steps with a lock of its own.

pub mod accounts;
pub mod bus;
pub mod codec;
pub mod envelope;
pub mod index;
pub mod presence;
pub mod registry;
pub mod room;
pub mod session;
