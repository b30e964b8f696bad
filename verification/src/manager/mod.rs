//! The coordinator's own state: the overall network state derived from the
//! devices, and the fan-out of events to IPC clients.

pub mod events;
pub mod manager;
pub mod state;
