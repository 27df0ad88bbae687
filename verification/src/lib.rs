//! Core of a real-time multiplayer session server: connection lifecycle and
//! tick synchronization.
//!
//! A single-threaded tick coordinator drains newly accepted connections into a
//! registry, feeds buffered player input to a simulation step, and fans the
//! step's per-player view snapshots out to per-connection outbound channels
//! with a latest-wins delivery policy.

pub mod components;
pub mod connection;
pub mod engine;
pub mod input;
pub mod keymap;
pub mod mailbox;
pub mod outbound;
pub mod protocol;
pub mod server;
pub mod view_system;

use vstd::prelude::*;

verus! {

/// The default TCP port the server listens on when none is configured.
pub const DEFAULT_PORT: u16 = 1212;

} // verus!
