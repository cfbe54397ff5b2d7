//! Connection and terminal-session engine for an SSH client.
//!
//! The engine keeps the registry of connections, their lifecycle state
//! machines and the terminal sessions multiplexed over each of them. It
//! performs no I/O itself: every operation updates the engine's state and
//! leaves notifications and transport work in an [`ssh::Outbox`] for the host
//! to forward and carry out.

pub mod text;
pub mod hostname;
pub mod platform;
pub mod ssh;
pub mod commands;
