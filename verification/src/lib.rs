//! Protocol core of a remote-desktop link.
//!
//! A host streams its screen to a viewer as compressed frame deltas and
//! receives keyboard and mouse commands back, both over one connection.
//! This crate holds the parts of that link that decide or compute: the byte
//! layouts, the password handshake, the delta pipeline on both sides, the
//! command codec with its key-repeat filter, and the throughput window.
//! Sockets, screen capture, input injection and drawing belong to the caller.

pub mod auth;
pub mod codec;
pub mod command;
pub mod frame;
pub mod input;
pub mod keys;
pub mod session;
pub mod telemetry;
pub mod wire;
