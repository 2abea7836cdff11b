//! A line-oriented chat relay's core: the client registry, the nickname
//! handshake, the command dispatcher, and the per-line step of the session
//! state machine, each with a proved contract. The surrounding process —
//! listener, sockets, logging — stays outside and hands this crate plain
//! lines; the shared broadcast bus and the clock are reached through thin
//! trusted wrappers.

pub mod bus;
pub mod client;
pub mod clock;
pub mod commands;
pub mod config;
pub mod connection;
pub mod text;
pub mod utils;
