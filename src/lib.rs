//! FamilyCom: a peer-to-peer LAN messenger.
//!
//! This crate holds the verified core of the messenger: the domain types,
//! the framing of the peer wire protocol, the message store, the discovery
//! bookkeeping, the daemon's event handling and the terminal client's state.
pub mod client;
pub mod config;
pub mod daemon;
pub mod desktop;
pub mod discovery;
pub mod ipc;
pub mod order;
pub mod protocol;
pub mod store;
pub mod text;
pub mod tui;
pub mod types;
