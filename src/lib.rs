//! Pairing of two parties into a mutually confirmed connection, with
//! per-participant notification inboxes.
//!
//! Two record shapes live side by side: [`connection`] is the link-based
//! shape (a shareable link, at most two participants), driven by
//! [`server::Server`]; [`models`] is the request/accept shape (an initiator
//! and a recipient), driven by [`memory::InMemoryConnectionManager`].

pub mod clock;
pub mod connection;
pub mod error;
pub mod ident;
pub mod models;
pub mod validation;
pub mod memory;
pub mod server;
pub mod relay;
pub mod session;

pub use connection::{Connection, ConnectionStatus};
pub use server::Server;
