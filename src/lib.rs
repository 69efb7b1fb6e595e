//! A small point-to-multipoint relay protocol: encrypted, length-prefixed
//! frames carrying typed packets, with the server's session, route and
//! configuration tables and the client's session state.

pub mod config;
pub mod crypto;
pub mod error;
pub mod network;
pub mod protocol;
pub mod vpn;
pub mod wire;

pub use error::VpnError;
