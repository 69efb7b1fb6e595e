pub mod connection;
pub mod transport;
