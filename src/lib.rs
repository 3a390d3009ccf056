pub mod admission;
pub mod checksum;
pub mod config;
pub mod connection_state;
pub mod handshake;
pub mod laws;
pub mod peer;
