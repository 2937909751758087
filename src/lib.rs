//! Protocol engine of a terminal chat client: the real-time session state
//! machine, the device-pairing handshake, the wire codec they share and the
//! decoding of dispatch payloads into typed events; with the client state
//! that those events update.
pub mod json;
pub mod models;
pub mod text;
pub mod gateway;
pub mod crypto;
pub mod handshake;
pub mod order;
pub mod app_state;
pub mod config;
pub mod endpoints;
pub mod clock;
