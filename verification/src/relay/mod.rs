//! The Relay data plane: envelopes, file transfer bookkeeping, the sender's
//! steps and the E2EE handshake book.

pub mod envelope;
pub mod transfer;
pub mod offer;
pub mod incoming;
pub mod handshake;
pub mod control;
pub mod send;
