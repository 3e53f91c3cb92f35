//! Realtime signaling: wire checks, session signaling state and the
//! provisional screen-share registry, and the steps of a claim.

pub mod wire;
pub mod session;
pub mod provisional;
pub mod provisional_signal;
pub mod manager;
pub mod config;
pub mod claim;
