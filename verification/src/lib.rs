//! Verified decision logic of the native network core: realtime signaling,
//! screen-share provisional bindings, native media endpoint leases, Relay
//! data-plane envelopes and Relay file-transfer admission.

pub mod outside;
pub mod strmap;
pub mod realtime_media;
pub mod realtime;
pub mod relay;
pub mod runtime;
