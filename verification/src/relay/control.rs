//! Relay control-plane decisions: reconnect backoff and gating, how a
//! connect failure is reported, and when discovery caches are invalidated.

use crate::outside::{hex_encode, hex_lower, sha256, sha256_digest};
use crate::realtime::wire::{text_bytes, NetworkErrorCode};
use vstd::prelude::*;
use vstd::slice::slice_subrange;

verus! {

/// The first reconnect delay.
pub const RECONNECT_INITIAL_BACKOFF_MS: u64 = 250;

/// The longest reconnect delay.
pub const RECONNECT_MAX_BACKOFF_MS: u64 = 5000;

/// The delay after a failed reconnect attempt: doubled, at most the maximum.
pub open spec fn next_backoff_spec(backoff_ms: u64) -> u64 {
    if 2 * backoff_ms > RECONNECT_MAX_BACKOFF_MS {
        RECONNECT_MAX_BACKOFF_MS
    } else {
        (2 * backoff_ms) as u64
    }
}

pub fn next_reconnect_backoff(backoff_ms: u64) -> (r: u64)
    ensures
        r == next_backoff_spec(backoff_ms),
{
    if backoff_ms > RECONNECT_MAX_BACKOFF_MS / 2 {
        RECONNECT_MAX_BACKOFF_MS
    } else {
        backoff_ms * 2
    }
}

/// The delays stay within the initial and the maximum delay.
pub proof fn lemma_backoff_bounded(backoff_ms: u64)
    requires
        RECONNECT_INITIAL_BACKOFF_MS <= backoff_ms <= RECONNECT_MAX_BACKOFF_MS,
    ensures
        RECONNECT_INITIAL_BACKOFF_MS <= next_backoff_spec(backoff_ms) <= RECONNECT_MAX_BACKOFF_MS,
        backoff_ms <= next_backoff_spec(backoff_ms),
{
}

/// The delay before the `n`th reconnect attempt (counting from 0): the
/// initial delay, then each failed attempt's `next_backoff_spec`.
pub open spec fn reconnect_delay(n: nat) -> u64
    decreases n,
{
    if n == 0 {
        RECONNECT_INITIAL_BACKOFF_MS
    } else {
        next_backoff_spec(reconnect_delay((n - 1) as nat))
    }
}

/// The reconnect delays are 250, 500, 1000, 2000 and 4000 ms, then 5000 ms
/// for every later attempt.
pub proof fn lemma_reconnect_delays(n: nat)
    ensures
        reconnect_delay(n) == if n >= 5 {
            5000u64
        } else if n == 4 {
            4000
        } else if n == 3 {
            2000
        } else if n == 2 {
            1000
        } else if n == 1 {
            500
        } else {
            250
        },
    decreases n,
{
    if n > 0 {
        lemma_reconnect_delays((n - 1) as nat);
    }
}

/// A reconnect task starts only when none is running and the credential is
/// not known to be stale.
pub fn should_start_reconnect(already_active: bool, credential_stale: bool) -> (b: bool)
    ensures
        b == (!already_active && !credential_stale),
{
    !already_active && !credential_stale
}

/// Before each attempt: go on only while the credential is fresh, a Relay
/// configuration and the local identity exist, and no control client is up.
pub fn reconnect_attempt_allowed(credential_stale: bool, has_config: bool, has_identity: bool, control_present: bool) -> (b:
    bool)
    ensures
        b == (!credential_stale && has_config && has_identity && !control_present),
{
    !credential_stale && has_config && has_identity && !control_present
}

/// What follows a reconnect attempt.
#[derive(Debug, Clone, Copy, PartialEq, Eq, Structural)]
pub enum ReconnectNext {
    /// Connected: publish Connected and resume transfers.
    Connected,
    /// The credential went stale: publish Failed and stop.
    StopStale,
    /// Try again after this delay.
    RetryAfter(u64),
}

pub fn after_reconnect_attempt(connected: bool, credential_stale: bool, backoff_ms: u64) -> (r: ReconnectNext)
    ensures
        r == if connected {
            ReconnectNext::Connected
        } else if credential_stale {
            ReconnectNext::StopStale
        } else {
            ReconnectNext::RetryAfter(next_backoff_spec(backoff_ms))
        },
{
    if connected {
        ReconnectNext::Connected
    } else if credential_stale {
        ReconnectNext::StopStale
    } else {
        ReconnectNext::RetryAfter(next_reconnect_backoff(backoff_ms))
    }
}

/// The kind of a Relay connect failure.
#[derive(Debug, Clone, Copy, PartialEq, Eq, Structural)]
pub enum RelayConnectErrorKind {
    CredentialExpired,
    IdentityConflict,
    Other,
}

/// What a caller is told to do about a failed operation.
#[derive(Debug, Clone, Copy, PartialEq, Eq, Structural)]
pub enum RetryDisposition {
    /// The caller's usual retry policy.
    Default,
    RefreshCredentialThenRetry,
    NoRetry,
}

/// How a connect failure is reported: an expired credential asks for a new
/// one, an identity conflict is final, anything else is a Relay error.
pub fn relay_connect_protocol_error(kind: RelayConnectErrorKind) -> (r: (NetworkErrorCode, RetryDisposition))
    ensures
        r == match kind {
            RelayConnectErrorKind::CredentialExpired => (
                NetworkErrorCode::CredentialExpired,
                RetryDisposition::RefreshCredentialThenRetry,
            ),
            RelayConnectErrorKind::IdentityConflict => (NetworkErrorCode::IdentityConflict, RetryDisposition::NoRetry),
            RelayConnectErrorKind::Other => (NetworkErrorCode::RelayError, RetryDisposition::Default),
        },
{
    match kind {
        RelayConnectErrorKind::CredentialExpired => (
            NetworkErrorCode::CredentialExpired,
            RetryDisposition::RefreshCredentialThenRetry,
        ),
        RelayConnectErrorKind::IdentityConflict => (NetworkErrorCode::IdentityConflict, RetryDisposition::NoRetry),
        RelayConnectErrorKind::Other => (NetworkErrorCode::RelayError, RetryDisposition::Default),
    }
}

/// A failed control connect marks the credential stale when it was expired
/// or conflicting (no blind reconnect with it); otherwise a reconnect is
/// scheduled.
pub fn connect_failure_marks_stale(kind: RelayConnectErrorKind) -> (b: bool)
    ensures
        b == (kind == RelayConnectErrorKind::CredentialExpired || kind == RelayConnectErrorKind::IdentityConflict),
{
    match kind {
        RelayConnectErrorKind::CredentialExpired => true,
        RelayConnectErrorKind::IdentityConflict => true,
        RelayConnectErrorKind::Other => false,
    }
}

/// The Relay signing seed of a configuration: exactly 32 bytes.
pub fn check_relay_signing_seed(seed: Vec<u8>) -> (r: Option<Vec<u8>>)
    ensures
        r is Some <==> seed@.len() == 32,
        r matches Some(s) ==> s@ == seed@,
{
    if seed.len() == 32 {
        Some(seed)
    } else {
        None
    }
}

/// The remote candidate cache is cleared when a control reconnect reports a
/// different presence TTL (in milliseconds) than the previous one.
pub fn ready_ttl_changed(previous_ttl_ms: Option<u64>, current_ttl_ms: Option<u64>) -> (b: bool)
    ensures
        b == (previous_ttl_ms != current_ttl_ms),
{
    match (previous_ttl_ms, current_ttl_ms) {
        (Some(a), Some(b)) => a != b,
        (None, None) => false,
        _ => true,
    }
}

/// A runtime epoch of all zeros invalidates nothing.
pub fn epoch_invalidates(high: u64, low: u64) -> (b: bool)
    ensures
        b == !(high == 0 && low == 0),
{
    !(high == 0 && low == 0)
}

/// A presence entry invalidates the peer's cached candidates when it is
/// online with a nonzero revision and carries an epoch.
pub fn presence_invalidates(online: bool, revision: u32, has_epoch: bool) -> (b: bool)
    ensures
        b == (online && revision != 0 && has_epoch),
{
    online && revision != 0 && has_epoch
}

/// The session binding of a responder's direct checks: the first 16 bytes
/// of the SHA-256 of the attempt ID, in lowercase hexadecimal.
pub fn responder_session_binding(attempt_id: &str) -> (r: String)
    ensures
        r@ == hex_lower(sha256(text_bytes(attempt_id@)).take(16)),
{
    let digest = sha256_digest(attempt_id.as_bytes());
    let head = slice_subrange(digest.as_slice(), 0, 16);
    proof {
        assert(head@ =~= sha256(text_bytes(attempt_id@)).take(16));
    }
    hex_encode(head)
}

} // verus!
