use network_core::realtime::wire::NetworkErrorCode;
use network_core::relay::control::{
    after_reconnect_attempt, check_relay_signing_seed, connect_failure_marks_stale, epoch_invalidates,
    next_reconnect_backoff, presence_invalidates, ready_ttl_changed, reconnect_attempt_allowed,
    relay_connect_protocol_error, responder_session_binding, should_start_reconnect, ReconnectNext,
    RelayConnectErrorKind, RetryDisposition, RECONNECT_INITIAL_BACKOFF_MS, RECONNECT_MAX_BACKOFF_MS,
};
use network_core::relay::handshake::{
    check_handshake_identity, check_relay_admission, check_relay_crypto_binding, route_relay_crypto_step,
    RelayAdmissionError, RelayCryptoError, RelayCryptoRoute, RelayCryptoStep, RelayHandshakeBook,
    MAX_PENDING_RELAY_CRYPTO_HANDSHAKES,
};

const TOKEN: &str = "0123456789abcdef0123456789abcdef";

#[test]
fn backoff_doubles_up_to_the_maximum() {
    assert_eq!(next_reconnect_backoff(RECONNECT_INITIAL_BACKOFF_MS), 500);
    assert_eq!(next_reconnect_backoff(2000), 4000);
    assert_eq!(next_reconnect_backoff(2500), 5000);
    assert_eq!(next_reconnect_backoff(4000), RECONNECT_MAX_BACKOFF_MS);
    assert_eq!(next_reconnect_backoff(u64::MAX), RECONNECT_MAX_BACKOFF_MS);
    let mut b = RECONNECT_INITIAL_BACKOFF_MS;
    for _ in 0..20 {
        let n = next_reconnect_backoff(b);
        assert!(n >= b && n <= RECONNECT_MAX_BACKOFF_MS);
        b = n;
    }
    assert_eq!(b, RECONNECT_MAX_BACKOFF_MS);
}

#[test]
fn reconnect_gating() {
    assert!(should_start_reconnect(false, false));
    assert!(!should_start_reconnect(true, false));
    assert!(!should_start_reconnect(false, true));
    assert!(reconnect_attempt_allowed(false, true, true, false));
    assert!(!reconnect_attempt_allowed(true, true, true, false));
    assert!(!reconnect_attempt_allowed(false, false, true, false));
    assert!(!reconnect_attempt_allowed(false, true, false, false));
    assert!(!reconnect_attempt_allowed(false, true, true, true));
    assert_eq!(after_reconnect_attempt(true, true, 250), ReconnectNext::Connected);
    assert_eq!(after_reconnect_attempt(false, true, 250), ReconnectNext::StopStale);
    assert_eq!(after_reconnect_attempt(false, false, 250), ReconnectNext::RetryAfter(500));
}

#[test]
fn connect_failures_are_reported_by_kind() {
    assert_eq!(
        relay_connect_protocol_error(RelayConnectErrorKind::CredentialExpired),
        (NetworkErrorCode::CredentialExpired, RetryDisposition::RefreshCredentialThenRetry)
    );
    assert_eq!(
        relay_connect_protocol_error(RelayConnectErrorKind::IdentityConflict),
        (NetworkErrorCode::IdentityConflict, RetryDisposition::NoRetry)
    );
    assert_eq!(
        relay_connect_protocol_error(RelayConnectErrorKind::Other),
        (NetworkErrorCode::RelayError, RetryDisposition::Default)
    );
    assert!(connect_failure_marks_stale(RelayConnectErrorKind::CredentialExpired));
    assert!(connect_failure_marks_stale(RelayConnectErrorKind::IdentityConflict));
    assert!(!connect_failure_marks_stale(RelayConnectErrorKind::Other));
}

#[test]
fn signing_seed_must_be_32_bytes() {
    assert_eq!(check_relay_signing_seed(vec![7; 32]), Some(vec![7; 32]));
    assert_eq!(check_relay_signing_seed(vec![7; 31]), None);
    assert_eq!(check_relay_signing_seed(vec![]), None);
}

#[test]
fn cache_invalidation_rules() {
    assert!(!ready_ttl_changed(Some(5), Some(5)));
    assert!(ready_ttl_changed(Some(5), Some(6)));
    assert!(ready_ttl_changed(None, Some(6)));
    assert!(!ready_ttl_changed(None, None));
    assert!(!epoch_invalidates(0, 0));
    assert!(epoch_invalidates(0, 1));
    assert!(epoch_invalidates(1, 0));
    assert!(presence_invalidates(true, 1, true));
    assert!(!presence_invalidates(false, 1, true));
    assert!(!presence_invalidates(true, 0, true));
    assert!(!presence_invalidates(true, 1, false));
}

#[test]
fn responder_binding_is_truncated_sha256_hex() {
    assert_eq!(responder_session_binding("abc"), "ba7816bf8f01cfea414140de5dae2223");
    assert_eq!(responder_session_binding("abc").len(), 32);
    assert_ne!(responder_session_binding("abd"), responder_session_binding("abc"));
}

#[test]
fn crypto_binding_checks() {
    assert_eq!(
        check_relay_crypto_binding(TOKEN, "peer", true, true, true),
        Ok(format!("peer/{}", TOKEN))
    );
    assert_eq!(
        check_relay_crypto_binding(TOKEN, "peer", true, true, false),
        Err(RelayCryptoError::E2eeNotRequired)
    );
    assert_eq!(
        check_relay_crypto_binding(&TOKEN.to_uppercase(), "peer", true, true, true),
        Err(RelayCryptoError::NotBoundToPeer)
    );
    assert_eq!(
        check_relay_crypto_binding(TOKEN, "", true, true, true),
        Err(RelayCryptoError::NotBoundToPeer)
    );
    assert_eq!(
        check_relay_crypto_binding(TOKEN, "peer", false, true, true),
        Err(RelayCryptoError::NotBoundToPeer)
    );
    assert_eq!(
        check_relay_crypto_binding(TOKEN, "peer", true, false, false),
        Err(RelayCryptoError::NotBoundToPeer)
    );
}

#[test]
fn crypto_steps_are_routed() {
    assert_eq!(route_relay_crypto_step(RelayCryptoStep::Response), Ok(RelayCryptoRoute::ToInitiator));
    assert_eq!(route_relay_crypto_step(RelayCryptoStep::RootSeed), Ok(RelayCryptoRoute::ToInitiator));
    assert_eq!(route_relay_crypto_step(RelayCryptoStep::Accept), Ok(RelayCryptoRoute::ToInitiator));
    assert_eq!(route_relay_crypto_step(RelayCryptoStep::Hello), Ok(RelayCryptoRoute::AcceptHello));
    assert_eq!(route_relay_crypto_step(RelayCryptoStep::Final), Ok(RelayCryptoRoute::AcceptFinal));
    assert_eq!(
        route_relay_crypto_step(RelayCryptoStep::RootConfirm),
        Ok(RelayCryptoRoute::AcceptRootConfirm)
    );
    assert_eq!(
        route_relay_crypto_step(RelayCryptoStep::Unsupported),
        Err(RelayCryptoError::UnsupportedStep)
    );
}

#[test]
fn identity_and_admission_checks() {
    assert_eq!(check_handshake_identity("a", "a"), Ok(()));
    assert_eq!(check_handshake_identity("a", "b"), Err(RelayCryptoError::IdentityMismatch));
    assert_eq!(check_relay_admission(true, true, "k", "k", "t", "t"), Ok(()));
    assert_eq!(
        check_relay_admission(false, true, "k", "k", "t", "t"),
        Err(RelayAdmissionError::PolicyNotRequired)
    );
    assert_eq!(
        check_relay_admission(true, false, "k", "k", "t", "t"),
        Err(RelayAdmissionError::PolicyNotRequired)
    );
    assert_eq!(
        check_relay_admission(true, true, "k", "x", "t", "t"),
        Err(RelayAdmissionError::BindingInvalid)
    );
    assert_eq!(
        check_relay_admission(true, true, "k", "k", "t", "x"),
        Err(RelayAdmissionError::BindingInvalid)
    );
}

#[test]
fn handshake_book_queues_are_capped() {
    let mut book: RelayHandshakeBook<u32, u32, u32> = RelayHandshakeBook::new();
    for i in 0..MAX_PENDING_RELAY_CRYPTO_HANDSHAKES {
        assert_eq!(book.insert_responder(format!("p/{}", i), i as u32), Ok(()));
        assert_eq!(book.insert_confirmer(format!("p/{}", i), i as u32), Ok(()));
    }
    assert_eq!(book.insert_responder("p/new".to_string(), 0), Err(RelayCryptoError::ResponderQueueFull));
    assert_eq!(book.insert_confirmer("p/new".to_string(), 0), Err(RelayCryptoError::ConfirmerQueueFull));
    assert_eq!(book.insert_responder("p/3".to_string(), 99), Ok(()));
    assert_eq!(book.take_responder("p/3"), Ok(99));
    assert_eq!(book.take_responder("p/3"), Err(RelayCryptoError::NoResponder));
    assert_eq!(book.take_confirmer("p/4"), Ok(4));
    assert_eq!(book.take_confirmer("p/4"), Err(RelayCryptoError::NoConfirmer));
    book.clear();
    assert_eq!(book.take_responder("p/0"), Err(RelayCryptoError::NoResponder));
}

#[test]
fn handshake_book_drops_one_peer() {
    let mut book: RelayHandshakeBook<u32, u32, u32> = RelayHandshakeBook::new();
    book.insert_waiter("alice/t1".to_string(), 1);
    book.insert_waiter("alicex/t1".to_string(), 2);
    book.insert_responder("alice/t2".to_string(), 3).unwrap();
    book.insert_confirmer("bob/t3".to_string(), 4).unwrap();
    book.insert_confirmer("alice/t3".to_string(), 5).unwrap();
    book.remove_peer("alice");
    assert!(book.waiter("alice/t1").is_none());
    assert_eq!(book.waiter("alicex/t1"), Some(&2));
    assert_eq!(book.take_responder("alice/t2"), Err(RelayCryptoError::NoResponder));
    assert_eq!(book.take_confirmer("bob/t3"), Ok(4));
    assert_eq!(book.take_confirmer("alice/t3"), Err(RelayCryptoError::NoConfirmer));
    assert_eq!(book.remove_waiter("alicex/t1"), Some(2));
    assert_eq!(book.remove_waiter("alicex/t1"), None);
}

#[test]
fn restarting_responder_side_drops_confirmer() {
    let mut book: RelayHandshakeBook<u32, u32, u32> = RelayHandshakeBook::new();
    book.insert_confirmer("p/t".to_string(), 1).unwrap();
    book.restart_responder_side("p/t");
    assert_eq!(book.take_confirmer("p/t"), Err(RelayCryptoError::NoConfirmer));
}

#[test]
fn reconnect_delays_follow_the_schedule() {
    let mut delays = vec![RECONNECT_INITIAL_BACKOFF_MS];
    for _ in 0..7 {
        match after_reconnect_attempt(false, false, *delays.last().unwrap()) {
            ReconnectNext::RetryAfter(next) => delays.push(next),
            _ => panic!("a failed attempt is retried"),
        }
    }
    assert_eq!(delays, vec![250, 500, 1000, 2000, 4000, 5000, 5000, 5000]);
}
