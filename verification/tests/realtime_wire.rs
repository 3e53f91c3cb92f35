use network_core::realtime::config::turn_config_from_values;
use network_core::realtime::wire::{
    check_outbound_envelope, check_signal_envelope, is_lower_hex_id, new_shared_session_instance_id,
    realtime_task_key, to_v2_signal_kind, validate_peer, validate_realtime_id,
    validate_screen_share_consent, validate_screen_share_consent_at, validate_shared_session_instance_id, validate_signal,
    NetworkErrorCode, RealtimeRejection, RealtimeSignalKind, ScreenShareConsent,
    ScreenShareConsentDecision, MAX_CONSENT_PAYLOAD_BYTES, MAX_ICE_CANDIDATE_BYTES,
    MAX_REALTIME_SIGNAL_PAYLOAD_BYTES,
};

const RID: &str = "0123456789abcdef0123456789abcdef";
const SID: &str = "fedcba9876543210fedcba9876543210";

fn consent() -> ScreenShareConsent {
    ScreenShareConsent {
        schema_version: 2,
        operation_id: "op-1".to_string(),
        realtime_id: RID.to_string(),
        shared_session_instance_id: SID.to_string(),
        issued_at_ms: 1_000,
        expires_at_ms: 61_000,
        sender_peer_id: "alice".to_string(),
        decision: ScreenShareConsentDecision::Request.to_wire(),
        purpose: 1,
        media: 1,
        requires_acceptance: true,
        action_revision: 1,
    }
}

fn consent_err(c: ScreenShareConsent, now: u64) -> RealtimeRejection {
    match validate_screen_share_consent_at(100, Some(c), RID, Some("alice"), Some(SID), now) {
        Err(e) => e,
        Ok(_) => panic!("consent unexpectedly accepted"),
    }
}

#[test]
fn signal_kinds_round_trip_through_wire_numbers() {
    for n in 0..7 {
        let kind = RealtimeSignalKind::from_wire(n).unwrap();
        assert_eq!(kind.to_wire(), n);
    }
    assert_eq!(RealtimeSignalKind::from_wire(7), None);
    assert_eq!(RealtimeSignalKind::from_wire(-1), None);
    assert_eq!(to_v2_signal_kind(RealtimeSignalKind::ScreenShareConsent), 6);
    assert_eq!(to_v2_signal_kind(RealtimeSignalKind::WebRtcOffer), 1);
    assert_eq!(to_v2_signal_kind(RealtimeSignalKind::Unspecified), 0);
}

#[test]
fn consent_decisions_round_trip() {
    for n in 0..5 {
        assert_eq!(ScreenShareConsentDecision::from_wire(n).unwrap().to_wire(), n);
    }
    assert_eq!(ScreenShareConsentDecision::from_wire(5), None);
    assert_eq!(ScreenShareConsentDecision::Reject.to_wire(), 3);
}

#[test]
fn rejection_codes() {
    assert_eq!(RealtimeRejection::PeerNotRegistered.code(), NetworkErrorCode::NoRoute);
    assert_eq!(RealtimeRejection::ClaimSuperseded.code(), NetworkErrorCode::StaleOperation);
    assert_eq!(RealtimeRejection::ClaimExpiredDuringCommit.code(), NetworkErrorCode::StaleOperation);
    assert_eq!(RealtimeRejection::RejectionSuperseded.code(), NetworkErrorCode::StaleOperation);
    assert_eq!(RealtimeRejection::InvalidRealtimeId.code(), NetworkErrorCode::InvalidArgument);
}

#[test]
fn hex_ids_are_lowercase_and_exact_length() {
    assert!(is_lower_hex_id(RID, 16));
    assert!(!is_lower_hex_id(RID, 15));
    assert!(!is_lower_hex_id(&RID.to_uppercase(), 16));
    assert!(!is_lower_hex_id("0123456789abcdef0123456789abcdeg", 16));
    assert!(is_lower_hex_id("", 0));
    assert_eq!(validate_realtime_id(RID), Ok(()));
    assert_eq!(validate_realtime_id("abc"), Err(RealtimeRejection::InvalidRealtimeId));
    assert_eq!(validate_shared_session_instance_id(SID), Ok(()));
    assert_eq!(
        validate_shared_session_instance_id("xyz"),
        Err(RealtimeRejection::InvalidSharedSessionInstanceId)
    );
}

#[test]
fn fresh_session_instance_ids_are_valid_and_distinct() {
    let a = new_shared_session_instance_id().unwrap();
    let b = new_shared_session_instance_id().unwrap();
    assert_eq!(a.len(), 32);
    assert_eq!(validate_shared_session_instance_id(&a), Ok(()));
    assert_ne!(a, b);
}

#[test]
fn peers_must_be_registered_and_bounded() {
    assert_eq!(validate_peer("alice", true), Ok(()));
    assert_eq!(validate_peer("alice", false), Err(RealtimeRejection::PeerNotRegistered));
    assert_eq!(validate_peer("", true), Err(RealtimeRejection::PeerNotRegistered));
    assert_eq!(validate_peer(&"p".repeat(129), true), Err(RealtimeRejection::PeerNotRegistered));
    assert_eq!(validate_peer(&"p".repeat(128), true), Ok(()));
}

#[test]
fn signal_bounds_in_order() {
    type K = RealtimeSignalKind;
    assert_eq!(validate_signal(K::WebRtcOffer, 1, b"sdp"), Ok(()));
    assert_eq!(validate_signal(K::WebRtcOffer, 0, b"sdp"), Err(RealtimeRejection::SignalOutOfBounds));
    let big = vec![b'x'; MAX_REALTIME_SIGNAL_PAYLOAD_BYTES + 1];
    assert_eq!(validate_signal(K::WebRtcOffer, 1, &big), Err(RealtimeRejection::SignalOutOfBounds));
    let ice = vec![b'x'; MAX_ICE_CANDIDATE_BYTES + 1];
    assert_eq!(validate_signal(K::IceCandidate, 1, &ice), Err(RealtimeRejection::IceCandidateOutOfBounds));
    assert_eq!(validate_signal(K::IceCandidate, 1, b""), Ok(()));
    assert_eq!(validate_signal(K::WebRtcClose, 1, b""), Ok(()));
    assert_eq!(validate_signal(K::IceRestart, 1, b""), Ok(()));
    assert_eq!(validate_signal(K::WebRtcAnswer, 1, b""), Err(RealtimeRejection::EmptySignalPayload));
    let consent = vec![b'x'; MAX_CONSENT_PAYLOAD_BYTES + 1];
    assert_eq!(
        validate_signal(K::ScreenShareConsent, 1, &consent),
        Err(RealtimeRejection::ConsentPayloadOutOfBounds)
    );
}

#[test]
fn inbound_envelope_checks() {
    assert_eq!(
        check_signal_envelope(0, Some((SID.to_string(), vec![1]))),
        Err(RealtimeRejection::EnvelopeOutOfBounds)
    );
    assert_eq!(
        check_signal_envelope(MAX_REALTIME_SIGNAL_PAYLOAD_BYTES + 1, None),
        Err(RealtimeRejection::EnvelopeOutOfBounds)
    );
    assert_eq!(check_signal_envelope(10, None), Err(RealtimeRejection::MalformedEnvelope));
    assert_eq!(
        check_signal_envelope(10, Some(("bad".to_string(), vec![1]))),
        Err(RealtimeRejection::InvalidSharedSessionInstanceId)
    );
    assert_eq!(
        check_signal_envelope(10, Some((SID.to_string(), vec![0; MAX_REALTIME_SIGNAL_PAYLOAD_BYTES + 1]))),
        Err(RealtimeRejection::EnvelopePayloadOutOfBounds)
    );
    assert_eq!(
        check_signal_envelope(10, Some((SID.to_string(), vec![1, 2]))),
        Ok((SID.to_string(), vec![1, 2]))
    );
}

#[test]
fn outbound_envelope_checks() {
    assert_eq!(check_outbound_envelope(SID, 10), Ok(()));
    assert_eq!(
        check_outbound_envelope("bad", 10),
        Err(RealtimeRejection::InvalidSharedSessionInstanceId)
    );
    assert_eq!(
        check_outbound_envelope(SID, MAX_REALTIME_SIGNAL_PAYLOAD_BYTES + 1),
        Err(RealtimeRejection::EnvelopeOutOfBounds)
    );
}

#[test]
fn valid_consent_is_handed_back() {
    let c = validate_screen_share_consent_at(100, Some(consent()), RID, Some("alice"), Some(SID), 2_000).unwrap();
    assert_eq!(c.operation_id, "op-1");
    assert!(validate_screen_share_consent_at(100, Some(consent()), RID, None, None, 2_000).is_ok());
}

#[test]
fn consent_checks_in_order() {
    assert!(matches!(
        validate_screen_share_consent_at(0, Some(consent()), RID, None, None, 2_000),
        Err(RealtimeRejection::ConsentPayloadOutOfBounds)
    ));
    assert!(matches!(
        validate_screen_share_consent_at(MAX_CONSENT_PAYLOAD_BYTES + 1, Some(consent()), RID, None, None, 2_000),
        Err(RealtimeRejection::ConsentPayloadOutOfBounds)
    ));
    assert!(matches!(
        validate_screen_share_consent_at(100, None, RID, None, None, 2_000),
        Err(RealtimeRejection::MalformedConsent)
    ));
    let mut c = consent();
    c.schema_version = 1;
    assert_eq!(consent_err(c, 2_000), RealtimeRejection::UnsupportedConsentSchema);
    let mut c = consent();
    c.operation_id = String::new();
    assert_eq!(consent_err(c, 2_000), RealtimeRejection::ConsentOperationIdOutOfBounds);
    let mut c = consent();
    c.realtime_id = SID.to_string();
    assert_eq!(consent_err(c, 2_000), RealtimeRejection::ConsentRealtimeIdMismatch);
    let mut c = consent();
    c.shared_session_instance_id = "bad".to_string();
    assert_eq!(consent_err(c, 2_000), RealtimeRejection::InvalidSharedSessionInstanceId);
    let mut c = consent();
    c.shared_session_instance_id = RID.to_string();
    assert_eq!(consent_err(c, 2_000), RealtimeRejection::ConsentSessionInstanceMismatch);
    let mut c = consent();
    c.expires_at_ms = c.issued_at_ms + 120_001;
    assert_eq!(consent_err(c, 2_000), RealtimeRejection::ConsentExpirationInvalid);
    let mut c = consent();
    c.issued_at_ms = 0;
    assert_eq!(consent_err(c, 2_000), RealtimeRejection::ConsentExpirationInvalid);
    assert_eq!(consent_err(consent(), 61_000), RealtimeRejection::ConsentNotFresh);
    let mut c = consent();
    c.issued_at_ms = 40_000;
    c.expires_at_ms = 50_000;
    assert_eq!(consent_err(c, 9_999), RealtimeRejection::ConsentNotFresh);
    let mut c = consent();
    c.sender_peer_id = String::new();
    assert_eq!(consent_err(c, 2_000), RealtimeRejection::ConsentSenderOutOfBounds);
    let mut c = consent();
    c.sender_peer_id = "mallory".to_string();
    assert_eq!(consent_err(c, 2_000), RealtimeRejection::ConsentSenderMismatch);
    let mut c = consent();
    c.decision = 9;
    assert_eq!(consent_err(c, 2_000), RealtimeRejection::UnknownConsentDecision);
    let mut c = consent();
    c.decision = 0;
    assert_eq!(consent_err(c, 2_000), RealtimeRejection::ConsentDecisionUnspecified);
    let mut c = consent();
    c.purpose = 0;
    assert_eq!(consent_err(c, 2_000), RealtimeRejection::ConsentPurposeUnsupported);
    let mut c = consent();
    c.media = 2;
    assert_eq!(consent_err(c, 2_000), RealtimeRejection::ConsentMediaUnsupported);
    let mut c = consent();
    c.requires_acceptance = false;
    assert_eq!(consent_err(c, 2_000), RealtimeRejection::ConsentAcceptanceInvalid);
    let mut c = consent();
    c.action_revision = 0;
    assert_eq!(consent_err(c, 2_000), RealtimeRejection::ConsentAcceptanceInvalid);
}

#[test]
fn consent_future_skew_is_allowed_up_to_thirty_seconds() {
    let mut c = consent();
    c.issued_at_ms = 40_000;
    c.expires_at_ms = 50_000;
    assert!(validate_screen_share_consent_at(100, Some(c), RID, None, None, 10_000).is_ok());
    let mut c = consent();
    c.issued_at_ms = u64::MAX - 10;
    c.expires_at_ms = u64::MAX;
    assert!(validate_screen_share_consent_at(100, Some(c), RID, None, None, u64::MAX - 5).is_ok());
}

#[test]
fn task_key_prefixes_realtime() {
    assert_eq!(realtime_task_key(RID), format!("realtime:{}", RID));
}

#[test]
fn turn_config_parses_comma_separated_servers() {
    let c = turn_config_from_values(
        Some(" turn:a.example:3478 , ,turn:b.example ".to_string()),
        Some("user".to_string()),
        Some("secret".to_string()),
        Some("yes".to_string()),
    );
    assert_eq!(c.urls, vec!["turn:a.example:3478".to_string(), "turn:b.example".to_string()]);
    assert_eq!(c.username, "user");
    assert_eq!(c.credential, "secret");
    assert!(c.relay_only);
}

#[test]
fn turn_config_without_servers() {
    let c = turn_config_from_values(Some("   ".to_string()), None, None, Some("1".to_string()));
    assert!(c.urls.is_empty());
    assert!(!c.relay_only);
    let c = turn_config_from_values(None, None, None, None);
    assert!(c.urls.is_empty());
    assert!(!c.relay_only);
}

#[test]
fn turn_relay_only_values() {
    for (v, expected) in [("1", true), ("true", true), ("TRUE", true), ("YES", true), ("True", false), ("0", false)] {
        let c = turn_config_from_values(Some("turn:x".to_string()), None, None, Some(v.to_string()));
        assert_eq!(c.relay_only, expected, "value {}", v);
        assert_eq!(c.username, "");
    }
}

#[test]
fn consent_is_checked_against_the_clock() {
    // Issued long ago: expired by now whatever the clock says.
    let r = validate_screen_share_consent(100, Some(consent()), RID, Some("alice"), Some(SID));
    assert!(matches!(r, Err(RealtimeRejection::ConsentNotFresh)));
    // Structural errors come before the clock is consulted.
    assert!(matches!(
        validate_screen_share_consent(0, Some(consent()), RID, None, None),
        Err(RealtimeRejection::ConsentPayloadOutOfBounds)
    ));
    let now = std::time::SystemTime::now()
        .duration_since(std::time::UNIX_EPOCH)
        .unwrap()
        .as_millis() as u64;
    let mut fresh = consent();
    fresh.issued_at_ms = now;
    fresh.expires_at_ms = now + 60_000;
    assert!(validate_screen_share_consent(100, Some(fresh), RID, Some("alice"), Some(SID)).is_ok());
}
