use network_core::realtime::session::{
    bytes_eq, contains_bytes, io_event_action, InboundRoute, IoEventAction, RealtimeIoEventKind, RealtimeSession,
    RealtimeSessionState, RealtimeSessions,
};
use network_core::realtime::wire::{RealtimeRejection, RealtimeSignalKind, ScreenShareConsent};
use network_core::realtime_media::RealtimeMediaError;

const RID: &str = "0123456789abcdef0123456789abcdef";
const RID2: &str = "00000000000000000000000000000001";
const SID: &str = "fedcba9876543210fedcba9876543210";
const SID2: &str = "11111111111111111111111111111111";

fn started(first_generation: u64) -> RealtimeSessions {
    let mut t = RealtimeSessions::new(first_generation);
    assert_eq!(
        t.register_local_session(RID.to_string(), "alice".to_string(), SID.to_string(), Some(9), 77, 1),
        Ok(first_generation)
    );
    t
}

fn consent(decision: i32) -> ScreenShareConsent {
    ScreenShareConsent {
        schema_version: 2,
        operation_id: "op".to_string(),
        realtime_id: RID.to_string(),
        shared_session_instance_id: SID.to_string(),
        issued_at_ms: 1_000,
        expires_at_ms: 2_000,
        sender_peer_id: "alice".to_string(),
        decision,
        purpose: 1,
        media: 1,
        requires_acceptance: true,
        action_revision: 1,
    }
}

#[test]
fn byte_helpers() {
    assert!(bytes_eq(b"abc", b"abc"));
    assert!(!bytes_eq(b"abc", b"abd"));
    assert!(!bytes_eq(b"abc", b"ab"));
    let seen = vec![b"x".to_vec(), b"yz".to_vec()];
    assert!(contains_bytes(&seen, b"yz"));
    assert!(!contains_bytes(&seen, b"y"));
}

#[test]
fn local_start_registers_under_fresh_generation() {
    let mut t = RealtimeSessions::new(5);
    assert_eq!(t.check_start(RID, "alice", true), Ok(()));
    assert_eq!(t.check_start("bad", "alice", true), Err(RealtimeRejection::InvalidRealtimeId));
    assert_eq!(t.check_start(RID, "alice", false), Err(RealtimeRejection::PeerNotRegistered));
    assert_eq!(
        t.register_local_session(RID.to_string(), "alice".to_string(), SID.to_string(), None, 1, 3),
        Ok(5)
    );
    assert_eq!(t.check_start(RID, "alice", true), Err(RealtimeRejection::SessionAlreadyExists));
    assert_eq!(
        t.register_local_session(RID.to_string(), "bob".to_string(), SID.to_string(), None, 1, 3),
        Err(RealtimeRejection::SessionAlreadyExists)
    );
    assert_eq!(
        t.register_local_session(RID2.to_string(), "bob".to_string(), SID.to_string(), None, 1, 3),
        Ok(6)
    );
    assert!(t.contains(RID));
    assert_eq!(t.session_generation(RID), Some(5));
    assert_eq!(t.session_revision(RID), 3);
    assert_eq!(t.remote_revision(RID), 0);
    assert_eq!(t.binding(RID), Some(("alice".to_string(), SID.to_string())));
    assert!(t.peer_has_session("bob"));
    assert!(!t.peer_has_session("carol"));
}

#[test]
fn stop_reports_close_revision() {
    let mut t = started(1);
    assert!(matches!(t.stop_session("bad"), Err(RealtimeRejection::InvalidRealtimeId)));
    assert!(matches!(t.stop_session(RID2), Err(RealtimeRejection::SessionDoesNotExist)));
    let stopped = t.stop_session(RID).unwrap();
    assert_eq!(stopped.generation, 1);
    assert_eq!(stopped.close_revision, 2);
    assert_eq!(stopped.session.peer_id, "alice");
    assert!(!t.contains(RID));
    assert_eq!(t.session_generation(RID), None);
}

#[test]
fn inbound_admission_checks_in_order() {
    let t = started(1);
    type K = RealtimeSignalKind;
    assert_eq!(
        t.admit_inbound_signal(RID, "alice", "bad", K::WebRtcAnswer, 2, b"sdp"),
        Err(RealtimeRejection::InvalidSharedSessionInstanceId)
    );
    assert_eq!(
        t.admit_inbound_signal(RID, "bob", SID, K::WebRtcAnswer, 2, b"sdp"),
        Err(RealtimeRejection::SignalPeerMismatch)
    );
    assert_eq!(
        t.admit_inbound_signal(RID, "alice", SID2, K::WebRtcAnswer, 2, b"sdp"),
        Err(RealtimeRejection::SignalSessionInstanceMismatch)
    );
    assert_eq!(
        t.admit_inbound_signal(RID, "alice", SID, K::IceCandidate, 2, b"c"),
        Err(RealtimeRejection::StaleIceGeneration)
    );
    assert_eq!(t.admit_inbound_signal(RID, "alice", SID, K::IceCandidate, 1, b"c"), Ok(()));
    assert_eq!(
        t.admit_inbound_signal(RID, "alice", SID, K::WebRtcAnswer, 0, b"sdp"),
        Err(RealtimeRejection::StaleSignalingRevision)
    );
    assert_eq!(t.admit_inbound_signal(RID, "alice", SID, K::WebRtcAnswer, 2, b"sdp"), Ok(()));
    assert_eq!(
        t.admit_inbound_signal(RID, "alice", SID, K::ScreenShareConsent, 2, b"c"),
        Err(RealtimeRejection::ConsentIsNotWebRtc)
    );
    assert_eq!(
        t.admit_inbound_signal(RID, "alice", SID, K::WebRtcClose, 2, b""),
        Err(RealtimeRejection::UnsupportedSignalKind)
    );
    assert_eq!(
        t.admit_inbound_signal(RID2, "alice", SID, K::WebRtcAnswer, 2, b"sdp"),
        Err(RealtimeRejection::SessionDoesNotExist)
    );
    assert_eq!(t.admit_inbound_signal(RID2, "alice", SID, K::WebRtcOffer, 1, b"sdp"), Ok(()));
}

#[test]
fn remote_offer_creates_then_updates_session() {
    let mut t = RealtimeSessions::new(10);
    let (answer_revision, generation) = t.commit_remote_offer(RID, "bob", SID, 4, 2, Some(5), Some(8));
    assert_eq!(answer_revision, 4);
    assert_eq!(generation, 10);
    assert_eq!(t.remote_revision(RID), 4);
    assert_eq!(t.local_candidate_stamp(RID, "bob"), Some((SID.to_string(), 4)));
    assert!(t.owns_driver(RID, "bob", 5));
    assert_eq!(t.media_endpoint_driver(RID, "bob"), Ok((5, 10)));
    // A replayed offer is now stale.
    assert_eq!(
        t.admit_inbound_signal(RID, "bob", SID, RealtimeSignalKind::WebRtcOffer, 4, b"sdp"),
        Err(RealtimeRejection::StaleSignalingRevision)
    );
    let (answer_revision, generation) = t.commit_remote_offer(RID, "bob", SID, 6, 9, None, None);
    assert_eq!(answer_revision, 9);
    assert_eq!(generation, 10);
    assert!(t.owns_driver(RID, "bob", 5));
}

#[test]
fn remote_answer_candidate_and_restart() {
    let mut t = started(1);
    assert_eq!(t.commit_remote_answer(RID, 3, 2), (3, 1));
    assert_eq!(t.session_revision(RID), 3);
    assert_eq!(t.remote_revision(RID), 3);
    assert_eq!(t.record_remote_candidate(RID, b"cand".to_vec()), (3, 1));
    assert_eq!(
        t.admit_inbound_signal(RID, "alice", SID, RealtimeSignalKind::IceCandidate, 1, b"cand"),
        Err(RealtimeRejection::ReplayedIceCandidate)
    );
    assert_eq!(t.commit_ice_restart(RID, 4, 6), (6, 1));
    assert_eq!(t.local_candidate_stamp(RID, "alice"), Some((SID.to_string(), 6)));
    assert_eq!(
        t.admit_inbound_signal(RID, "alice", SID, RealtimeSignalKind::IceCandidate, 6, b"cand"),
        Ok(())
    );
}

#[test]
fn remote_close_checks_then_removes() {
    let mut t = started(1);
    assert!(matches!(
        t.take_remote_closed_session(RID2, "alice", 5, SID),
        Err(RealtimeRejection::SessionDoesNotExist)
    ));
    assert!(matches!(
        t.take_remote_closed_session(RID, "bob", 5, SID),
        Err(RealtimeRejection::SignalPeerMismatch)
    ));
    assert!(matches!(
        t.take_remote_closed_session(RID, "alice", 5, SID2),
        Err(RealtimeRejection::SignalSessionInstanceMismatch)
    ));
    assert!(matches!(
        t.take_remote_closed_session(RID, "alice", 0, SID),
        Err(RealtimeRejection::StaleSignalingRevision)
    ));
    let (s, generation) = t.take_remote_closed_session(RID, "alice", 1, SID).unwrap();
    assert_eq!(s.peer_id, "alice");
    assert_eq!(generation, 1);
    assert!(!t.contains(RID));
}

#[test]
fn outbound_signal_freshness() {
    let t = started(1);
    type K = RealtimeSignalKind;
    assert_eq!(t.check_outbound_signal(RID2, "alice", K::WebRtcOffer, 2), Err(RealtimeRejection::SessionDoesNotExist));
    assert_eq!(t.check_outbound_signal(RID, "alice", K::WebRtcOffer, 2), Ok(SID.to_string()));
    assert_eq!(
        t.check_outbound_signal(RID, "alice", K::WebRtcOffer, 1),
        Err(RealtimeRejection::StaleOrMismatchedRevision)
    );
    assert_eq!(
        t.check_outbound_signal(RID, "bob", K::WebRtcOffer, 2),
        Err(RealtimeRejection::StaleOrMismatchedRevision)
    );
    assert_eq!(t.check_outbound_signal(RID, "alice", K::IceCandidate, 1), Ok(SID.to_string()));
    assert_eq!(
        t.check_outbound_signal(RID, "alice", K::IceCandidate, 2),
        Err(RealtimeRejection::StaleOrMismatchedRevision)
    );
    assert_eq!(t.check_outbound_signal(RID, "alice", K::ScreenShareConsent, 1), Ok(SID.to_string()));
    assert_eq!(
        t.check_outbound_signal(RID, "alice", K::ScreenShareConsent, 0),
        Err(RealtimeRejection::StaleOrMismatchedRevision)
    );
}

#[test]
fn media_endpoint_driver_errors() {
    let mut t = started(1);
    assert_eq!(t.media_endpoint_driver(RID, "alice"), Ok((77, 1)));
    assert_eq!(t.media_endpoint_driver(RID, "bob"), Err(RealtimeMediaError::PeerMismatch));
    assert_eq!(t.media_endpoint_driver(RID2, "alice"), Err(RealtimeMediaError::UnknownRealtimeSession));
    t.commit_remote_offer(RID2, "bob", SID, 1, 1, None, None);
    assert_eq!(t.media_endpoint_driver(RID2, "bob"), Err(RealtimeMediaError::DriverUnavailable));
}

#[test]
fn driver_ownership_guards_removal() {
    let mut t = started(1);
    assert!(t.take_session_if_owned(RID, "alice", 78).is_none());
    assert!(t.take_session_if_owned(RID, "bob", 77).is_none());
    assert!(t.contains(RID));
    assert!(t.take_session_if_owned(RID, "alice", 77).is_some());
    assert!(!t.contains(RID));
}

#[test]
fn claim_close_revision() {
    let mut t = started(4);
    assert!(t.exact_claim_responder(RID, "alice", SID, 4, 77));
    assert!(!t.exact_claim_responder(RID, "alice", SID, 5, 77));
    assert!(t.next_claim_close_signal(RID, "alice", SID, 7, 5, 77).is_none());
    let close = t.next_claim_close_signal(RID, "alice", SID, 7, 4, 77).unwrap();
    assert_eq!(close.revision, 8);
    assert_eq!(close.kind, RealtimeSignalKind::WebRtcClose);
    assert_eq!(close.payload, b"close".to_vec());
    assert_eq!(close.realtime_id, RID);
    assert_eq!(close.peer_id, "alice");
    assert_eq!(close.shared_session_instance_id, SID);
    assert_eq!(t.session_revision(RID), 8);
    assert_eq!(t.next_claim_close_signal(RID, "alice", SID, 2, 4, 77).map(|s| s.revision), Some(9));
    assert!(t.next_claim_close_signal(RID, "alice", SID, u64::MAX, 4, 77).is_none());
    assert_eq!(t.session_revision(RID), 9);
}

#[test]
fn connection_close_takes_only_matching_sessions() {
    let mut t = RealtimeSessions::new(1);
    t.register_local_session(RID.to_string(), "alice".to_string(), SID.to_string(), Some(9), 1, 4).unwrap();
    t.register_local_session(RID2.to_string(), "alice".to_string(), SID2.to_string(), Some(10), 2, 1).unwrap();
    let closed = t.close_for_connection_session("alice", 9);
    assert_eq!(closed.len(), 1);
    assert_eq!(closed[0].realtime_id, RID);
    assert_eq!(closed[0].peer_id, "alice");
    assert_eq!(closed[0].close_revision, 5);
    assert_eq!(closed[0].generation, 1);
    assert_eq!(closed[0].shared_session_instance_id, SID);
    assert!(!t.contains(RID));
    assert!(t.contains(RID2));
    assert!(t.close_for_connection_session("bob", 10).is_empty());
    t.clear();
    assert!(!t.contains(RID2));
}

#[test]
fn signal_command_checks() {
    let t = started(1);
    assert_eq!(
        t.check_signal_command(RID, "alice", true, 1, 2, b"sdp", None, 0),
        Ok((RealtimeSignalKind::WebRtcOffer, SID.to_string()))
    );
    assert_eq!(
        t.check_signal_command("bad", "alice", true, 1, 2, b"sdp", None, 0),
        Err(RealtimeRejection::InvalidRealtimeId)
    );
    assert_eq!(
        t.check_signal_command(RID, "alice", false, 1, 2, b"sdp", None, 0),
        Err(RealtimeRejection::PeerNotRegistered)
    );
    assert_eq!(
        t.check_signal_command(RID, "alice", true, 42, 2, b"sdp", None, 0),
        Err(RealtimeRejection::InvalidSignalKind)
    );
    assert_eq!(
        t.check_signal_command(RID, "alice", true, 1, 0, b"sdp", None, 0),
        Err(RealtimeRejection::SignalOutOfBounds)
    );
    assert_eq!(
        t.check_signal_command(RID2, "alice", true, 1, 2, b"sdp", None, 0),
        Err(RealtimeRejection::SessionDoesNotExist)
    );
    assert_eq!(
        t.check_signal_command(RID, "alice", true, 6, 1, b"consent", None, 1_500),
        Err(RealtimeRejection::MalformedConsent)
    );
    assert_eq!(
        t.check_signal_command(RID, "alice", true, 6, 1, b"consent", Some(consent(1)), 1_500),
        Ok((RealtimeSignalKind::ScreenShareConsent, SID.to_string()))
    );
    assert_eq!(
        t.check_signal_command(RID, "alice", true, 1, 1, b"sdp", None, 0),
        Err(RealtimeRejection::StaleOrMismatchedRevision)
    );
}

#[test]
fn inbound_consent_is_bound_to_sender_and_instance() {
    let t = started(1);
    assert!(t.check_inbound_consent(RID, "alice", 10, Some(consent(2)), 1_500).is_ok());
    assert!(matches!(
        t.check_inbound_consent(RID, "bob", 10, Some(consent(2)), 1_500),
        Err(RealtimeRejection::ConsentSenderMismatch)
    ));
    let mut other = consent(2);
    other.shared_session_instance_id = SID2.to_string();
    assert!(matches!(
        t.check_inbound_consent(RID, "alice", 10, Some(other), 1_500),
        Err(RealtimeRejection::ConsentSessionInstanceMismatch)
    ));
}

#[test]
fn io_events_map_to_actions() {
    assert_eq!(
        io_event_action(RealtimeIoEventKind::LocalIceCandidate),
        IoEventAction { forward_candidate: true, state: None, snapshot: false, stop: false }
    );
    assert_eq!(
        io_event_action(RealtimeIoEventKind::PeerConnected),
        IoEventAction { forward_candidate: false, state: Some(RealtimeSessionState::Connected), snapshot: true, stop: false }
    );
    for e in [RealtimeIoEventKind::PeerDisconnected, RealtimeIoEventKind::PeerFailed, RealtimeIoEventKind::IceFailed] {
        assert_eq!(
            io_event_action(e),
            IoEventAction { forward_candidate: false, state: Some(RealtimeSessionState::Failed), snapshot: false, stop: true }
        );
    }
    assert_eq!(
        io_event_action(RealtimeIoEventKind::DataChannelOpened),
        IoEventAction { forward_candidate: false, state: None, snapshot: false, stop: false }
    );
}

#[test]
fn sessions_can_be_inserted_and_removed_directly() {
    let mut t = RealtimeSessions::new(3);
    let s = RealtimeSession {
        peer_id: "alice".to_string(),
        shared_session_instance_id: SID.to_string(),
        connection_session_id: None,
        driver: None,
        revision: 1,
        remote_revision: 0,
        ice_revision: 1,
        seen_candidates: Vec::new(),
    };
    t.insert_new_session(RID.to_string(), s);
    assert_eq!(t.session_generation(RID), Some(3));
    let s2 = RealtimeSession {
        peer_id: "alice".to_string(),
        shared_session_instance_id: SID.to_string(),
        connection_session_id: None,
        driver: Some(4),
        revision: 2,
        remote_revision: 0,
        ice_revision: 2,
        seen_candidates: Vec::new(),
    };
    t.insert_existing_session(RID.to_string(), s2);
    assert_eq!(t.session_generation(RID), Some(3));
    assert_eq!(t.session_revision(RID), 2);
    assert_eq!(t.remove_session(RID).map(|s| s.revision), Some(2));
    assert!(t.remove_session(RID).is_none());
}

#[test]
fn inbound_signals_are_routed() {
    let t = started(1);
    type K = RealtimeSignalKind;
    assert!(matches!(
        t.route_inbound_signal(K::WebRtcOffer, "bad", "alice", true, 1, SID, b"sdp", None, 0),
        Err(RealtimeRejection::InvalidRealtimeId)
    ));
    assert!(matches!(
        t.route_inbound_signal(K::WebRtcOffer, RID2, "alice", true, 1, "bad", b"sdp", None, 0),
        Err(RealtimeRejection::InvalidSharedSessionInstanceId)
    ));
    assert!(matches!(
        t.route_inbound_signal(K::WebRtcOffer, RID2, "alice", false, 1, SID, b"sdp", None, 0),
        Err(RealtimeRejection::PeerNotRegistered)
    ));
    assert!(matches!(
        t.route_inbound_signal(K::WebRtcOffer, RID2, "alice", true, 0, SID, b"sdp", None, 0),
        Err(RealtimeRejection::SignalOutOfBounds)
    ));
    assert!(matches!(
        t.route_inbound_signal(K::WebRtcOffer, RID2, "alice", true, 1, SID, b"sdp", None, 0),
        Ok(InboundRoute::Apply { needs_driver: true })
    ));
    assert!(matches!(
        t.route_inbound_signal(K::WebRtcOffer, RID, "alice", true, 2, SID, b"sdp", None, 0),
        Ok(InboundRoute::Apply { needs_driver: false })
    ));
    assert!(matches!(
        t.route_inbound_signal(K::WebRtcAnswer, RID2, "alice", true, 1, SID, b"sdp", None, 0),
        Ok(InboundRoute::Apply { needs_driver: false })
    ));
    assert!(matches!(
        t.route_inbound_signal(K::WebRtcClose, RID, "alice", true, 2, SID, b"", None, 0),
        Ok(InboundRoute::Close)
    ));
    match t.route_inbound_signal(K::ScreenShareConsent, RID, "alice", true, 1, SID, b"c", Some(consent(2)), 1_500) {
        Ok(InboundRoute::Consent(c)) => assert_eq!(c.decision, 2),
        _ => panic!("a valid consent is forwarded"),
    }
    assert!(matches!(
        t.route_inbound_signal(K::ScreenShareConsent, RID, "bob", true, 1, SID, b"c", Some(consent(2)), 1_500),
        Err(RealtimeRejection::ConsentSenderMismatch)
    ));
}
