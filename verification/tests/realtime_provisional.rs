use network_core::realtime::manager::{v2_source_peer, ClaimingControl, ProvisionalOutcome, RealtimeManager};
use network_core::realtime::provisional::{
    provisional_delay_ms, reject_consent, ProvisionalBindingState, ProvisionalRegistry, ProvisionalReplayKey,
    MAX_PROVISIONAL_OPERATIONS,
};
use network_core::realtime::provisional_signal::IncomingOfferNotice;
use network_core::realtime::wire::{RealtimeRejection, RealtimeSignalKind, ScreenShareConsent};

const RID: &str = "0123456789abcdef0123456789abcdef";
const SID: &str = "fedcba9876543210fedcba9876543210";
const SID2: &str = "11111111111111111111111111111111";
const ME: &str = "me";
const OFFER: &[u8] = b"v=0 offer";

type K = RealtimeSignalKind;

fn consent(realtime_id: &str, decision: i32, action_revision: u64) -> ScreenShareConsent {
    ScreenShareConsent {
        schema_version: 2,
        operation_id: "op-1".to_string(),
        realtime_id: realtime_id.to_string(),
        shared_session_instance_id: SID.to_string(),
        issued_at_ms: 1_000,
        expires_at_ms: 61_000,
        sender_peer_id: "alice".to_string(),
        decision,
        purpose: 1,
        media: 1,
        requires_acceptance: true,
        action_revision,
    }
}

fn signal(
    m: &mut RealtimeManager,
    kind: RealtimeSignalKind,
    realtime_id: &str,
    revision: u64,
    payload: &[u8],
    decoded: Option<ScreenShareConsent>,
    now: u64,
) -> Result<Option<IncomingOfferNotice>, RealtimeRejection> {
    match m.handle_provisional_realtime_signal(
        kind,
        realtime_id,
        "alice",
        true,
        revision,
        SID,
        payload.to_vec(),
        true,
        decoded,
        Some(ME),
        now,
    ) {
        Ok(ProvisionalOutcome::Handled(n)) => Ok(n),
        Ok(ProvisionalOutcome::Formal) => panic!("signal went to the formal path"),
        Err(e) => Err(e),
    }
}

fn offer_and_request(m: &mut RealtimeManager, realtime_id: &str) -> IncomingOfferNotice {
    assert!(signal(m, K::WebRtcOffer, realtime_id, 1, OFFER, None, 1_500).unwrap().is_none());
    signal(m, K::ScreenShareConsent, realtime_id, 1, b"consent", Some(consent(realtime_id, 1, 1)), 1_500)
        .unwrap()
        .expect("the REQUEST pairs with the held Offer")
}

fn rid(i: usize) -> String {
    format!("{:032x}", i + 1)
}

#[test]
fn entry_checks_come_first() {
    let mut m = RealtimeManager::new(1);
    let r = m.handle_provisional_realtime_signal(
        K::WebRtcOffer, "bad", "alice", true, 1, SID, OFFER.to_vec(), true, None, Some(ME), 0,
    );
    assert!(matches!(r, Err(RealtimeRejection::InvalidRealtimeId)));
    let r = m.handle_provisional_realtime_signal(
        K::WebRtcOffer, RID, "alice", true, 1, "bad", OFFER.to_vec(), true, None, Some(ME), 0,
    );
    assert!(matches!(r, Err(RealtimeRejection::InvalidSharedSessionInstanceId)));
    let r = m.handle_provisional_realtime_signal(
        K::WebRtcOffer, RID, "alice", false, 1, SID, OFFER.to_vec(), true, None, Some(ME), 0,
    );
    assert!(matches!(r, Err(RealtimeRejection::PeerNotRegistered)));
    let r = m.handle_provisional_realtime_signal(
        K::WebRtcOffer, RID, "alice", true, 0, SID, OFFER.to_vec(), true, None, Some(ME), 0,
    );
    assert!(matches!(r, Err(RealtimeRejection::SignalOutOfBounds)));
    let r = m.handle_provisional_realtime_signal(
        K::WebRtcOffer, RID, "alice", true, 1, SID, OFFER.to_vec(), true, None, None, 0,
    );
    assert!(matches!(r, Err(RealtimeRejection::LocalIdentityUnavailable)));
    assert_eq!(m.provisional.provisional_slot_count(), 0);
}

#[test]
fn offer_then_request_publishes_once() {
    let mut m = RealtimeManager::new(1);
    let notice = offer_and_request(&mut m, RID);
    let b = m.provisional.binding(RID).unwrap();
    assert_eq!(notice.offer_id, b.offer_id);
    assert_eq!(notice.claim_token, b.claim_token);
    assert_eq!(notice.realtime_id, RID);
    assert_eq!(notice.authenticated_peer_id, "alice");
    assert_eq!(notice.shared_session_instance_id, SID);
    assert_eq!(notice.binding_expires_at_ms, 61_000);
    assert_eq!(notice.request.operation_id, "op-1");
    assert_eq!(notice.offer_id.len(), 32);
    assert_ne!(notice.offer_id, notice.claim_token);
    assert!(b.published_to_app);
    assert_eq!(b.state, ProvisionalBindingState::Pending);
    // The same REQUEST again is a replay and publishes nothing.
    assert_eq!(
        signal(&mut m, K::ScreenShareConsent, RID, 1, b"consent", Some(consent(RID, 1, 1)), 1_600).err(),
        Some(RealtimeRejection::ReplayedRequest)
    );
    // An identical Offer resend is accepted and changes nothing.
    assert!(signal(&mut m, K::WebRtcOffer, RID, 1, OFFER, None, 1_700).unwrap().is_none());
    assert_eq!(m.provisional.binding(RID).unwrap().offer_id, notice.offer_id);
    // A different Offer for the held ID conflicts.
    assert_eq!(
        signal(&mut m, K::WebRtcOffer, RID, 2, OFFER, None, 1_700).err(),
        Some(RealtimeRejection::ConflictingOffer)
    );
}

#[test]
fn request_before_offer_waits_and_pairs() {
    let mut m = RealtimeManager::new(1);
    assert!(signal(&mut m, K::ScreenShareConsent, RID, 1, b"c", Some(consent(RID, 1, 1)), 1_500)
        .unwrap()
        .is_none());
    assert!(m.provisional.pending_request(RID).is_some());
    let epoch = m.provisional.current_provisional_epoch(RID).unwrap();
    let notice = signal(&mut m, K::WebRtcOffer, RID, 1, OFFER, None, 1_600).unwrap().unwrap();
    assert_eq!(notice.request.operation_id, "op-1");
    assert!(m.provisional.pending_request(RID).is_none());
    assert_eq!(m.provisional.current_provisional_epoch(RID), Some(epoch));
}

#[test]
fn malformed_offer_description_is_refused() {
    let mut m = RealtimeManager::new(1);
    let r = m.handle_provisional_realtime_signal(
        K::WebRtcOffer, RID, "alice", true, 1, SID, OFFER.to_vec(), false, None, Some(ME), 0,
    );
    assert!(matches!(r, Err(RealtimeRejection::MalformedOfferDescription)));
    assert_eq!(
        signal(&mut m, K::WebRtcOffer, RID, 1, &[0xff, 0xfe], None, 0).err(),
        Some(RealtimeRejection::MalformedOfferDescription)
    );
}

#[test]
fn ice_is_queued_and_replays_refused() {
    let mut m = RealtimeManager::new(1);
    assert_eq!(
        signal(&mut m, K::IceCandidate, RID, 1, b"cand", None, 0).err(),
        Some(RealtimeRejection::ProvisionalOfferMissing)
    );
    signal(&mut m, K::WebRtcOffer, RID, 1, OFFER, None, 0).unwrap();
    assert!(signal(&mut m, K::IceCandidate, RID, 1, b"cand", None, 0).unwrap().is_none());
    assert_eq!(
        signal(&mut m, K::IceCandidate, RID, 1, b"cand", None, 0).err(),
        Some(RealtimeRejection::ReplayedProvisionalIce)
    );
    assert_eq!(
        signal(&mut m, K::IceCandidate, RID, 2, b"cand2", None, 0).err(),
        Some(RealtimeRejection::StaleProvisionalIce)
    );
    assert_eq!(m.provisional.binding(RID).unwrap().ice_candidates.len(), 1);
    assert_eq!(
        signal(&mut m, K::WebRtcAnswer, RID, 1, b"a", None, 0).err(),
        Some(RealtimeRejection::AnswerBeforeClaim)
    );
}

#[test]
fn provisional_slots_are_capped() {
    let mut m = RealtimeManager::new(1);
    for i in 0..MAX_PROVISIONAL_OPERATIONS {
        signal(&mut m, K::WebRtcOffer, &rid(i), 1, OFFER, None, 0).unwrap();
    }
    assert_eq!(m.provisional.provisional_slot_count(), MAX_PROVISIONAL_OPERATIONS);
    assert_eq!(
        signal(&mut m, K::WebRtcOffer, &rid(MAX_PROVISIONAL_OPERATIONS), 1, OFFER, None, 0).err(),
        Some(RealtimeRejection::TooManyProvisional)
    );
}

#[test]
fn cancel_drops_the_pairing() {
    let mut m = RealtimeManager::new(1);
    offer_and_request(&mut m, RID);
    assert_eq!(
        signal(&mut m, K::ScreenShareConsent, RID, 1, b"c", Some(consent(RID, 4, 3)), 1_600).err(),
        Some(RealtimeRejection::CancelRevisionNotContiguous)
    );
    assert!(signal(&mut m, K::ScreenShareConsent, RID, 1, b"c", Some(consent(RID, 4, 2)), 1_600)
        .unwrap()
        .is_none());
    assert!(m.provisional.binding(RID).is_none());
    assert_eq!(m.provisional.latest_provisional_action_revision("alice", RID, "op-1"), Some(2));
}

#[test]
fn close_drops_binding_and_decision_needs_claim() {
    let mut m = RealtimeManager::new(1);
    offer_and_request(&mut m, RID);
    assert_eq!(
        signal(&mut m, K::ScreenShareConsent, RID, 1, b"c", Some(consent(RID, 2, 2)), 1_600).err(),
        Some(RealtimeRejection::DecisionNotValidBeforeClaim)
    );
    assert!(signal(&mut m, K::WebRtcClose, RID, 2, b"", None, 1_600).unwrap().is_none());
    assert!(m.provisional.binding(RID).is_none());
}

#[test]
fn claim_commits_with_exact_responder() {
    let mut m = RealtimeManager::new(7);
    let notice = offer_and_request(&mut m, RID);
    signal(&mut m, K::IceCandidate, RID, 1, b"cand", None, 1_600).unwrap();
    assert!(matches!(
        m.provisional.begin_claim(RID, "alice", true, "wrong-token", 2_000),
        Err(RealtimeRejection::ClaimStaleOrIncomplete)
    ));
    let start = m.provisional.begin_claim(RID, "alice", true, &notice.claim_token, 2_000).unwrap();
    assert_eq!(start.offer_payload, OFFER.to_vec());
    assert_eq!(start.offer_revision, 1);
    assert_eq!(start.queued_ice.len(), 1);
    assert_eq!(start.shared_session_instance_id, SID);
    assert_eq!(m.provisional.binding(RID).unwrap().state, ProvisionalBindingState::Claiming);
    // A second claim of the same binding is refused.
    assert!(matches!(
        m.provisional.begin_claim(RID, "alice", true, &notice.claim_token, 2_000),
        Err(RealtimeRejection::ClaimStaleOrIncomplete)
    ));
    let (_, generation) = m.sessions.commit_remote_offer(RID, "alice", SID, 1, 1, Some(5), None);
    assert_eq!(generation, 7);
    let epoch = start.provisional_epoch;
    assert!(matches!(
        m.claim_commit_begin(RID, "alice", SID, &notice.claim_token, epoch, generation, 6, 2_100),
        Err(RealtimeRejection::ClaimSuperseded)
    ));
    let queued = m
        .claim_commit_begin(RID, "alice", SID, &notice.claim_token, epoch, generation, 5, 2_100)
        .unwrap();
    assert!(queued.is_empty());
    assert_eq!(
        m.claim_commit_finish(RID, "alice", SID, &notice.claim_token, epoch, generation, 5, 2_200),
        Ok(())
    );
    assert!(m.provisional.binding(RID).is_none());
    // Signals for the realtime ID now belong to the formal session.
    let r = m.handle_provisional_realtime_signal(
        K::IceCandidate, RID, "alice", true, 1, SID, b"c".to_vec(), true, None, Some(ME), 2_300,
    );
    assert!(matches!(r, Ok(ProvisionalOutcome::Formal)));
    let r = m.handle_provisional_realtime_signal(
        K::IceCandidate, RID, "bob", true, 1, SID, b"c".to_vec(), true, None, Some(ME), 2_300,
    );
    assert!(matches!(r, Err(RealtimeRejection::ProvisionalConflictsFormal)));
}

#[test]
fn claiming_cancel_and_rollback() {
    let mut m = RealtimeManager::new(1);
    let notice = offer_and_request(&mut m, RID);
    let start = m.provisional.begin_claim(RID, "alice", true, &notice.claim_token, 2_000).unwrap();
    let r = m.handle_claiming_control_signal(
        K::ScreenShareConsent, RID, "alice", 1, SID, b"c", Some(consent(RID, 2, 2)), ME, 2_100,
    );
    assert!(matches!(r, Err(RealtimeRejection::OnlyCancelWhileClaiming)));
    let r = m.handle_claiming_control_signal(
        K::ScreenShareConsent, RID, "alice", 1, SID2, b"c", Some(consent(RID, 4, 2)), ME, 2_100,
    );
    assert!(matches!(r, Ok(ClaimingControl::NotHandled)));
    let r = m.handle_claiming_control_signal(
        K::ScreenShareConsent, RID, "alice", 1, SID, b"c", Some(consent(RID, 4, 2)), ME, 2_100,
    );
    assert!(matches!(r, Ok(ClaimingControl::CancelledClaim)));
    assert!(m.provisional.binding(RID).is_none());
    // Rolling back a claim that no longer holds the binding changes nothing.
    assert!(m
        .rollback_incoming_claim(RID, "alice", SID, &notice.claim_token, start.provisional_epoch, None, 5)
        .is_none());
}

#[test]
fn rollback_removes_binding_and_responder() {
    let mut m = RealtimeManager::new(1);
    let notice = offer_and_request(&mut m, RID);
    let start = m.provisional.begin_claim(RID, "alice", true, &notice.claim_token, 2_000).unwrap();
    let (_, generation) = m.sessions.commit_remote_offer(RID, "alice", SID, 1, 1, Some(5), None);
    let s = m.rollback_incoming_claim(
        RID, "alice", SID, &notice.claim_token, start.provisional_epoch, Some(generation), 5,
    );
    assert!(s.is_some());
    assert!(m.provisional.binding(RID).is_none());
    assert!(!m.sessions.contains(RID));
}

#[test]
fn claiming_close_takes_binding_and_session() {
    let mut m = RealtimeManager::new(1);
    let notice = offer_and_request(&mut m, RID);
    m.provisional.begin_claim(RID, "alice", true, &notice.claim_token, 2_000).unwrap();
    let (_, generation) = m.sessions.commit_remote_offer(RID, "alice", SID, 1, 1, Some(5), None);
    let r = m.handle_claiming_control_signal(K::WebRtcClose, RID, "alice", 2, SID, b"", None, ME, 2_100);
    match r {
        Ok(ClaimingControl::ClosedClaim(Some((s, g)))) => {
            assert_eq!(s.peer_id, "alice");
            assert_eq!(g, generation);
        }
        _ => panic!("close during a claim should take the binding and the session"),
    }
    assert!(m.provisional.binding(RID).is_none());
    assert!(!m.sessions.contains(RID));
}

#[test]
fn reject_flow() {
    let mut m = RealtimeManager::new(1);
    let notice = offer_and_request(&mut m, RID);
    assert!(matches!(
        m.provisional.begin_reject(RID, "alice", true, "nope", 2_000),
        Err(RealtimeRejection::RejectionStale)
    ));
    let start = m.provisional.begin_reject(RID, "alice", true, &notice.claim_token, 2_000).unwrap();
    assert_eq!(start.signal_revision, 1);
    assert_eq!(start.shared_session_instance_id, SID);
    let reply = reject_consent(&start.request, 2_000, ME);
    assert_eq!(reply.decision, 3);
    assert_eq!(reply.sender_peer_id, ME);
    assert_eq!(reply.issued_at_ms, 2_000);
    assert_eq!(reply.expires_at_ms, 61_000);
    assert_eq!(reply.action_revision, 1);
    assert_eq!(reply.operation_id, "op-1");
    assert_eq!(m.provisional.mark_rejecting(RID, "alice", &notice.claim_token), Ok(()));
    assert_eq!(
        m.provisional.mark_rejecting(RID, "alice", &notice.claim_token),
        Err(RealtimeRejection::RejectionSuperseded)
    );
    assert!(m.provisional.finish_reject(RID, &notice.claim_token));
    assert!(m.provisional.binding(RID).is_none());
    assert!(!m.provisional.finish_reject(RID, &notice.claim_token));
}

#[test]
fn reject_consent_caps_expiry() {
    let mut request = consent(RID, 1, 1);
    request.expires_at_ms = u64::MAX;
    let reply = reject_consent(&request, 10, ME);
    assert_eq!(reply.expires_at_ms, 120_010);
}

#[test]
fn discard_incoming_offer() {
    let mut m = RealtimeManager::new(1);
    let notice = offer_and_request(&mut m, RID);
    assert!(m.provisional.discard_incoming_offer(RID, "alice", true, "nope").is_err());
    assert!(m.provisional.binding(RID).is_some());
    assert_eq!(m.provisional.discard_incoming_offer(RID, "alice", true, &notice.claim_token), Ok(()));
    assert!(m.provisional.binding(RID).is_none());
    assert_eq!(
        m.provisional.discard_incoming_offer("bad", "alice", true, &notice.claim_token),
        Err(RealtimeRejection::InvalidRealtimeId)
    );
}

#[test]
fn expiry_is_reported_and_applied() {
    let mut m = RealtimeManager::new(1);
    assert!(m.provisional.next_provisional_expiry().is_none());
    offer_and_request(&mut m, RID);
    let (id, epoch, deadline) = m.provisional.next_provisional_expiry().unwrap();
    assert_eq!(id, RID);
    assert_eq!(deadline, 61_000);
    assert!(!m.provisional.expire_due(RID, epoch, deadline - 1));
    assert!(!m.provisional.expire_due(RID, epoch + 1, deadline));
    assert!(m.provisional.expire_due(RID, epoch, deadline));
    assert!(m.provisional.binding(RID).is_none());
    assert!(m.provisional.next_provisional_expiry().is_none());
}

#[test]
fn expired_bindings_are_pruned() {
    let mut m = RealtimeManager::new(1);
    offer_and_request(&mut m, RID);
    m.provisional.prune_provisional_bindings(60_999);
    assert!(m.provisional.binding(RID).is_some());
    m.provisional.prune_provisional_bindings(61_000);
    assert!(m.provisional.binding(RID).is_none());
}

#[test]
fn replay_cache_refuses_repeats_and_forgets_after_ttl() {
    let mut reg = ProvisionalRegistry::new();
    let key = || ProvisionalReplayKey {
        sender_peer_id: "alice".to_string(),
        target_device_id: ME.to_string(),
        realtime_id: RID.to_string(),
        operation_id: "op".to_string(),
        decision: 1,
        action_revision: 1,
    };
    assert_eq!(reg.remember_provisional_action(key(), 1_000), Ok(()));
    assert_eq!(reg.remember_provisional_action(key(), 1_001), Err(RealtimeRejection::ReplayedAction));
    assert_eq!(reg.latest_provisional_action_revision("alice", RID, "op"), Some(1));
    assert_eq!(reg.latest_provisional_action_revision("bob", RID, "op"), None);
    reg.prune_replay_cache(1_000 + 300_000);
    assert_eq!(reg.latest_provisional_action_revision("alice", RID, "op"), None);
    assert_eq!(reg.remember_provisional_action(key(), 301_001), Ok(()));
}

#[test]
fn epochs_increase() {
    let mut reg = ProvisionalRegistry::new();
    let a = reg.next_provisional_epoch();
    let b = reg.next_provisional_epoch();
    assert!(b > a);
    assert!(a > 0);
}

#[test]
fn connection_loss_and_shutdown_drop_entries() {
    let mut m = RealtimeManager::new(1);
    offer_and_request(&mut m, RID);
    m.sessions
        .register_local_session(rid(5), "alice".to_string(), SID.to_string(), Some(3), 1, 1)
        .unwrap();
    let closed = m.close_for_connection_session("alice", 3);
    assert_eq!(closed.len(), 1);
    assert!(m.provisional.binding(RID).is_none());
    // The REQUEST of the dropped pairing stays remembered, so a new pairing
    // uses another realtime ID.
    offer_and_request(&mut m, &rid(7));
    m.close_all();
    assert!(m.provisional.binding(&rid(7)).is_none());
    assert_eq!(m.provisional.provisional_slot_count(), 0);
}

#[test]
fn drop_peer_keeps_other_peers() {
    let mut m = RealtimeManager::new(1);
    offer_and_request(&mut m, RID);
    m.provisional.drop_peer("bob");
    assert!(m.provisional.binding(RID).is_some());
    m.provisional.drop_peer("alice");
    assert!(m.provisional.binding(RID).is_none());
}

#[test]
fn v2_routing() {
    let m = RealtimeManager::new(1);
    assert_eq!(v2_source_peer("  alice \n"), "alice");
    let decoded = || Some((SID.to_string(), b"sdp".to_vec()));
    let r = m.route_v2_realtime_signal(RID, ME, Some(ME), "alice", true, 10, decoded(), 1).unwrap();
    assert_eq!(r.peer_id, "alice");
    assert!(!r.bound);
    assert_eq!(r.kind, K::WebRtcOffer);
    assert_eq!(r.shared_session_instance_id, SID);
    assert_eq!(r.payload, b"sdp".to_vec());
    assert!(matches!(
        m.route_v2_realtime_signal(RID, ME, None, "alice", true, 10, decoded(), 1),
        Err(RealtimeRejection::LocalIdentityUnavailable)
    ));
    assert!(matches!(
        m.route_v2_realtime_signal(RID, "other", Some(ME), "alice", true, 10, decoded(), 1),
        Err(RealtimeRejection::TargetMismatch)
    ));
    assert!(matches!(
        m.route_v2_realtime_signal(RID, ME, Some(ME), "alice", false, 10, decoded(), 1),
        Err(RealtimeRejection::PeerNotRegistered)
    ));
    assert!(matches!(
        m.route_v2_realtime_signal(RID, ME, Some(ME), "", true, 10, decoded(), 1),
        Err(RealtimeRejection::NoAuthenticatedSource)
    ));
    assert!(matches!(
        m.route_v2_realtime_signal(RID, ME, Some(ME), "alice", true, 10, None, 1),
        Err(RealtimeRejection::MalformedEnvelope)
    ));
    assert!(matches!(
        m.route_v2_realtime_signal(RID, ME, Some(ME), "alice", true, 10, decoded(), 99),
        Err(RealtimeRejection::InvalidSignalKind)
    ));
}

#[test]
fn v2_routing_uses_session_binding() {
    let mut m = RealtimeManager::new(1);
    m.sessions
        .register_local_session(RID.to_string(), "alice".to_string(), SID.to_string(), None, 1, 1)
        .unwrap();
    let decoded = || Some((SID.to_string(), b"sdp".to_vec()));
    let r = m.route_v2_realtime_signal(RID, ME, Some(ME), "", true, 10, decoded(), 2).unwrap();
    assert!(r.bound);
    assert_eq!(r.peer_id, "alice");
    assert!(matches!(
        m.route_v2_realtime_signal(RID, ME, Some(ME), "bob", true, 10, decoded(), 2),
        Err(RealtimeRejection::SourceMismatch)
    ));
}

#[test]
fn expiry_delay_counts_down_to_zero() {
    assert_eq!(provisional_delay_ms(1_000, 61_000), 60_000);
    assert_eq!(provisional_delay_ms(61_000, 61_000), 0);
    assert_eq!(provisional_delay_ms(70_000, 61_000), 0);
}

#[test]
fn v2_source_peer_trims_unicode_white_space() {
    assert_eq!(v2_source_peer("\u{3000}\u{a0}bob\u{2028}\u{85}"), "bob");
    assert_eq!(v2_source_peer("\u{200b}bob"), "\u{200b}bob");
    assert_eq!(v2_source_peer(" a b "), "a b");
    assert_eq!(v2_source_peer("\t\r\n"), "");
}
