use network_core::realtime::session::RealtimeSessions;
use network_core::realtime_media::{
    all_hex_bytes, create_endpoint, validate_identifiers, DriverRelease, RealtimeMediaDirection, RealtimeMediaEndpointId,
    RealtimeMediaError, RealtimeMediaRegistry,
};

const RID: &str = "0123456789abcdef0123456789ABCDEF";
const RID2: &str = "ffffffffffffffffffffffffffffffff";

#[test]
fn endpoint_id_round_trips_through_raw() {
    for value in [0u64, 1, 42, u64::MAX] {
        assert_eq!(RealtimeMediaEndpointId::from_raw(value).raw(), value);
    }
    let id = RealtimeMediaEndpointId::from_raw(7);
    assert_eq!(RealtimeMediaEndpointId::from_raw(id.raw()), id);
}

#[test]
fn identifiers_are_checked_in_order() {
    assert_eq!(validate_identifiers(RID, "peer"), Ok(()));
    assert_eq!(validate_identifiers("abc", "peer"), Err(RealtimeMediaError::InvalidRealtimeId));
    assert_eq!(
        validate_identifiers("0123456789abcdef0123456789abcdeg", "peer"),
        Err(RealtimeMediaError::InvalidRealtimeId)
    );
    assert_eq!(validate_identifiers(RID, ""), Err(RealtimeMediaError::InvalidPeerId));
    let long_peer = "p".repeat(129);
    assert_eq!(validate_identifiers(RID, &long_peer), Err(RealtimeMediaError::InvalidPeerId));
    assert_eq!(validate_identifiers(RID, &"p".repeat(128)), Ok(()));
    assert_eq!(validate_identifiers("", ""), Err(RealtimeMediaError::InvalidRealtimeId));
}

#[test]
fn hex_bytes_accept_both_cases() {
    assert!(all_hex_bytes(b"09afAF"));
    assert!(all_hex_bytes(b""));
    assert!(!all_hex_bytes(b"0g"));
    assert!(!all_hex_bytes(b"-"));
}

#[test]
fn created_endpoint_validates_and_snapshots() {
    let mut registry = RealtimeMediaRegistry::new(3, 100);
    assert_eq!(registry.runtime_generation(), 3);
    let id = registry
        .create(RID, "peer-a", RealtimeMediaDirection::Send, 9, 9, 55)
        .unwrap();
    assert_eq!(id.raw(), 100);
    assert_eq!(
        registry.validate_endpoint(id, RID, "peer-a", 9, RealtimeMediaDirection::Send),
        Ok(())
    );
    let lease = registry.snapshot_endpoint(id, RealtimeMediaDirection::Send).unwrap();
    assert_eq!(lease.realtime_id, RID);
    assert_eq!(lease.peer_id, "peer-a");
    assert_eq!(lease.runtime_generation, 3);
    assert_eq!(lease.session_generation, 9);
    assert_eq!(lease.driver, 55);
    assert_eq!(registry.session_generation(id), Some(9));
    assert!(matches!(
        registry.snapshot_endpoint(id, RealtimeMediaDirection::Receive),
        Err(RealtimeMediaError::DirectionMismatch)
    ));
}

#[test]
fn validation_errors_come_in_order() {
    let mut registry = RealtimeMediaRegistry::new(1, 0);
    let id = registry
        .create(RID, "peer-a", RealtimeMediaDirection::Receive, 4, 4, 1)
        .unwrap();
    let missing = RealtimeMediaEndpointId::from_raw(999);
    assert_eq!(
        registry.validate_endpoint(missing, RID, "peer-a", 4, RealtimeMediaDirection::Receive),
        Err(RealtimeMediaError::StaleEndpoint)
    );
    assert_eq!(
        registry.validate_endpoint(id, RID, "peer-b", 4, RealtimeMediaDirection::Receive),
        Err(RealtimeMediaError::PeerMismatch)
    );
    assert_eq!(
        registry.validate_endpoint(id, RID2, "peer-a", 4, RealtimeMediaDirection::Receive),
        Err(RealtimeMediaError::PeerMismatch)
    );
    assert_eq!(
        registry.validate_endpoint(id, RID, "peer-a", 5, RealtimeMediaDirection::Receive),
        Err(RealtimeMediaError::StaleGeneration)
    );
    assert_eq!(
        registry.validate_endpoint(id, RID, "peer-a", 4, RealtimeMediaDirection::Send),
        Err(RealtimeMediaError::DirectionMismatch)
    );
}

#[test]
fn stale_expected_generation_is_refused_untouched() {
    let mut registry = RealtimeMediaRegistry::new(1, 10);
    assert_eq!(
        registry.create(RID, "peer", RealtimeMediaDirection::Send, 1, 2, 0),
        Err(RealtimeMediaError::StaleGeneration)
    );
    let id = registry.create(RID, "peer", RealtimeMediaDirection::Send, 2, 2, 0).unwrap();
    assert_eq!(id.raw(), 10);
}

#[test]
fn duplicate_endpoint_is_refused() {
    let mut registry = RealtimeMediaRegistry::new(1, 0);
    let first = registry.create(RID, "peer", RealtimeMediaDirection::Send, 2, 2, 8).unwrap();
    assert_eq!(
        registry.create(RID, "peer", RealtimeMediaDirection::Send, 2, 2, 8),
        Err(RealtimeMediaError::DuplicateEndpoint)
    );
    let other = registry.create(RID, "peer", RealtimeMediaDirection::Receive, 2, 2, 8).unwrap();
    assert_ne!(first, other);
    assert_eq!(other.raw(), first.raw() + 1);
}

#[test]
fn new_binding_drops_old_leases_of_that_realtime_id() {
    let mut registry = RealtimeMediaRegistry::new(1, 0);
    let old = registry.create(RID, "peer", RealtimeMediaDirection::Send, 2, 2, 8).unwrap();
    let kept = registry.create(RID2, "peer", RealtimeMediaDirection::Send, 2, 2, 8).unwrap();
    let new = registry.create(RID, "peer", RealtimeMediaDirection::Send, 3, 3, 8).unwrap();
    assert_ne!(old, new);
    assert_eq!(
        registry.validate_endpoint(old, RID, "peer", 2, RealtimeMediaDirection::Send),
        Err(RealtimeMediaError::StaleEndpoint)
    );
    assert_eq!(
        registry.validate_endpoint(kept, RID2, "peer", 2, RealtimeMediaDirection::Send),
        Ok(())
    );
    assert_eq!(
        registry.validate_endpoint(new, RID, "peer", 3, RealtimeMediaDirection::Send),
        Ok(())
    );
}

#[test]
fn invalidated_endpoint_is_stale() {
    let mut registry = RealtimeMediaRegistry::new(1, 0);
    let id = registry.create(RID, "peer", RealtimeMediaDirection::Send, 2, 2, 8).unwrap();
    let other = registry.create(RID2, "peer", RealtimeMediaDirection::Send, 2, 2, 8).unwrap();
    registry.invalidate_realtime(RID);
    assert_eq!(
        registry.validate_endpoint(id, RID, "peer", 2, RealtimeMediaDirection::Send),
        Err(RealtimeMediaError::StaleEndpoint)
    );
    assert!(matches!(registry.endpoint_lease(id), Err(RealtimeMediaError::StaleEndpoint)));
    assert!(registry.endpoint_lease(other).is_ok());
    registry.invalidate_all();
    assert!(matches!(registry.endpoint_lease(other), Err(RealtimeMediaError::StaleEndpoint)));
    assert_eq!(registry.session_generation(other), None);
    // Releasing after everything was invalidated is no error and changes nothing.
    registry.remove_endpoint(other);
    assert_eq!(registry.runtime_generation(), 1);
    let next = registry.create(RID, "peer", RealtimeMediaDirection::Send, 2, 2, 8).unwrap();
    assert_eq!(next.raw(), other.raw() + 1);
}

#[test]
fn remove_endpoint_is_idempotent() {
    let mut registry = RealtimeMediaRegistry::new(1, 0);
    let id = registry.create(RID, "peer", RealtimeMediaDirection::Send, 2, 2, 8).unwrap();
    registry.remove_endpoint(id);
    registry.remove_endpoint(id);
    assert_eq!(registry.session_generation(id), None);
    // With the lease gone, the same lease can be created again under a new ID.
    let again = registry.create(RID, "peer", RealtimeMediaDirection::Send, 2, 2, 8).unwrap();
    assert_ne!(again, id);
}

#[test]
fn identifier_counter_exhaustion_is_internal() {
    let mut registry = RealtimeMediaRegistry::new(1, u64::MAX);
    assert_eq!(
        registry.create(RID, "peer", RealtimeMediaDirection::Send, 2, 2, 8),
        Err(RealtimeMediaError::Internal)
    );
}

#[test]
fn endpoint_is_bound_to_live_session() {
    let rid = "0123456789abcdef0123456789abcdef";
    let sid = "fedcba9876543210fedcba9876543210";
    let mut sessions = RealtimeSessions::new(40);
    let mut registry = RealtimeMediaRegistry::new(1, 500);
    assert_eq!(
        create_endpoint(&sessions, &mut registry, rid, "alice", RealtimeMediaDirection::Send, 40),
        Err(RealtimeMediaError::UnknownRealtimeSession)
    );
    sessions
        .register_local_session(rid.to_string(), "alice".to_string(), sid.to_string(), None, 12, 1)
        .unwrap();
    assert_eq!(
        create_endpoint(&sessions, &mut registry, "bad", "alice", RealtimeMediaDirection::Send, 40),
        Err(RealtimeMediaError::InvalidRealtimeId)
    );
    assert_eq!(
        create_endpoint(&sessions, &mut registry, rid, "bob", RealtimeMediaDirection::Send, 40),
        Err(RealtimeMediaError::PeerMismatch)
    );
    assert_eq!(
        create_endpoint(&sessions, &mut registry, rid, "alice", RealtimeMediaDirection::Send, 41),
        Err(RealtimeMediaError::StaleGeneration)
    );
    let id = create_endpoint(&sessions, &mut registry, rid, "alice", RealtimeMediaDirection::Send, 40).unwrap();
    assert_eq!(id.raw(), 500);
    let lease = registry.endpoint_lease(id).unwrap();
    assert_eq!(lease.driver, 12);
    assert_eq!(lease.session_generation, 40);
    assert_eq!(registry.validate_endpoint(id, rid, "alice", 40, RealtimeMediaDirection::Send), Ok(()));
}

#[test]
fn release_keeps_lease_when_driver_cannot_clear() {
    let mut registry = RealtimeMediaRegistry::new(1, 0);
    let id = registry.create(RID, "peer", RealtimeMediaDirection::Send, 2, 2, 8).unwrap();
    assert_eq!(registry.release_endpoint(id, DriverRelease::ClearFailed), Err(RealtimeMediaError::DriverUnavailable));
    assert!(registry.endpoint_lease(id).is_ok());
    assert_eq!(registry.release_endpoint(id, DriverRelease::Cleared), Ok(()));
    assert!(registry.endpoint_lease(id).is_err());
    assert_eq!(registry.release_endpoint(id, DriverRelease::ClearFailed), Ok(()));
    let other = registry.create(RID, "peer", RealtimeMediaDirection::Receive, 2, 2, 8).unwrap();
    assert_eq!(registry.release_endpoint(other, DriverRelease::Gone), Ok(()));
    assert_eq!(registry.session_generation(other), None);
}
