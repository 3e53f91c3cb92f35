use network_core::runtime::{
    attach_session_decision, authorized_route_flags, bound_local_port, candidate_supports,
    candidate_supports_required, command_allowed, connect_decision_for_existing,
    connect_decision_for_reservation, lease_candidates, path_admission_can_retry, route_is_authorized,
    start_transition, state_after_stop, stop_action, AttachSession, ConnectDecision, PeerRouteAuthorization,
    RouteTopology, RuntimeLifecycle, RuntimeLifecycleError, StopAction,
};
use network_core::strmap::{starts_with, str_eq, StrMap};

#[test]
fn runtime_starts_once() {
    assert_eq!(start_transition(RuntimeLifecycle::Created), Ok(RuntimeLifecycle::Running));
    for s in [RuntimeLifecycle::Running, RuntimeLifecycle::Stopping, RuntimeLifecycle::Stopped] {
        assert_eq!(start_transition(s), Err(RuntimeLifecycleError::RuntimeNotRunning));
    }
    let running = start_transition(RuntimeLifecycle::Created).unwrap();
    assert!(start_transition(running).is_err());
}

#[test]
fn stop_is_idempotent() {
    assert_eq!(stop_action(RuntimeLifecycle::Running), StopAction::Shutdown);
    assert_eq!(stop_action(RuntimeLifecycle::Stopping), StopAction::WaitForStop);
    assert_eq!(stop_action(RuntimeLifecycle::Stopped), StopAction::MarkStopped);
    assert_eq!(stop_action(RuntimeLifecycle::Created), StopAction::MarkStopped);
}

#[test]
fn commands_only_while_running() {
    assert!(command_allowed(RuntimeLifecycle::Running));
    assert!(!command_allowed(RuntimeLifecycle::Created));
    assert!(!command_allowed(RuntimeLifecycle::Stopping));
    assert!(!command_allowed(RuntimeLifecycle::Stopped));
}

#[test]
fn bound_port_zero_is_none() {
    assert_eq!(bound_local_port(0), None);
    assert_eq!(bound_local_port(4433), Some(4433));
}

#[test]
fn routes_need_registration() {
    let both = PeerRouteAuthorization { direct: true, relay: true };
    let relay_only = PeerRouteAuthorization { direct: false, relay: true };
    assert!(route_is_authorized(Some(both), RouteTopology::Direct));
    assert!(!route_is_authorized(Some(relay_only), RouteTopology::Direct));
    assert!(route_is_authorized(Some(relay_only), RouteTopology::Relay));
    assert!(!route_is_authorized(None, RouteTopology::Relay));
    assert_eq!(authorized_route_flags(Some(relay_only)), (false, true));
    assert_eq!(authorized_route_flags(None), (false, false));
}

#[test]
fn connect_decisions() {
    assert_eq!(connect_decision_for_existing(4, true, true), ConnectDecision::AlreadyConnected(4));
    assert_eq!(connect_decision_for_existing(4, true, false), ConnectDecision::CapabilityMismatch(4));
    assert_eq!(connect_decision_for_existing(4, false, true), ConnectDecision::InProgress(4));
    assert_eq!(connect_decision_for_reservation(9, true, Some(3)), ConnectDecision::Started(9));
    assert_eq!(connect_decision_for_reservation(9, false, Some(3)), ConnectDecision::InProgress(3));
    assert_eq!(connect_decision_for_reservation(9, false, None), ConnectDecision::InProgress(9));
}

#[test]
fn capability_checks() {
    assert!(candidate_supports(Some(1), 1, 0b0111, 0b0101));
    assert!(!candidate_supports(Some(1), 1, 0b0011, 0b0101));
    assert!(!candidate_supports(Some(2), 1, 0b0111, 0b0101));
    assert!(!candidate_supports(None, 1, 0b0111, 0));
    assert!(candidate_supports_required(Some(1), 1, 1));
    assert!(!candidate_supports_required(Some(1), 1, 0));
    assert!(path_admission_can_retry(Some(1), Some(1), false));
    assert!(!path_admission_can_retry(Some(1), Some(1), true));
    assert!(!path_admission_can_retry(Some(1), Some(2), false));
    assert!(path_admission_can_retry(None, None, false));
}

#[test]
fn attach_decisions() {
    assert_eq!(attach_session_decision(Some(3), None), AttachSession::Use(3));
    assert_eq!(attach_session_decision(Some(3), Some(3)), AttachSession::Use(3));
    assert_eq!(attach_session_decision(Some(3), Some(4)), AttachSession::Stale);
    assert_eq!(attach_session_decision(None, Some(4)), AttachSession::Stale);
    assert_eq!(attach_session_decision(None, None), AttachSession::ReserveNew);
}

#[test]
fn lease_prefers_direct_then_relay() {
    assert_eq!(lease_candidates(Some(3), Some(3), 1), vec![RouteTopology::Direct, RouteTopology::Relay]);
    assert_eq!(lease_candidates(Some(2), Some(3), 1), vec![RouteTopology::Relay]);
    assert_eq!(lease_candidates(None, Some(2), 1), Vec::<RouteTopology>::new());
    assert_eq!(lease_candidates(Some(1), None, 1), vec![RouteTopology::Direct]);
}

#[test]
fn str_helpers() {
    assert!(str_eq("ab", "ab"));
    assert!(!str_eq("ab", "abc"));
    assert!(starts_with("alice/t1", "alice/"));
    assert!(!starts_with("alicex/t1", "alice/"));
    assert!(starts_with("x", ""));
    assert!(!starts_with("", "x"));
}

#[test]
fn str_map_operations() {
    let mut m: StrMap<u32> = StrMap::new();
    assert_eq!(m.len(), 0);
    m.insert("a".to_string(), 1);
    m.insert("b".to_string(), 2);
    m.insert("a".to_string(), 3);
    assert_eq!(m.len(), 2);
    assert_eq!(m.get("a"), Some(&3));
    assert!(m.contains_key("b"));
    let mut keys = m.keys();
    keys.sort();
    assert_eq!(keys, vec!["a".to_string(), "b".to_string()]);
    assert_eq!(m.remove("a"), Some(3));
    assert_eq!(m.remove("a"), None);
    m.insert("p/1".to_string(), 5);
    m.insert("p/2".to_string(), 6);
    m.insert("q/1".to_string(), 7);
    m.remove_prefixed("p/");
    assert_eq!(m.len(), 2);
    assert!(m.contains_key("q/1"));
    assert!(!m.contains_key("p/2"));
    let k = m.key_at(0).clone();
    assert_eq!(m.get(&k), Some(m.value_at(0)));
    m.clear();
    assert_eq!(m.len(), 0);
}

#[test]
fn stop_settles_in_stopped() {
    assert_eq!(state_after_stop(RuntimeLifecycle::Running), Some(RuntimeLifecycle::Stopped));
    assert_eq!(state_after_stop(RuntimeLifecycle::Created), Some(RuntimeLifecycle::Stopped));
    assert_eq!(state_after_stop(RuntimeLifecycle::Stopped), Some(RuntimeLifecycle::Stopped));
    assert_eq!(state_after_stop(RuntimeLifecycle::Stopping), None);
    assert!(!command_allowed(RuntimeLifecycle::Stopped));
    assert!(start_transition(RuntimeLifecycle::Stopped).is_err());
}
