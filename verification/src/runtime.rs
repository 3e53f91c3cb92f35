//! Runtime decisions: the lifecycle state machine behind start/stop and the
//! command gate, route authorization, connect and admission decisions, and
//! which ready path a lease may use.

use crate::realtime_media::{
    endpoint_lease_spec, invalidate_all_spec, validate_endpoint_spec, RealtimeMediaDirection,
    RealtimeMediaEndpointId, RegistryModel,
};
use vstd::prelude::*;

verus! {

/// The runtime lifecycle.
#[derive(Debug, Clone, Copy, PartialEq, Eq, Structural)]
pub enum RuntimeLifecycle {
    Created,
    Running,
    Stopping,
    Stopped,
}

/// Why a lifecycle operation was refused.
#[derive(Debug, Clone, Copy, PartialEq, Eq, Structural)]
pub enum RuntimeLifecycleError {
    RuntimeNotRunning,
}

/// Starting moves a created runtime to Running; any other state refuses.
pub fn start_transition(current: RuntimeLifecycle) -> (r: Result<RuntimeLifecycle, RuntimeLifecycleError>)
    ensures
        r == start_spec(current),
{
    if current == RuntimeLifecycle::Created {
        Ok(RuntimeLifecycle::Running)
    } else {
        Err(RuntimeLifecycleError::RuntimeNotRunning)
    }
}

/// What `stop` does in each state.
#[derive(Debug, Clone, Copy, PartialEq, Eq, Structural)]
pub enum StopAction {
    /// Nothing runs: the runtime is marked Stopped at once.
    MarkStopped,
    /// Another stop is under way: wait until it leaves Stopping.
    WaitForStop,
    /// Running: move to Stopping, shut down, then mark Stopped.
    Shutdown,
}

/// Stopping succeeds exactly once in effect, and a repeated stop still
/// succeeds.
pub fn stop_action(current: RuntimeLifecycle) -> (a: StopAction)
    ensures
        a == stop_spec(current),
{
    match current {
        RuntimeLifecycle::Created => StopAction::MarkStopped,
        RuntimeLifecycle::Stopped => StopAction::MarkStopped,
        RuntimeLifecycle::Stopping => StopAction::WaitForStop,
        RuntimeLifecycle::Running => StopAction::Shutdown,
    }
}

/// The state a stop leaves once its action is done: Stopped; `None` while
/// another stop is under way (the caller waits for it and asks again).
pub open spec fn stop_leaves(current: RuntimeLifecycle) -> Option<RuntimeLifecycle> {
    if current == RuntimeLifecycle::Stopping {
        None
    } else {
        Some(RuntimeLifecycle::Stopped)
    }
}

pub fn state_after_stop(current: RuntimeLifecycle) -> (r: Option<RuntimeLifecycle>)
    ensures
        r == stop_leaves(current),
{
    if current == RuntimeLifecycle::Stopping {
        None
    } else {
        Some(RuntimeLifecycle::Stopped)
    }
}

/// Commands (and media endpoint calls) are taken only while Running.
pub fn command_allowed(current: RuntimeLifecycle) -> (b: bool)
    ensures
        b == (current == RuntimeLifecycle::Running),
{
    current == RuntimeLifecycle::Running
}

/// The UDP port the endpoint bound, when it bound one (0 means none).
pub fn bound_local_port(port: u16) -> (r: Option<u16>)
    ensures
        r == port_reported(port),
{
    if port != 0 {
        Some(port)
    } else {
        None
    }
}

/// The state `start` leads to.
pub open spec fn start_spec(current: RuntimeLifecycle) -> Result<RuntimeLifecycle, RuntimeLifecycleError> {
    if current == RuntimeLifecycle::Created {
        Ok(RuntimeLifecycle::Running)
    } else {
        Err(RuntimeLifecycleError::RuntimeNotRunning)
    }
}

/// What `stop` does in a state.
pub open spec fn stop_spec(current: RuntimeLifecycle) -> StopAction {
    match current {
        RuntimeLifecycle::Created => StopAction::MarkStopped,
        RuntimeLifecycle::Stopped => StopAction::MarkStopped,
        RuntimeLifecycle::Stopping => StopAction::WaitForStop,
        RuntimeLifecycle::Running => StopAction::Shutdown,
    }
}

/// A runtime starts at most once: a second start is refused, and a stopped
/// runtime cannot start again; stopping a stopped runtime does nothing more.
pub proof fn lemma_lifecycle_once(current: RuntimeLifecycle)
    ensures
        start_spec(current) is Ok ==> start_spec(start_spec(current)->Ok_0) is Err,
        start_spec(RuntimeLifecycle::Stopped) is Err,
        stop_spec(RuntimeLifecycle::Stopped) == StopAction::MarkStopped,
{
}

/// The runtime as a stop sees it: its lifecycle, the port it reports bound
/// and its media lease registry.
pub struct RuntimeModel {
    pub lifecycle: RuntimeLifecycle,
    pub bound_port: u16,
    pub media: RegistryModel,
}

/// The port the runtime reports: none for 0.
pub open spec fn port_reported(port: u16) -> Option<u16> {
    if port == 0 {
        None
    } else {
        Some(port)
    }
}

/// The runtime after a stop (`None` while another stop is under way): the
/// lifecycle `stop_leaves`, no port, and every lease invalidated (a runtime
/// that never ran holds none).
pub open spec fn stop_model(s: RuntimeModel) -> Option<RuntimeModel> {
    match stop_leaves(s.lifecycle) {
        None => None,
        Some(l) => Some(RuntimeModel { lifecycle: l, bound_port: 0, media: invalidate_all_spec(s.media) }),
    }
}

/// Stop always succeeds and settles, whatever the state but Stopping: the
/// runtime is Stopped, reports no port, refuses commands, cannot start
/// again and has no lease left to validate; the worker is shut down only
/// from Running, so exactly once; and a repeated stop leaves the same state
/// without a second shutdown.
pub proof fn lemma_repeated_stop(
    s: RuntimeModel,
    id: RealtimeMediaEndpointId,
    realtime_id: Seq<char>,
    peer_id: Seq<char>,
    generation: u64,
    direction: RealtimeMediaDirection,
)
    requires
        s.lifecycle != RuntimeLifecycle::Stopping,
    ensures
        stop_model(s) is Some,
        ({
            let t = stop_model(s)->Some_0;
            &&& t.lifecycle == RuntimeLifecycle::Stopped
            &&& port_reported(t.bound_port) is None
            &&& t.lifecycle != RuntimeLifecycle::Running
            &&& start_spec(t.lifecycle) is Err
            &&& endpoint_lease_spec(t.media, id) is Err
            &&& validate_endpoint_spec(t.media, id, realtime_id, peer_id, generation, direction) is Err
            &&& stop_spec(t.lifecycle) == StopAction::MarkStopped
            &&& stop_model(t) == Some(t)
        }),
        (stop_spec(s.lifecycle) == StopAction::Shutdown) == (s.lifecycle == RuntimeLifecycle::Running),
{
    let t = stop_model(s)->Some_0;
    assert(invalidate_all_spec(t.media).bindings =~= t.media.bindings);
    assert(invalidate_all_spec(t.media).endpoints =~= t.media.endpoints);
}

/// A route's topology.
#[derive(Debug, Clone, Copy, PartialEq, Eq, Structural)]
pub enum RouteTopology {
    Direct,
    Relay,
}

/// The routes a peer registration allows.
#[derive(Debug, Clone, Copy, PartialEq, Eq, Structural)]
pub struct PeerRouteAuthorization {
    pub direct: bool,
    pub relay: bool,
}

/// A missing registration authorizes nothing.
pub open spec fn authorized_spec(authorization: Option<PeerRouteAuthorization>, topology: RouteTopology) -> bool {
    match authorization {
        Some(a) => match topology {
            RouteTopology::Direct => a.direct,
            RouteTopology::Relay => a.relay,
        },
        None => false,
    }
}

pub fn route_is_authorized(authorization: Option<PeerRouteAuthorization>, topology: RouteTopology) -> (b: bool)
    ensures
        b == authorized_spec(authorization, topology),
{
    match authorization {
        Some(a) => match topology {
            RouteTopology::Direct => a.direct,
            RouteTopology::Relay => a.relay,
        },
        None => false,
    }
}

/// The (direct, relay) flags of a registration; none without one.
pub fn authorized_route_flags(authorization: Option<PeerRouteAuthorization>) -> (r: (bool, bool))
    ensures
        r == (authorized_spec(authorization, RouteTopology::Direct), authorized_spec(
            authorization,
            RouteTopology::Relay,
        )),
{
    match authorization {
        Some(a) => (a.direct, a.relay),
        None => (false, false),
    }
}

/// What a connect attempt finds about the peer's session.
#[derive(Debug, Clone, Copy, PartialEq, Eq, Structural)]
pub enum ConnectDecision {
    /// A fresh session identity was reserved for this attempt.
    Started(u64),
    /// An authenticated session already carries the capability.
    AlreadyConnected(u64),
    /// An authenticated session exists but its path lacks the capability.
    CapabilityMismatch(u64),
    /// Another attempt holds the session identity.
    InProgress(u64),
}

/// The decision from an existing session: authenticated (a remote binding)
/// and carrying the capability, authenticated without it, or still pending.
pub fn connect_decision_for_existing(session_id: u64, has_remote_binding: bool, path_supports: bool) -> (d:
    ConnectDecision)
    ensures
        d == if has_remote_binding {
            if path_supports {
                ConnectDecision::AlreadyConnected(session_id)
            } else {
                ConnectDecision::CapabilityMismatch(session_id)
            }
        } else {
            ConnectDecision::InProgress(session_id)
        },
{
    if has_remote_binding {
        if path_supports {
            ConnectDecision::AlreadyConnected(session_id)
        } else {
            ConnectDecision::CapabilityMismatch(session_id)
        }
    } else {
        ConnectDecision::InProgress(session_id)
    }
}

/// The decision after trying to reserve `fresh`: started when the
/// reservation held, else in progress under the identity that won (or
/// `fresh` when none is visible).
pub fn connect_decision_for_reservation(fresh: u64, reserved: bool, current_after: Option<u64>) -> (d:
    ConnectDecision)
    ensures
        reserved ==> d == ConnectDecision::Started(fresh),
        !reserved ==> d == ConnectDecision::InProgress(
            match current_after {
                Some(s) => s,
                None => fresh,
            },
        ),
{
    if reserved {
        ConnectDecision::Started(fresh)
    } else {
        ConnectDecision::InProgress(
            match current_after {
                Some(s) => s,
                None => fresh,
            },
        )
    }
}

/// Whether a capability mask holds every required bit.
pub open spec fn has_capabilities(mask: u8, required: u8) -> bool {
    mask & required == required
}

/// An authenticated candidate may be published for the expected session
/// when its profile carries the required capabilities.
pub fn candidate_supports(current_session: Option<u64>, expected_session: u64, profile_mask: u8, required: u8) -> (b:
    bool)
    ensures
        b == (current_session == Some(expected_session) && has_capabilities(profile_mask, required)),
{
    current_session == Some(expected_session) && profile_mask & required == required
}

/// An authenticated candidate for the expected session whose profile carries
/// any capability at all.
pub fn candidate_supports_required(current_session: Option<u64>, expected_session: u64, profile_mask: u8) -> (b:
    bool)
    ensures
        b == (current_session == Some(expected_session) && profile_mask != 0),
{
    current_session == Some(expected_session) && profile_mask != 0
}

/// A path admission may retry while the session is still the expected one
/// and not yet authenticated.
pub fn path_admission_can_retry(
    current_session: Option<u64>,
    expected_session: Option<u64>,
    has_remote_binding: bool,
) -> (b: bool)
    ensures
        b == (current_session == expected_session && !has_remote_binding),
{
    current_session == expected_session && !has_remote_binding
}

/// How a new connection is attached to the peer's session.
#[derive(Debug, Clone, Copy, PartialEq, Eq, Structural)]
pub enum AttachSession {
    /// Attach to this current session.
    Use(u64),
    /// The connection belongs to a session that is gone: close it.
    Stale,
    /// No session exists and none was expected: reserve a new one.
    ReserveNew,
}

pub fn attach_session_decision(current_session: Option<u64>, expected_session: Option<u64>) -> (r: AttachSession)
    ensures
        r == match current_session {
            Some(s) => if expected_session is Some && expected_session != Some(s) {
                AttachSession::Stale
            } else {
                AttachSession::Use(s)
            },
            None => if expected_session is Some {
                AttachSession::Stale
            } else {
                AttachSession::ReserveNew
            },
        },
{
    match current_session {
        Some(s) => {
            match expected_session {
                Some(e) => if e != s {
                    AttachSession::Stale
                } else {
                    AttachSession::Use(s)
                },
                None => AttachSession::Use(s),
            }
        },
        None => if expected_session.is_some() {
            AttachSession::Stale
        } else {
            AttachSession::ReserveNew
        },
    }
}

/// The ready paths a lease may be taken from, in order: the direct path
/// first, then the relay path, each only when it carries the required
/// capabilities.
pub fn lease_candidates(direct_mask: Option<u8>, relay_mask: Option<u8>, required: u8) -> (r: Vec<RouteTopology>)
    ensures
        r@ == (if direct_mask is Some && has_capabilities(direct_mask->Some_0, required) {
            seq![RouteTopology::Direct]
        } else {
            Seq::empty()
        }) + (if relay_mask is Some && has_capabilities(relay_mask->Some_0, required) {
            seq![RouteTopology::Relay]
        } else {
            Seq::empty()
        }),
{
    let mut r: Vec<RouteTopology> = Vec::new();
    match direct_mask {
        Some(m) => if m & required == required {
            r.push(RouteTopology::Direct);
        },
        None => {},
    }
    let ghost first = r@;
    match relay_mask {
        Some(m) => if m & required == required {
            r.push(RouteTopology::Relay);
        },
        None => {},
    }
    proof {
        assert(r@ =~= (if direct_mask is Some && has_capabilities(direct_mask->Some_0, required) {
            seq![RouteTopology::Direct]
        } else {
            Seq::empty()
        }) + (if relay_mask is Some && has_capabilities(relay_mask->Some_0, required) {
            seq![RouteTopology::Relay]
        } else {
            Seq::empty()
        }));
    }
    r
}

} // verus!
