//! Signals for a realtime ID that has not been accepted locally: the Offer
//! and its ICE are held, the typed REQUEST is paired with them, a CANCEL or
//! close drops them. Nothing here creates a peer connection, an Answer or a
//! media resource.

use crate::outside::str_from_utf8;
use crate::realtime::provisional::{
    binding_wf, drained, latest_in, lemma_slot_count, model_wf, next_epoch_after, peer_entries,
    prune_spec, push_ice_spec, remember_spec, slot_count_spec, with_binding, without_binding,
    PendingRequestModel, ProvisionalBindingModel, ProvisionalBindingState, ProvisionalModel,
    ProvisionalPendingRequest, ProvisionalRegistry, ProvisionalReplayKey, ProvisionalScreenShareBinding,
    ReplayKeyModel, MAX_PROVISIONAL_BINDING_LIFETIME_MS, MAX_PROVISIONAL_OPERATIONS,
};
use crate::realtime::session::bytes_eq;
use crate::realtime::wire::{
    consent_check_spec, decision_of, validate_screen_share_consent_at, RealtimeRejection,
    RealtimeSignalKind, ScreenShareConsent, ScreenShareConsentDecision,
};
use crate::strmap::str_eq;
use std::collections::VecDeque;
use vstd::prelude::*;
use vstd::utf8::valid_utf8;

verus! {

/// What the app is told when an Offer and its REQUEST have paired.
pub struct IncomingOfferNotice {
    pub offer_id: String,
    pub claim_token: String,
    pub realtime_id: String,
    pub authenticated_peer_id: String,
    pub shared_session_instance_id: String,
    pub binding_expires_at_ms: u64,
    pub request: ScreenShareConsent,
}

/// The notice tells exactly what the paired binding holds.
pub open spec fn notice_matches(n: IncomingOfferNotice, b: ProvisionalBindingModel) -> bool {
    &&& n.offer_id@ == b.offer_id
    &&& n.claim_token@ == b.claim_token
    &&& n.realtime_id@ == b.realtime_id
    &&& n.authenticated_peer_id@ == b.authenticated_peer_id
    &&& n.shared_session_instance_id@ == b.shared_session_instance_id
    &&& n.binding_expires_at_ms == b.effective_expires_at_ms
    &&& b.request is Some
    &&& n.request.same_as(b.request->Some_0)
}

pub open spec fn min_u64(a: u64, b: u64) -> u64 {
    if a < b {
        a
    } else {
        b
    }
}

pub open spec fn sat_add_u64(a: u64, b: u64) -> u64 {
    if a + b > u64::MAX {
        u64::MAX
    } else {
        (a + b) as u64
    }
}

/// A held Offer: an identical resend is accepted as is; another Offer for a
/// held ID, or one that disagrees with a pending REQUEST's peer or instance,
/// is refused; a new ID needs a free slot. The new binding takes the pending
/// REQUEST (and its epoch and deadline) when there is one, and is then
/// published (`Ok(true)`).
pub open spec fn offer_step(
    m: ProvisionalModel,
    realtime_id: Seq<char>,
    peer_id: Seq<char>,
    revision: u64,
    shared: Seq<char>,
    payload: Seq<u8>,
    offer_ok: bool,
    offer_id: Seq<char>,
    claim_token: Seq<char>,
    now_ms: u64,
) -> (ProvisionalModel, Result<bool, RealtimeRejection>) {
    if !offer_ok {
        (m, Err(RealtimeRejection::MalformedOfferDescription))
    } else if m.bindings.dom().contains(realtime_id) {
        let e = m.bindings[realtime_id];
        if e.authenticated_peer_id == peer_id && e.shared_session_instance_id == shared && e.offer_revision
            == revision && e.offer_payload == payload {
            (m, Ok(false))
        } else {
            (m, Err(RealtimeRejection::ConflictingOffer))
        }
    } else if m.requests.dom().contains(realtime_id) && (m.requests[realtime_id].authenticated_peer_id
        != peer_id || m.requests[realtime_id].shared_session_instance_id != shared) {
        (m, Err(RealtimeRejection::OfferConflictsRequest))
    } else if slot_count_spec(m) >= MAX_PROVISIONAL_OPERATIONS && !m.requests.dom().contains(realtime_id) {
        (m, Err(RealtimeRejection::TooManyProvisional))
    } else {
        let pending = m.requests.dom().contains(realtime_id);
        let q = m.requests[realtime_id];
        let binding_expires = sat_add_u64(now_ms, MAX_PROVISIONAL_BINDING_LIFETIME_MS);
        let epoch = if pending {
            q.provisional_epoch
        } else {
            next_epoch_after(m.next_epoch)
        };
        let b = ProvisionalBindingModel {
            provisional_epoch: epoch,
            offer_id,
            claim_token,
            authenticated_peer_id: peer_id,
            realtime_id,
            shared_session_instance_id: shared,
            offer_revision: revision,
            offer_payload: payload,
            ice: Seq::empty(),
            ice_total_bytes: 0,
            request: if pending {
                Some(q.request)
            } else {
                None
            },
            binding_expires_at_ms: binding_expires,
            effective_expires_at_ms: if pending {
                min_u64(binding_expires, q.expires_at_ms)
            } else {
                binding_expires
            },
            published_to_app: pending,
            state: ProvisionalBindingState::Pending,
        };
        (
            ProvisionalModel {
                bindings: m.bindings.insert(realtime_id, b),
                requests: m.requests.remove(realtime_id),
                next_epoch: if pending {
                    m.next_epoch
                } else {
                    epoch
                },
                ..m
            },
            Ok(pending),
        )
    }
}

/// Whether an Offer opens a new binding (the last branch of `offer_step`):
/// it is well formed, no binding is held for the ID, a pending REQUEST for
/// the ID is bound to the same peer and instance, and without one a slot is
/// free. Only such an Offer needs fresh identifiers.
pub open spec fn offer_opens_binding(
    m: ProvisionalModel,
    realtime_id: Seq<char>,
    peer_id: Seq<char>,
    shared: Seq<char>,
    offer_ok: bool,
) -> bool {
    &&& offer_ok
    &&& !m.bindings.dom().contains(realtime_id)
    &&& if m.requests.dom().contains(realtime_id) {
        m.requests[realtime_id].authenticated_peer_id == peer_id
            && m.requests[realtime_id].shared_session_instance_id == shared
    } else {
        slot_count_spec(m) < MAX_PROVISIONAL_OPERATIONS
    }
}

/// Trickled ICE joins the held Offer's queue, from the same peer and instance
/// while the binding is neither claimed nor terminal.
pub open spec fn ice_step(
    m: ProvisionalModel,
    realtime_id: Seq<char>,
    peer_id: Seq<char>,
    revision: u64,
    shared: Seq<char>,
    payload: Seq<u8>,
) -> (ProvisionalModel, Result<bool, RealtimeRejection>) {
    if !m.bindings.dom().contains(realtime_id) {
        (m, Err(RealtimeRejection::ProvisionalOfferMissing))
    } else {
        let b = m.bindings[realtime_id];
        if b.authenticated_peer_id != peer_id || b.shared_session_instance_id != shared || b.state
            == ProvisionalBindingState::Claimed || b.state == ProvisionalBindingState::Terminal {
            (m, Err(RealtimeRejection::ProvisionalIceMismatch))
        } else {
            match push_ice_spec(b, revision, payload) {
                Ok(b2) => (with_binding(m, realtime_id, b2), Ok(false)),
                Err(e) => (m, Err(e)),
            }
        }
    }
}

/// The remembered identity of a consent action.
pub open spec fn action_key(peer_id: Seq<char>, local_device_id: Seq<char>, realtime_id: Seq<char>, c: ScreenShareConsent) -> ReplayKeyModel {
    ReplayKeyModel {
        sender_peer_id: peer_id,
        target_device_id: local_device_id,
        realtime_id,
        operation_id: c.operation_id@,
        decision: c.decision,
        action_revision: c.action_revision,
    }
}

/// An initial REQUEST (action revision 1). With a held Offer it pairs with
/// it (unless it disagrees, or a REQUEST is already paired) and the binding
/// is published once; without one it waits as a pending request, in a free
/// slot and under a new epoch. Either way the action is remembered first.
pub open spec fn request_step(
    m: ProvisionalModel,
    realtime_id: Seq<char>,
    peer_id: Seq<char>,
    c: ScreenShareConsent,
    local_device_id: Seq<char>,
    now_ms: u64,
) -> (ProvisionalModel, Result<bool, RealtimeRejection>) {
    let key = action_key(peer_id, local_device_id, realtime_id, c);
    if c.action_revision != 1 {
        (m, Err(RealtimeRejection::InitialRequestRevisionInvalid))
    } else if m.bindings.dom().contains(realtime_id) {
        let b = m.bindings[realtime_id];
        if b.authenticated_peer_id != peer_id || b.shared_session_instance_id != c.shared_session_instance_id@
            || b.state == ProvisionalBindingState::Claimed || b.state == ProvisionalBindingState::Terminal {
            (m, Err(RealtimeRejection::RequestBindingMismatch))
        } else if b.request is Some {
            let ex = b.request->Some_0;
            if ex.operation_id@ != c.operation_id@ || ex.action_revision != c.action_revision {
                (m, Err(RealtimeRejection::ConflictingRequest))
            } else {
                (m, Err(RealtimeRejection::ReplayedRequest))
            }
        } else {
            let (replay, res) = remember_spec(m.replay, key, now_ms);
            let m1 = ProvisionalModel { replay, ..m };
            match res {
                Err(e) => (m1, Err(e)),
                Ok(_) => (
                    with_binding(
                        m1,
                        realtime_id,
                        ProvisionalBindingModel {
                            effective_expires_at_ms: min_u64(b.effective_expires_at_ms, c.expires_at_ms),
                            request: Some(c),
                            published_to_app: true,
                            ..b
                        },
                    ),
                    Ok(!b.published_to_app),
                ),
            }
        }
    } else if slot_count_spec(m) >= MAX_PROVISIONAL_OPERATIONS && !m.requests.dom().contains(realtime_id) {
        (m, Err(RealtimeRejection::TooManyProvisional))
    } else if m.requests.dom().contains(realtime_id) {
        let q = m.requests[realtime_id];
        if q.authenticated_peer_id != peer_id || q.shared_session_instance_id != c.shared_session_instance_id@
            || q.request.operation_id@ != c.operation_id@ {
            (m, Err(RealtimeRejection::ConflictingRequest))
        } else {
            (m, Err(RealtimeRejection::ReplayedRequest))
        }
    } else {
        let (replay, res) = remember_spec(m.replay, key, now_ms);
        let m1 = ProvisionalModel { replay, ..m };
        match res {
            Err(e) => (m1, Err(e)),
            Ok(_) => {
                let epoch = next_epoch_after(m.next_epoch);
                (
                    ProvisionalModel {
                        requests: m.requests.insert(
                            realtime_id,
                            PendingRequestModel {
                                provisional_epoch: epoch,
                                authenticated_peer_id: peer_id,
                                shared_session_instance_id: c.shared_session_instance_id@,
                                request: c,
                                expires_at_ms: c.expires_at_ms,
                            },
                        ),
                        next_epoch: epoch,
                        ..m1
                    },
                    Ok(false),
                )
            },
        }
    }
}

/// The CANCEL of a REQUEST, before any claim: it must match the held binding
/// or pending request and follow the remembered REQUEST as action revision
/// 2; it drops what it matched.
pub open spec fn cancel_step(
    m: ProvisionalModel,
    realtime_id: Seq<char>,
    peer_id: Seq<char>,
    c: ScreenShareConsent,
    local_device_id: Seq<char>,
    now_ms: u64,
) -> (ProvisionalModel, Result<bool, RealtimeRejection>) {
    let b = m.bindings[realtime_id];
    let q = m.requests[realtime_id];
    let matches_binding = m.bindings.dom().contains(realtime_id) && b.authenticated_peer_id == peer_id
        && b.shared_session_instance_id == c.shared_session_instance_id@ && (b.request is None
        || b.request->Some_0.operation_id@ == c.operation_id@);
    let matches_request = m.requests.dom().contains(realtime_id) && q.authenticated_peer_id == peer_id
        && q.shared_session_instance_id == c.shared_session_instance_id@ && q.request.operation_id@
        == c.operation_id@;
    let latest = latest_in(peer_entries(m.replay, peer_id), realtime_id, c.operation_id@);
    if !matches_binding && !matches_request {
        (m, Err(RealtimeRejection::CancelBindingMismatch))
    } else if latest is None {
        (m, Err(RealtimeRejection::CancelLaneMissing))
    } else if c.action_revision != sat_add_u64(latest->Some_0, 1) || sat_add_u64(latest->Some_0, 1) != 2 {
        (m, Err(RealtimeRejection::CancelRevisionNotContiguous))
    } else {
        let (replay, res) = remember_spec(m.replay, action_key(peer_id, local_device_id, realtime_id, c), now_ms);
        let m1 = ProvisionalModel { replay, ..m };
        match res {
            Err(e) => (m1, Err(e)),
            Ok(_) => if matches_binding {
                (without_binding(m1, realtime_id), Ok(false))
            } else {
                (ProvisionalModel { requests: m1.requests.remove(realtime_id), ..m1 }, Ok(false))
            },
        }
    }
}

/// A consent signal: checked against the held binding's instance (or the
/// signal's own when nothing is held); only REQUEST and CANCEL are valid
/// before a claim.
pub open spec fn consent_step(
    m: ProvisionalModel,
    realtime_id: Seq<char>,
    peer_id: Seq<char>,
    shared: Seq<char>,
    payload_len: nat,
    decoded: Option<ScreenShareConsent>,
    local_device_id: Seq<char>,
    now_ms: u64,
) -> (ProvisionalModel, Result<bool, RealtimeRejection>) {
    let expected = if m.bindings.dom().contains(realtime_id) {
        m.bindings[realtime_id].shared_session_instance_id
    } else {
        shared
    };
    let check = consent_check_spec(payload_len, decoded, realtime_id, Some(peer_id), Some(expected), now_ms);
    if check is Err {
        (m, Err(check->Err_0))
    } else {
        let c = decoded->Some_0;
        if decision_of(c.decision) == Some(ScreenShareConsentDecision::Request) {
            request_step(m, realtime_id, peer_id, c, local_device_id, now_ms)
        } else if decision_of(c.decision) == Some(ScreenShareConsentDecision::Cancel) {
            cancel_step(m, realtime_id, peer_id, c, local_device_id, now_ms)
        } else {
            (m, Err(RealtimeRejection::DecisionNotValidBeforeClaim))
        }
    }
}

/// A close drops the binding and the pending request bound to the same peer
/// and instance.
pub open spec fn close_step(m: ProvisionalModel, realtime_id: Seq<char>, peer_id: Seq<char>, shared: Seq<char>) -> (
    ProvisionalModel,
    Result<bool, RealtimeRejection>,
) {
    let drop_binding = m.bindings.dom().contains(realtime_id) && m.bindings[realtime_id].authenticated_peer_id
        == peer_id && m.bindings[realtime_id].shared_session_instance_id == shared;
    let drop_request = m.requests.dom().contains(realtime_id) && m.requests[realtime_id].authenticated_peer_id
        == peer_id && m.requests[realtime_id].shared_session_instance_id == shared;
    let m1 = if drop_binding {
        without_binding(m, realtime_id)
    } else {
        m
    };
    (
        if drop_request {
            ProvisionalModel { requests: m1.requests.remove(realtime_id), ..m1 }
        } else {
            m1
        },
        Ok(false),
    )
}

/// One provisional signal, after expired entries are pruned. `Ok(true)`
/// means the binding of the realtime ID is to be published to the app.
pub open spec fn provisional_step(
    m0: ProvisionalModel,
    kind: RealtimeSignalKind,
    realtime_id: Seq<char>,
    peer_id: Seq<char>,
    revision: u64,
    shared: Seq<char>,
    payload: Seq<u8>,
    offer_ok: bool,
    decoded: Option<ScreenShareConsent>,
    offer_id: Seq<char>,
    claim_token: Seq<char>,
    local_device_id: Seq<char>,
    now_ms: u64,
) -> (ProvisionalModel, Result<bool, RealtimeRejection>) {
    let m = prune_spec(m0, now_ms);
    match kind {
        RealtimeSignalKind::WebRtcOffer => offer_step(
            m,
            realtime_id,
            peer_id,
            revision,
            shared,
            payload,
            offer_ok,
            offer_id,
            claim_token,
            now_ms,
        ),
        RealtimeSignalKind::IceCandidate => ice_step(m, realtime_id, peer_id, revision, shared, payload),
        RealtimeSignalKind::ScreenShareConsent => consent_step(
            m,
            realtime_id,
            peer_id,
            shared,
            payload.len(),
            decoded,
            local_device_id,
            now_ms,
        ),
        RealtimeSignalKind::WebRtcClose => close_step(m, realtime_id, peer_id, shared),
        RealtimeSignalKind::WebRtcAnswer => (m, Err(RealtimeRejection::AnswerBeforeClaim)),
        RealtimeSignalKind::IceRestart => (m, Err(RealtimeRejection::AnswerBeforeClaim)),
        RealtimeSignalKind::Unspecified => (m, Err(RealtimeRejection::UnsupportedProvisionalKind)),
    }
}

/// How an exec result stands to a step's result and state.
pub open spec fn step_result(
    r: Result<Option<IncomingOfferNotice>, RealtimeRejection>,
    res: Result<bool, RealtimeRejection>,
    m: ProvisionalModel,
    realtime_id: Seq<char>,
) -> bool {
    match res {
        Err(e) => r == Err::<Option<IncomingOfferNotice>, RealtimeRejection>(e),
        Ok(publish) => {
            &&& r is Ok
            &&& (r->Ok_0 is Some <==> publish)
            &&& r->Ok_0 is Some ==> m.bindings.dom().contains(realtime_id) && notice_matches(
                r->Ok_0->Some_0,
                m.bindings[realtime_id],
            )
        },
    }
}

/// A pairing is published to the app at most once: a REQUEST for a binding
/// already published publishes nothing, and a published binding stays
/// marked so.
pub proof fn lemma_published_once(
    m: ProvisionalModel,
    realtime_id: Seq<char>,
    peer_id: Seq<char>,
    c: ScreenShareConsent,
    local_device_id: Seq<char>,
    now_ms: u64,
)
    ensures
        m.bindings.dom().contains(realtime_id) && m.bindings[realtime_id].published_to_app ==> request_step(
            m,
            realtime_id,
            peer_id,
            c,
            local_device_id,
            now_ms,
        ).1 != Ok::<bool, RealtimeRejection>(true),
        request_step(m, realtime_id, peer_id, c, local_device_id, now_ms).1 == Ok::<bool, RealtimeRejection>(true)
            ==> request_step(m, realtime_id, peer_id, c, local_device_id, now_ms).0.bindings[realtime_id].published_to_app,
{
}

/// An Offer resent unchanged for a held binding is accepted and changes
/// nothing; any other Offer for a held binding is refused.
pub proof fn lemma_offer_resend_idempotent(
    m: ProvisionalModel,
    realtime_id: Seq<char>,
    peer_id: Seq<char>,
    revision: u64,
    shared: Seq<char>,
    payload: Seq<u8>,
    offer_id: Seq<char>,
    claim_token: Seq<char>,
    now_ms: u64,
)
    requires
        m.bindings.dom().contains(realtime_id),
    ensures
        ({
            let b = m.bindings[realtime_id];
            let (m2, res) = offer_step(
                m,
                realtime_id,
                peer_id,
                revision,
                shared,
                payload,
                true,
                offer_id,
                claim_token,
                now_ms,
            );
            &&& m2 == m
            &&& (b.authenticated_peer_id == peer_id && b.shared_session_instance_id == shared && b.offer_revision
                == revision && b.offer_payload == payload) ==> res == Ok::<bool, RealtimeRejection>(false)
            &&& !(b.authenticated_peer_id == peer_id && b.shared_session_instance_id == shared && b.offer_revision
                == revision && b.offer_payload == payload) ==> res == Err::<bool, RealtimeRejection>(
                RealtimeRejection::ConflictingOffer,
            )
        }),
{
}

/// An Offer that arrives after its REQUEST pairs with it at once: the new
/// binding keeps the REQUEST's epoch, takes the REQUEST, and is published.
pub proof fn lemma_offer_pairs_pending_request(
    m: ProvisionalModel,
    realtime_id: Seq<char>,
    peer_id: Seq<char>,
    revision: u64,
    shared: Seq<char>,
    payload: Seq<u8>,
    offer_id: Seq<char>,
    claim_token: Seq<char>,
    now_ms: u64,
)
    requires
        !m.bindings.dom().contains(realtime_id),
        m.requests.dom().contains(realtime_id),
        m.requests[realtime_id].authenticated_peer_id == peer_id,
        m.requests[realtime_id].shared_session_instance_id == shared,
    ensures
        ({
            let (m2, res) = offer_step(
                m,
                realtime_id,
                peer_id,
                revision,
                shared,
                payload,
                true,
                offer_id,
                claim_token,
                now_ms,
            );
            &&& res == Ok::<bool, RealtimeRejection>(true)
            &&& !m2.requests.dom().contains(realtime_id)
            &&& m2.bindings[realtime_id].provisional_epoch == m.requests[realtime_id].provisional_epoch
            &&& m2.bindings[realtime_id].request == Some(m.requests[realtime_id].request)
            &&& m2.bindings[realtime_id].effective_expires_at_ms <= m.requests[realtime_id].expires_at_ms
        }),
{
}

/// An accepted CANCEL withdraws the screen-share offer of its realtime ID:
/// afterwards neither a binding nor a pending REQUEST is held under that ID,
/// nothing is published, and every other realtime ID keeps what it held. A
/// refused CANCEL drops nothing.
pub proof fn lemma_cancel_withdraws(
    m: ProvisionalModel,
    realtime_id: Seq<char>,
    peer_id: Seq<char>,
    c: ScreenShareConsent,
    local_device_id: Seq<char>,
    now_ms: u64,
)
    requires
        model_wf(m),
    ensures
        ({
            let (m2, res) = cancel_step(m, realtime_id, peer_id, c, local_device_id, now_ms);
            &&& res is Ok ==> res == Ok::<bool, RealtimeRejection>(false)
            &&& res is Ok ==> !m2.bindings.dom().contains(realtime_id) && !m2.requests.dom().contains(realtime_id)
            &&& m2.bindings.remove(realtime_id) == m.bindings.remove(realtime_id)
            &&& m2.requests.remove(realtime_id) == m.requests.remove(realtime_id)
            &&& res is Err ==> m2.bindings == m.bindings && m2.requests == m.requests
        }),
{
    let (m2, res) = cancel_step(m, realtime_id, peer_id, c, local_device_id, now_ms);
    assert(m.bindings.remove(realtime_id).remove(realtime_id) =~= m.bindings.remove(realtime_id));
    assert(m.requests.remove(realtime_id).remove(realtime_id) =~= m.requests.remove(realtime_id));
    if m.bindings.dom().contains(realtime_id) {
        assert(!m.requests.dom().contains(realtime_id));
    }
}

/// A close from a peer and instance withdraws what is bound to exactly that
/// peer and instance under the realtime ID: no such binding or pending
/// REQUEST remains. What is bound to another peer or instance stays, and
/// other realtime IDs keep what they held. A close publishes nothing.
pub proof fn lemma_close_withdraws(
    m: ProvisionalModel,
    realtime_id: Seq<char>,
    peer_id: Seq<char>,
    shared: Seq<char>,
)
    requires
        model_wf(m),
    ensures
        ({
            let (m2, res) = close_step(m, realtime_id, peer_id, shared);
            &&& res == Ok::<bool, RealtimeRejection>(false)
            &&& !(m2.requests.dom().contains(realtime_id) && m2.requests[realtime_id].authenticated_peer_id
                == peer_id && m2.requests[realtime_id].shared_session_instance_id == shared)
            &&& !(m2.bindings.dom().contains(realtime_id) && m2.bindings[realtime_id].authenticated_peer_id
                == peer_id && m2.bindings[realtime_id].shared_session_instance_id == shared)
            &&& m2.bindings.remove(realtime_id) == m.bindings.remove(realtime_id)
            &&& m2.requests.remove(realtime_id) == m.requests.remove(realtime_id)
            &&& m.requests.dom().contains(realtime_id) && !(m.requests[realtime_id].authenticated_peer_id == peer_id
                && m.requests[realtime_id].shared_session_instance_id == shared) ==> m2.requests.dom().contains(
                realtime_id) && m2.requests[realtime_id] == m.requests[realtime_id]
            &&& m.bindings.dom().contains(realtime_id) && !(m.bindings[realtime_id].authenticated_peer_id == peer_id
                && m.bindings[realtime_id].shared_session_instance_id == shared) ==> m2.bindings.dom().contains(
                realtime_id) && m2.bindings[realtime_id] == m.bindings[realtime_id]
        }),
{
    assert(m.bindings.remove(realtime_id).remove(realtime_id) =~= m.bindings.remove(realtime_id));
    assert(m.requests.remove(realtime_id).remove(realtime_id) =~= m.requests.remove(realtime_id));
}

/// An Offer for a realtime ID that holds neither a binding nor a pending
/// REQUEST is never published: when accepted it opens a binding that holds
/// no REQUEST and is not marked published.
pub proof fn lemma_unrequested_offer_unpublished(
    m: ProvisionalModel,
    realtime_id: Seq<char>,
    peer_id: Seq<char>,
    revision: u64,
    shared: Seq<char>,
    payload: Seq<u8>,
    offer_ok: bool,
    decoded: Option<ScreenShareConsent>,
    offer_id: Seq<char>,
    claim_token: Seq<char>,
    local_device_id: Seq<char>,
    now_ms: u64,
)
    requires
        !m.bindings.dom().contains(realtime_id),
        !m.requests.dom().contains(realtime_id),
    ensures
        ({
            let (m2, res) = provisional_step(
                m,
                RealtimeSignalKind::WebRtcOffer,
                realtime_id,
                peer_id,
                revision,
                shared,
                payload,
                offer_ok,
                decoded,
                offer_id,
                claim_token,
                local_device_id,
                now_ms,
            );
            &&& res != Ok::<bool, RealtimeRejection>(true)
            &&& res is Ok ==> m2.bindings.dom().contains(realtime_id) && m2.bindings[realtime_id].request is None
                && !m2.bindings[realtime_id].published_to_app
        }),
{
}

/// After an accepted CANCEL, an Offer for the same realtime ID is not paired
/// with the cancelled REQUEST: it publishes nothing and any binding it opens
/// holds no REQUEST.
pub proof fn lemma_offer_after_cancel_unpublished(
    m: ProvisionalModel,
    realtime_id: Seq<char>,
    peer_id: Seq<char>,
    c: ScreenShareConsent,
    local_device_id: Seq<char>,
    now_ms: u64,
    offer_peer_id: Seq<char>,
    revision: u64,
    shared: Seq<char>,
    payload: Seq<u8>,
    offer_ok: bool,
    offer_id: Seq<char>,
    claim_token: Seq<char>,
    offer_now_ms: u64,
)
    requires
        model_wf(m),
        cancel_step(m, realtime_id, peer_id, c, local_device_id, now_ms).1 is Ok,
    ensures
        ({
            let m2 = cancel_step(m, realtime_id, peer_id, c, local_device_id, now_ms).0;
            let (m3, res) = provisional_step(
                m2,
                RealtimeSignalKind::WebRtcOffer,
                realtime_id,
                offer_peer_id,
                revision,
                shared,
                payload,
                offer_ok,
                None,
                offer_id,
                claim_token,
                local_device_id,
                offer_now_ms,
            );
            &&& res != Ok::<bool, RealtimeRejection>(true)
            &&& res is Ok ==> m3.bindings[realtime_id].request is None && !m3.bindings[realtime_id].published_to_app
        }),
{
    lemma_cancel_withdraws(m, realtime_id, peer_id, c, local_device_id, now_ms);
    let m2 = cancel_step(m, realtime_id, peer_id, c, local_device_id, now_ms).0;
    lemma_unrequested_offer_unpublished(
        m2,
        realtime_id,
        offer_peer_id,
        revision,
        shared,
        payload,
        offer_ok,
        None,
        offer_id,
        claim_token,
        local_device_id,
        offer_now_ms,
    );
}

/// After a close from the peer and instance a pending REQUEST is bound to,
/// an Offer for the realtime ID is not paired with that REQUEST: it
/// publishes nothing and any binding it opens holds no REQUEST.
pub proof fn lemma_offer_after_close_unpublished(
    m: ProvisionalModel,
    realtime_id: Seq<char>,
    peer_id: Seq<char>,
    shared: Seq<char>,
    offer_peer_id: Seq<char>,
    revision: u64,
    offer_shared: Seq<char>,
    payload: Seq<u8>,
    offer_ok: bool,
    offer_id: Seq<char>,
    claim_token: Seq<char>,
    local_device_id: Seq<char>,
    offer_now_ms: u64,
)
    requires
        model_wf(m),
        m.requests.dom().contains(realtime_id),
        m.requests[realtime_id].authenticated_peer_id == peer_id,
        m.requests[realtime_id].shared_session_instance_id == shared,
    ensures
        ({
            let m2 = close_step(m, realtime_id, peer_id, shared).0;
            let (m3, res) = provisional_step(
                m2,
                RealtimeSignalKind::WebRtcOffer,
                realtime_id,
                offer_peer_id,
                revision,
                offer_shared,
                payload,
                offer_ok,
                None,
                offer_id,
                claim_token,
                local_device_id,
                offer_now_ms,
            );
            &&& res != Ok::<bool, RealtimeRejection>(true)
            &&& res is Ok ==> m3.bindings[realtime_id].request is None && !m3.bindings[realtime_id].published_to_app
        }),
{
    lemma_close_withdraws(m, realtime_id, peer_id, shared);
    let m2 = close_step(m, realtime_id, peer_id, shared).0;
    assert(!m.bindings.dom().contains(realtime_id));
    assert(!m2.requests.dom().contains(realtime_id));
    lemma_unrequested_offer_unpublished(
        m2,
        realtime_id,
        offer_peer_id,
        revision,
        offer_shared,
        payload,
        offer_ok,
        None,
        offer_id,
        claim_token,
        local_device_id,
        offer_now_ms,
    );
}

fn notice_of(b: &ProvisionalScreenShareBinding) -> (n: IncomingOfferNotice)
    requires
        b.request.is_some(),
    ensures
        notice_matches(n, b@),
{
    let request = b.request.as_ref().unwrap().duplicate();
    IncomingOfferNotice {
        offer_id: b.offer_id.clone(),
        claim_token: b.claim_token.clone(),
        realtime_id: b.realtime_id.clone(),
        authenticated_peer_id: b.authenticated_peer_id.clone(),
        shared_session_instance_id: b.shared_session_instance_id.clone(),
        binding_expires_at_ms: b.effective_expires_at_ms,
        request,
    }
}


impl ProvisionalRegistry {
    fn apply_offer(
        &mut self,
        realtime_id: &str,
        peer_id: &str,
        revision: u64,
        shared: &str,
        payload: Vec<u8>,
        offer_ok: bool,
        offer_id: String,
        claim_token: String,
        now_ms: u64,
    ) -> (r: Result<Option<IncomingOfferNotice>, RealtimeRejection>)
        requires
            old(self).wf(),
        ensures
            final(self).wf(),
            ({
                let (m2, res) = offer_step(
                    old(self)@,
                    realtime_id@,
                    peer_id@,
                    revision,
                    shared@,
                    payload@,
                    offer_ok,
                    offer_id@,
                    claim_token@,
                    now_ms,
                );
                final(self)@ == m2 && step_result(r, res, m2, realtime_id@)
            }),
    {
        if !offer_ok {
            return Err(RealtimeRejection::MalformedOfferDescription);
        }
        match self.binding(realtime_id) {
            Some(e) => {
                if str_eq(e.authenticated_peer_id.as_str(), peer_id) && str_eq(
                    e.shared_session_instance_id.as_str(),
                    shared,
                ) && e.offer_revision == revision && bytes_eq(e.offer_payload.as_slice(), payload.as_slice()) {
                    return Ok(None);
                }
                return Err(RealtimeRejection::ConflictingOffer);
            },
            None => {},
        }
        let pending_exists = match self.pending_request(realtime_id) {
            Some(q) => {
                if !str_eq(q.authenticated_peer_id.as_str(), peer_id) || !str_eq(
                    q.shared_session_instance_id.as_str(),
                    shared,
                ) {
                    return Err(RealtimeRejection::OfferConflictsRequest);
                }
                true
            },
            None => false,
        };
        if !pending_exists && self.provisional_slot_count() >= MAX_PROVISIONAL_OPERATIONS {
            return Err(RealtimeRejection::TooManyProvisional);
        }
        let ghost m = self@;
        proof {
            self.lemma_model_wf();
            lemma_slot_count(m);
        }
        let binding_expires = now_ms.saturating_add(MAX_PROVISIONAL_BINDING_LIFETIME_MS);
        let pending = self.take_request(realtime_id);
        let (epoch, request, effective) = match pending {
            Some(q) => {
                let eff = if q.expires_at_ms < binding_expires {
                    q.expires_at_ms
                } else {
                    binding_expires
                };
                (q.provisional_epoch, Some(q.request), eff)
            },
            None => {
                let e = self.next_provisional_epoch();
                (e, None, binding_expires)
            },
        };
        let published = request.is_some();
        let b = ProvisionalScreenShareBinding {
            provisional_epoch: epoch,
            offer_id,
            claim_token,
            authenticated_peer_id: peer_id.to_owned(),
            realtime_id: realtime_id.to_owned(),
            shared_session_instance_id: shared.to_owned(),
            offer_revision: revision,
            offer_payload: payload,
            ice_candidates: VecDeque::new(),
            ice_total_bytes: 0,
            request,
            binding_expires_at_ms: binding_expires,
            effective_expires_at_ms: effective,
            published_to_app: published,
            state: ProvisionalBindingState::Pending,
        };
        let notice = if published {
            Some(notice_of(&b))
        } else {
            None
        };
        proof {
            assert(b@.ice =~= Seq::<(u64, Seq<u8>)>::empty());
        }
        self.put_binding(b);
        proof {
            let (m2, res) = offer_step(
                m,
                realtime_id@,
                peer_id@,
                revision,
                shared@,
                payload@,
                offer_ok,
                offer_id@,
                claim_token@,
                now_ms,
            );
            assert(self@.bindings =~= m2.bindings);
            assert(self@.requests =~= m2.requests);
        }
        Ok(notice)
    }

    fn apply_ice(&mut self, realtime_id: &str, peer_id: &str, revision: u64, shared: &str, payload: Vec<u8>) -> (r:
        Result<Option<IncomingOfferNotice>, RealtimeRejection>)
        requires
            old(self).wf(),
        ensures
            final(self).wf(),
            ({
                let (m2, res) = ice_step(old(self)@, realtime_id@, peer_id@, revision, shared@, payload@);
                final(self)@ == m2 && step_result(r, res, m2, realtime_id@)
            }),
    {
        let ghost m = self@;
        match self.binding(realtime_id) {
            None => return Err(RealtimeRejection::ProvisionalOfferMissing),
            Some(b) => {
                if !str_eq(b.authenticated_peer_id.as_str(), peer_id) || !str_eq(
                    b.shared_session_instance_id.as_str(),
                    shared,
                ) || b.state == ProvisionalBindingState::Claimed || b.state == ProvisionalBindingState::Terminal {
                    return Err(RealtimeRejection::ProvisionalIceMismatch);
                }
            },
        }
        proof {
            self.lemma_model_wf();
        }
        let mut b = match self.take_binding(realtime_id) {
            Some(b) => b,
            None => return Err(RealtimeRejection::ProvisionalOfferMissing),
        };
        let res = b.push_ice(revision, payload);
        proof {
            assert(b@.realtime_id == realtime_id@);
        }
        self.put_binding(b);
        proof {
            assert(self@.bindings =~= m.bindings.insert(realtime_id@, b@));
            if res is Err {
                assert(self@.bindings =~= m.bindings);
            }
        }
        match res {
            Ok(()) => Ok(None),
            Err(e) => Err(e),
        }
    }

    fn apply_request(
        &mut self,
        realtime_id: &str,
        peer_id: &str,
        consent: ScreenShareConsent,
        local_device_id: &str,
        now_ms: u64,
    ) -> (r: Result<Option<IncomingOfferNotice>, RealtimeRejection>)
        requires
            old(self).wf(),
        ensures
            final(self).wf(),
            ({
                let (m2, res) = request_step(old(self)@, realtime_id@, peer_id@, consent, local_device_id@, now_ms);
                final(self)@ == m2 && step_result(r, res, m2, realtime_id@)
            }),
    {
        let ghost m = self@;
        let ghost c = consent;
        if consent.action_revision != 1 {
            return Err(RealtimeRejection::InitialRequestRevisionInvalid);
        }
        let key = ProvisionalReplayKey {
            sender_peer_id: peer_id.to_owned(),
            target_device_id: local_device_id.to_owned(),
            realtime_id: realtime_id.to_owned(),
            operation_id: consent.operation_id.clone(),
            decision: consent.decision,
            action_revision: consent.action_revision,
        };
        proof {
            assert(key@ == action_key(peer_id@, local_device_id@, realtime_id@, c));
            self.lemma_model_wf();
            lemma_slot_count(m);
        }
        let has_binding = match self.binding(realtime_id) {
            Some(b) => {
                if !str_eq(b.authenticated_peer_id.as_str(), peer_id) || !str_eq(
                    b.shared_session_instance_id.as_str(),
                    consent.shared_session_instance_id.as_str(),
                ) || b.state == ProvisionalBindingState::Claimed || b.state == ProvisionalBindingState::Terminal {
                    return Err(RealtimeRejection::RequestBindingMismatch);
                }
                match &b.request {
                    Some(ex) => {
                        if !str_eq(ex.operation_id.as_str(), consent.operation_id.as_str()) || ex.action_revision
                            != consent.action_revision {
                            return Err(RealtimeRejection::ConflictingRequest);
                        }
                        return Err(RealtimeRejection::ReplayedRequest);
                    },
                    None => {},
                }
                true
            },
            None => false,
        };
        if has_binding {
            self.remember_provisional_action(key, now_ms)?;
            let ghost m1 = self@;
            let mut b = match self.take_binding(realtime_id) {
                Some(b) => b,
                None => return Err(RealtimeRejection::ProvisionalOfferMissing),
            };
            let was_published = b.published_to_app;
            b.effective_expires_at_ms = if consent.expires_at_ms < b.effective_expires_at_ms {
                consent.expires_at_ms
            } else {
                b.effective_expires_at_ms
            };
            b.request = Some(consent);
            b.published_to_app = true;
            let notice = if !was_published {
                Some(notice_of(&b))
            } else {
                None
            };
            proof {
                assert(b@.realtime_id == realtime_id@);
            }
            self.put_binding(b);
            proof {
                assert(self@.bindings =~= m1.bindings.insert(realtime_id@, b@));
            }
            return Ok(notice);
        }
        let has_pending = match self.pending_request(realtime_id) {
            Some(_) => true,
            None => false,
        };
        if !has_pending && self.provisional_slot_count() >= MAX_PROVISIONAL_OPERATIONS {
            return Err(RealtimeRejection::TooManyProvisional);
        }
        match self.pending_request(realtime_id) {
            Some(q) => {
                if !str_eq(q.authenticated_peer_id.as_str(), peer_id) || !str_eq(
                    q.shared_session_instance_id.as_str(),
                    consent.shared_session_instance_id.as_str(),
                ) || !str_eq(q.request.operation_id.as_str(), consent.operation_id.as_str()) {
                    return Err(RealtimeRejection::ConflictingRequest);
                }
                return Err(RealtimeRejection::ReplayedRequest);
            },
            None => {},
        }
        self.remember_provisional_action(key, now_ms)?;
        let epoch = self.next_provisional_epoch();
        let shared = consent.shared_session_instance_id.clone();
        let expires = consent.expires_at_ms;
        self.put_request(
            realtime_id.to_owned(),
            ProvisionalPendingRequest {
                provisional_epoch: epoch,
                authenticated_peer_id: peer_id.to_owned(),
                shared_session_instance_id: shared,
                request: consent,
                expires_at_ms: expires,
            },
        );
        Ok(None)
    }

    fn apply_cancel(
        &mut self,
        realtime_id: &str,
        peer_id: &str,
        consent: ScreenShareConsent,
        local_device_id: &str,
        now_ms: u64,
    ) -> (r: Result<Option<IncomingOfferNotice>, RealtimeRejection>)
        requires
            old(self).wf(),
        ensures
            final(self).wf(),
            ({
                let (m2, res) = cancel_step(old(self)@, realtime_id@, peer_id@, consent, local_device_id@, now_ms);
                final(self)@ == m2 && step_result(r, res, m2, realtime_id@)
            }),
            r is Ok ==> r == Ok::<Option<IncomingOfferNotice>, RealtimeRejection>(None)
                && !final(self)@.bindings.dom().contains(realtime_id@) && !final(self)@.requests.dom().contains(
                realtime_id@),
    {
        let ghost m = self@;
        let ghost c = consent;
        proof {
            self.lemma_model_wf();
            lemma_cancel_withdraws(m, realtime_id@, peer_id@, c, local_device_id@, now_ms);
        }
        let matches_binding = match self.binding(realtime_id) {
            Some(b) => str_eq(b.authenticated_peer_id.as_str(), peer_id) && str_eq(
                b.shared_session_instance_id.as_str(),
                consent.shared_session_instance_id.as_str(),
            ) && match &b.request {
                None => true,
                Some(q) => str_eq(q.operation_id.as_str(), consent.operation_id.as_str()),
            },
            None => false,
        };
        let matches_request = match self.pending_request(realtime_id) {
            Some(q) => str_eq(q.authenticated_peer_id.as_str(), peer_id) && str_eq(
                q.shared_session_instance_id.as_str(),
                consent.shared_session_instance_id.as_str(),
            ) && str_eq(q.request.operation_id.as_str(), consent.operation_id.as_str()),
            None => false,
        };
        if !matches_binding && !matches_request {
            return Err(RealtimeRejection::CancelBindingMismatch);
        }
        let latest = match self.latest_provisional_action_revision(
            peer_id,
            realtime_id,
            consent.operation_id.as_str(),
        ) {
            Some(x) => x,
            None => return Err(RealtimeRejection::CancelLaneMissing),
        };
        let expected = latest.saturating_add(1);
        if consent.action_revision != expected || expected != 2 {
            return Err(RealtimeRejection::CancelRevisionNotContiguous);
        }
        let key = ProvisionalReplayKey {
            sender_peer_id: peer_id.to_owned(),
            target_device_id: local_device_id.to_owned(),
            realtime_id: realtime_id.to_owned(),
            operation_id: consent.operation_id.clone(),
            decision: consent.decision,
            action_revision: consent.action_revision,
        };
        proof {
            assert(key@ == action_key(peer_id@, local_device_id@, realtime_id@, c));
        }
        self.remember_provisional_action(key, now_ms)?;
        if matches_binding {
            self.take_binding(realtime_id);
        } else {
            self.take_request(realtime_id);
        }
        Ok(None)
    }

    fn apply_close(&mut self, realtime_id: &str, peer_id: &str, shared: &str) -> (r: Result<
        Option<IncomingOfferNotice>,
        RealtimeRejection,
    >)
        requires
            old(self).wf(),
        ensures
            final(self).wf(),
            ({
                let (m2, res) = close_step(old(self)@, realtime_id@, peer_id@, shared@);
                final(self)@ == m2 && step_result(r, res, m2, realtime_id@)
            }),
            r == Ok::<Option<IncomingOfferNotice>, RealtimeRejection>(None),
            !(final(self)@.requests.dom().contains(realtime_id@) && final(self)@.requests[realtime_id@].authenticated_peer_id
                == peer_id@ && final(self)@.requests[realtime_id@].shared_session_instance_id == shared@),
            !(final(self)@.bindings.dom().contains(realtime_id@) && final(self)@.bindings[realtime_id@].authenticated_peer_id
                == peer_id@ && final(self)@.bindings[realtime_id@].shared_session_instance_id == shared@),
    {
        proof {
            self.lemma_model_wf();
            lemma_close_withdraws(self@, realtime_id@, peer_id@, shared@);
        }
        let drop_binding = match self.binding(realtime_id) {
            Some(b) => str_eq(b.authenticated_peer_id.as_str(), peer_id) && str_eq(
                b.shared_session_instance_id.as_str(),
                shared,
            ),
            None => false,
        };
        let drop_request = match self.pending_request(realtime_id) {
            Some(q) => str_eq(q.authenticated_peer_id.as_str(), peer_id) && str_eq(
                q.shared_session_instance_id.as_str(),
                shared,
            ),
            None => false,
        };
        if drop_binding {
            self.take_binding(realtime_id);
        }
        if drop_request {
            self.take_request(realtime_id);
        }
        Ok(None)
    }

    fn apply_consent(
        &mut self,
        realtime_id: &str,
        peer_id: &str,
        shared: &str,
        payload_len: usize,
        decoded: Option<ScreenShareConsent>,
        local_device_id: &str,
        now_ms: u64,
    ) -> (r: Result<Option<IncomingOfferNotice>, RealtimeRejection>)
        requires
            old(self).wf(),
        ensures
            final(self).wf(),
            ({
                let (m2, res) = consent_step(
                    old(self)@,
                    realtime_id@,
                    peer_id@,
                    shared@,
                    payload_len as nat,
                    decoded,
                    local_device_id@,
                    now_ms,
                );
                final(self)@ == m2 && step_result(r, res, m2, realtime_id@)
            }),
            (decoded matches Some(c) && decision_of(c.decision) == Some(ScreenShareConsentDecision::Cancel)) && r is Ok
                ==> r == Ok::<Option<IncomingOfferNotice>, RealtimeRejection>(None)
                && !final(self)@.bindings.dom().contains(realtime_id@) && !final(self)@.requests.dom().contains(
                realtime_id@),
    {
        let expected = match self.binding(realtime_id) {
            Some(b) => b.shared_session_instance_id.clone(),
            None => shared.to_owned(),
        };
        let consent = validate_screen_share_consent_at(
            payload_len,
            decoded,
            realtime_id,
            Some(peer_id),
            Some(expected.as_str()),
            now_ms,
        )?;
        match ScreenShareConsentDecision::from_wire(consent.decision) {
            Some(ScreenShareConsentDecision::Request) => self.apply_request(
                realtime_id,
                peer_id,
                consent,
                local_device_id,
                now_ms,
            ),
            Some(ScreenShareConsentDecision::Cancel) => self.apply_cancel(
                realtime_id,
                peer_id,
                consent,
                local_device_id,
                now_ms,
            ),
            _ => Err(RealtimeRejection::DecisionNotValidBeforeClaim),
        }
    }

    /// Handles one signal for a realtime ID not yet accepted locally (see
    /// `provisional_step`), after its identifiers and bounds were checked.
    /// `offer_description_ok` is whether the WebRTC layer parses the payload
    /// as an Offer description (looked at only for an Offer, which must also
    /// be UTF-8); `decoded` is the payload decoded as a consent (looked at
    /// only for a consent); `offer_id` and `claim_token` name a new binding.
    /// `Ok(Some(..))` is the pairing to publish to the app.
    pub fn apply_provisional_signal(
        &mut self,
        kind: RealtimeSignalKind,
        realtime_id: &str,
        peer_id: &str,
        revision: u64,
        shared: &str,
        payload: Vec<u8>,
        offer_description_ok: bool,
        decoded: Option<ScreenShareConsent>,
        offer_id: String,
        claim_token: String,
        local_device_id: &str,
        now_ms: u64,
    ) -> (r: Result<Option<IncomingOfferNotice>, RealtimeRejection>)
        requires
            old(self).wf(),
        ensures
            final(self).wf(),
            ({
                let (m2, res) = provisional_step(
                    old(self)@,
                    kind,
                    realtime_id@,
                    peer_id@,
                    revision,
                    shared@,
                    payload@,
                    valid_utf8(payload@) && offer_description_ok,
                    decoded,
                    offer_id@,
                    claim_token@,
                    local_device_id@,
                    now_ms,
                );
                final(self)@ == m2 && step_result(r, res, m2, realtime_id@)
            }),
            kind == RealtimeSignalKind::WebRtcClose ==> r == Ok::<Option<IncomingOfferNotice>, RealtimeRejection>(None)
                && !(final(self)@.requests.dom().contains(realtime_id@)
                && final(self)@.requests[realtime_id@].authenticated_peer_id == peer_id@
                && final(self)@.requests[realtime_id@].shared_session_instance_id == shared@)
                && !(final(self)@.bindings.dom().contains(realtime_id@)
                && final(self)@.bindings[realtime_id@].authenticated_peer_id == peer_id@
                && final(self)@.bindings[realtime_id@].shared_session_instance_id == shared@),
            kind == RealtimeSignalKind::ScreenShareConsent && (decoded matches Some(c) && decision_of(c.decision)
                == Some(ScreenShareConsentDecision::Cancel)) && r is Ok ==> r == Ok::<
                Option<IncomingOfferNotice>,
                RealtimeRejection,
            >(None) && !final(self)@.bindings.dom().contains(realtime_id@) && !final(self)@.requests.dom().contains(
                realtime_id@),
    {
        self.prune_provisional_bindings(now_ms);
        match kind {
            RealtimeSignalKind::WebRtcOffer => {
                let utf8 = str_from_utf8(payload.as_slice()).is_some();
                self.apply_offer(
                    realtime_id,
                    peer_id,
                    revision,
                    shared,
                    payload,
                    utf8 && offer_description_ok,
                    offer_id,
                    claim_token,
                    now_ms,
                )
            },
            RealtimeSignalKind::IceCandidate => self.apply_ice(realtime_id, peer_id, revision, shared, payload),
            RealtimeSignalKind::ScreenShareConsent => self.apply_consent(
                realtime_id,
                peer_id,
                shared,
                payload.len(),
                decoded,
                local_device_id,
                now_ms,
            ),
            RealtimeSignalKind::WebRtcClose => self.apply_close(realtime_id, peer_id, shared),
            RealtimeSignalKind::WebRtcAnswer => Err(RealtimeRejection::AnswerBeforeClaim),
            RealtimeSignalKind::IceRestart => Err(RealtimeRejection::AnswerBeforeClaim),
            RealtimeSignalKind::Unspecified => Err(RealtimeRejection::UnsupportedProvisionalKind),
        }
    }
}

} // verus!
