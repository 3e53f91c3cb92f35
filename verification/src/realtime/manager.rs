//! The realtime manager: the formal session table beside the provisional
//! registry, and the operations that consult both.

use crate::outside::{hex_lower, str_from_utf8, str_trim, trimmed};
use crate::realtime::provisional::{
    without_peer, claim_held_spec, drained, exact_claiming_spec, ice_view, latest_in, peer_entries, remember_spec,
    with_binding, without_binding, lemma_prune_idempotent, prune_spec, ProvisionalBindingState,
    ProvisionalIceCandidate, ProvisionalModel, ProvisionalRegistry, ProvisionalReplayKey,
    MAX_PROVISIONAL_OPERATIONS,
};
use crate::realtime::provisional_signal::{
    action_key, offer_opens_binding, provisional_step, sat_add_u64, step_result, IncomingOfferNotice,
};
use crate::realtime::session::{
    closes_with, remove_spec, sat_inc, signal_entry_check, ClosedSession, RealtimeSession, RealtimeSessions,
    SessionsModel,
};
use crate::realtime::wire::{
    check_signal_envelope, check_signal_envelope_spec, consent_check_spec, decision_of,
    signal_kind_of, text_bytes, new_shared_session_instance_id, valid_peer_binding, validate_peer, validate_realtime_id,
    validate_screen_share_consent_at, validate_shared_session_instance_id, validate_signal,
    validate_signal_spec, RealtimeRejection, RealtimeSignalKind, ScreenShareConsent,
    ScreenShareConsentDecision,
};
use crate::strmap::str_eq;
use vstd::prelude::*;
use vstd::string::StringSliceAdditionalSpecFns;
use vstd::utf8::valid_utf8;

verus! {

pub struct RealtimeManager {
    pub sessions: RealtimeSessions,
    pub provisional: ProvisionalRegistry,
}

/// What became of a signal for a realtime ID not accepted locally.
pub enum ProvisionalOutcome {
    /// A formal session bound to the same peer and instance exists: the
    /// signal belongs to the formal signaling path.
    Formal,
    /// The provisional registry took the signal; `Some` is a pairing to
    /// publish to the app.
    Handled(Option<IncomingOfferNotice>),
}

/// What became of a control signal that may concern a claim in progress.
pub enum ClaimingControl {
    /// No claim in progress matches the signal.
    NotHandled,
    /// The sender cancelled its REQUEST; the claiming binding is gone.
    CancelledClaim,
    /// The sender closed; the claiming binding is gone, and the responder
    /// session with its generation when it had been registered.
    ClosedClaim(Option<(RealtimeSession, u64)>),
}

/// The checks a provisional signal passes before any state is read, in
/// order.
pub open spec fn provisional_entry_check(
    realtime_id: Seq<u8>,
    shared: Seq<u8>,
    peer_id: Seq<u8>,
    peer_registered: bool,
    kind: RealtimeSignalKind,
    revision: u64,
    payload_len: nat,
    has_identity: bool,
) -> Result<(), RealtimeRejection> {
    let entry = signal_entry_check(realtime_id, shared, peer_id, peer_registered, kind, revision, payload_len);
    if entry is Err {
        entry
    } else if !has_identity {
        Err(RealtimeRejection::LocalIdentityUnavailable)
    } else {
        Ok(())
    }
}

/// A fresh identifier: 16 bytes as lowercase hexadecimal.
pub open spec fn fresh_id(id: Seq<char>) -> bool {
    exists|b: Seq<u8>| b.len() == 16 && id == #[trigger] hex_lower(b)
}

pub open spec fn handled(r: Result<ProvisionalOutcome, RealtimeRejection>) -> Result<
    Option<IncomingOfferNotice>,
    RealtimeRejection,
> {
    match r {
        Ok(ProvisionalOutcome::Handled(n)) => Ok(n),
        Ok(ProvisionalOutcome::Formal) => Ok(None),
        Err(e) => Err(e),
    }
}

/// The registry took a provisional step with the identifiers `offer_id` and
/// `claim_token` (fresh ones when the signal is an Offer).
pub open spec fn provisional_outcome(
    m0: ProvisionalModel,
    m2: ProvisionalModel,
    r: Result<ProvisionalOutcome, RealtimeRejection>,
    kind: RealtimeSignalKind,
    realtime_id: Seq<char>,
    peer_id: Seq<char>,
    revision: u64,
    shared: Seq<char>,
    payload: Seq<u8>,
    offer_description_ok: bool,
    decoded: Option<ScreenShareConsent>,
    offer_id: Seq<char>,
    claim_token: Seq<char>,
    local_device_id: Seq<char>,
    now_ms: u64,
) -> bool {
    let (m, res) = provisional_step(
        m0,
        kind,
        realtime_id,
        peer_id,
        revision,
        shared,
        payload,
        valid_utf8(payload) && offer_description_ok,
        decoded,
        offer_id,
        claim_token,
        local_device_id,
        now_ms,
    );
    &&& kind == RealtimeSignalKind::WebRtcOffer && offer_opens_binding(
        prune_spec(m0, now_ms),
        realtime_id,
        peer_id,
        shared,
        valid_utf8(payload) && offer_description_ok,
    ) ==> fresh_id(offer_id) && fresh_id(claim_token)
    &&& r is Err || r->Ok_0 is Handled
    &&& m2 == m
    &&& step_result(handled(r), res, m, realtime_id)
}

/// The responder registered for a claim still owns the formal session.
pub open spec fn claim_responder_spec(
    m: SessionsModel,
    realtime_id: Seq<char>,
    peer_id: Seq<char>,
    shared: Seq<char>,
    generation: u64,
    driver: u64,
) -> bool {
    &&& m.generations.contains_key(realtime_id)
    &&& m.generations[realtime_id] == generation
    &&& m.sessions.contains_key(realtime_id)
    &&& m.sessions[realtime_id].peer_id == peer_id
    &&& m.sessions[realtime_id].shared_session_instance_id == shared
    &&& m.sessions[realtime_id].driver == Some(driver)
}

/// A binding whose claim is in progress, bound to this peer and instance.
pub open spec fn claiming_binding(m: ProvisionalModel, realtime_id: Seq<char>, peer_id: Seq<char>, shared: Seq<char>) -> bool {
    &&& m.bindings.dom().contains(realtime_id)
    &&& m.bindings[realtime_id].authenticated_peer_id == peer_id
    &&& m.bindings[realtime_id].shared_session_instance_id == shared
    &&& m.bindings[realtime_id].state == ProvisionalBindingState::Claiming
}

/// A CANCEL while a claim is in progress: it must match the claiming
/// REQUEST's operation and instance and follow it as action revision 2; it
/// drops the binding.
pub open spec fn claiming_cancel_step(
    m: ProvisionalModel,
    realtime_id: Seq<char>,
    peer_id: Seq<char>,
    shared: Seq<char>,
    payload_len: nat,
    decoded: Option<ScreenShareConsent>,
    local_device_id: Seq<char>,
    now_ms: u64,
) -> (ProvisionalModel, Result<(), RealtimeRejection>) {
    let check = consent_check_spec(payload_len, decoded, realtime_id, Some(peer_id), Some(shared), now_ms);
    let c = decoded->Some_0;
    let b = m.bindings[realtime_id];
    let latest = latest_in(peer_entries(m.replay, peer_id), realtime_id, c.operation_id@);
    if check is Err {
        (m, Err(check->Err_0))
    } else if decision_of(c.decision) != Some(ScreenShareConsentDecision::Cancel) {
        (m, Err(RealtimeRejection::OnlyCancelWhileClaiming))
    } else if !(b.request is Some && b.request->Some_0.operation_id@ == c.operation_id@
        && b.request->Some_0.shared_session_instance_id@ == c.shared_session_instance_id@) {
        (m, Err(RealtimeRejection::CancelDoesNotMatchClaim))
    } else if latest is None {
        (m, Err(RealtimeRejection::CancelLaneMissing))
    } else if c.action_revision != sat_add_u64(latest->Some_0, 1) || sat_add_u64(latest->Some_0, 1) != 2 {
        (m, Err(RealtimeRejection::CancelRevisionNotContiguous))
    } else {
        let (replay, res) = remember_spec(m.replay, action_key(peer_id, local_device_id, realtime_id, c), now_ms);
        let m1 = ProvisionalModel { replay, ..m };
        match res {
            Err(e) => (m1, Err(e)),
            Ok(_) => (without_binding(m1, realtime_id), Ok(())),
        }
    }
}

/// Whether an Offer opens a new binding in the registry as it stands (see
/// `offer_opens_binding`).
fn offer_opens(
    reg: &ProvisionalRegistry,
    realtime_id: &str,
    peer_id: &str,
    shared: &str,
    payload: &[u8],
    offer_description_ok: bool,
) -> (b: bool)
    requires
        reg.wf(),
    ensures
        b == offer_opens_binding(reg@, realtime_id@, peer_id@, shared@, valid_utf8(payload@) && offer_description_ok),
{
    if !offer_description_ok || str_from_utf8(payload).is_none() {
        return false;
    }
    if reg.binding(realtime_id).is_some() {
        return false;
    }
    match reg.pending_request(realtime_id) {
        Some(q) => str_eq(q.authenticated_peer_id.as_str(), peer_id) && str_eq(
            q.shared_session_instance_id.as_str(),
            shared,
        ),
        None => reg.provisional_slot_count() < MAX_PROVISIONAL_OPERATIONS,
    }
}

/// A failed claim leaves no half-committed responder: rolling back a claim
/// that still holds its binding, with its responder registered, leaves
/// neither the binding nor the responder session (nor its generation).
pub proof fn lemma_failed_claim_leaves_nothing(
    pm: ProvisionalModel,
    sm: SessionsModel,
    realtime_id: Seq<char>,
    peer_id: Seq<char>,
    shared: Seq<char>,
    claim_token: Seq<char>,
    provisional_epoch: u64,
    generation: u64,
    driver: u64,
)
    requires
        claim_held_spec(pm, realtime_id, claim_token, provisional_epoch),
        claim_responder_spec(sm, realtime_id, peer_id, shared, generation, driver),
    ensures
        !without_binding(pm, realtime_id).bindings.dom().contains(realtime_id),
        !remove_spec(sm, realtime_id).sessions.contains_key(realtime_id),
        !remove_spec(sm, realtime_id).generations.contains_key(realtime_id),
{
}

impl RealtimeManager {
    pub open spec fn wf(&self) -> bool {
        self.sessions.wf() && self.provisional.wf()
    }

    /// An empty manager whose first session generation is `first_generation`.
    pub fn new(first_generation: u64) -> (r: Self)
        ensures
            r.wf(),
            r.sessions@ == (SessionsModel {
                sessions: Map::empty(),
                generations: Map::empty(),
                next_generation: first_generation,
            }),
            r.provisional@.bindings.is_empty(),
            r.provisional@.requests.is_empty(),
            r.provisional@.replay.is_empty(),
    {
        RealtimeManager { sessions: RealtimeSessions::new(first_generation), provisional: ProvisionalRegistry::new() }
    }

    /// Handles a signal for a realtime ID not yet accepted locally. Its
    /// identifiers, peer and bounds are checked first (see
    /// `provisional_entry_check`; `local_device_id` is `None` while the local
    /// identity is unknown). A formal session bound to the same peer and
    /// instance takes the signal instead (`Formal`); one bound otherwise
    /// refuses it. Else expired entries are pruned and the registry takes the
    /// step of `provisional_step`. Only an Offer that opens a new binding (see
    /// `offer_opens_binding`) draws two fresh identifiers, and only it can end
    /// in `RandomnessUnavailable` when the system cannot supply them; an
    /// identical resend or a conflicting Offer is decided without randomness.
    pub fn handle_provisional_realtime_signal(
        &mut self,
        kind: RealtimeSignalKind,
        realtime_id: &str,
        peer_id: &str,
        peer_registered: bool,
        revision: u64,
        shared: &str,
        payload: Vec<u8>,
        offer_description_ok: bool,
        decoded: Option<ScreenShareConsent>,
        local_device_id: Option<&str>,
        now_ms: u64,
    ) -> (r: Result<ProvisionalOutcome, RealtimeRejection>)
        requires
            old(self).wf(),
        ensures
            final(self).wf(),
            final(self).sessions@ == old(self).sessions@,
            ({
                let check = provisional_entry_check(
                    realtime_id.spec_bytes(),
                    shared.spec_bytes(),
                    peer_id.spec_bytes(),
                    peer_registered,
                    kind,
                    revision,
                    payload@.len(),
                    local_device_id is Some,
                );
                let sm = old(self).sessions@;
                let formal = sm.sessions.contains_key(realtime_id@);
                let bound_here = formal && sm.sessions[realtime_id@].peer_id == peer_id@
                    && sm.sessions[realtime_id@].shared_session_instance_id == shared@;
                &&& check is Err ==> r == Err::<ProvisionalOutcome, RealtimeRejection>(check->Err_0)
                    && final(self).provisional@ == old(self).provisional@
                &&& check is Ok && formal && !bound_here ==> r == Err::<ProvisionalOutcome, RealtimeRejection>(
                    RealtimeRejection::ProvisionalConflictsFormal,
                ) && final(self).provisional@ == old(self).provisional@
                &&& check is Ok && bound_here ==> (r matches Ok(ProvisionalOutcome::Formal))
                    && final(self).provisional@ == old(self).provisional@
                &&& check is Ok && !formal && r == Err::<ProvisionalOutcome, RealtimeRejection>(
                    RealtimeRejection::RandomnessUnavailable,
                ) ==> kind == RealtimeSignalKind::WebRtcOffer && offer_opens_binding(
                    prune_spec(old(self).provisional@, now_ms),
                    realtime_id@,
                    peer_id@,
                    shared@,
                    valid_utf8(payload@) && offer_description_ok,
                ) && final(self).provisional@ == prune_spec(old(self).provisional@, now_ms)
                &&& check is Ok && !formal && kind == RealtimeSignalKind::WebRtcOffer && valid_utf8(payload@)
                    && offer_description_ok && prune_spec(old(self).provisional@, now_ms).bindings.dom().contains(
                    realtime_id@,
                ) ==> ({
                    let e = prune_spec(old(self).provisional@, now_ms).bindings[realtime_id@];
                    let same = e.authenticated_peer_id == peer_id@ && e.shared_session_instance_id == shared@
                        && e.offer_revision == revision && e.offer_payload == payload@;
                    &&& final(self).provisional@ == prune_spec(old(self).provisional@, now_ms)
                    &&& same ==> (r matches Ok(ProvisionalOutcome::Handled(None)))
                    &&& !same ==> r == Err::<ProvisionalOutcome, RealtimeRejection>(
                        RealtimeRejection::ConflictingOffer,
                    )
                })
                &&& check is Ok && !formal && r != Err::<ProvisionalOutcome, RealtimeRejection>(
                    RealtimeRejection::RandomnessUnavailable,
                ) ==> exists|offer_id: Seq<char>, claim_token: Seq<char>|
                    #[trigger] provisional_outcome(
                        old(self).provisional@,
                        final(self).provisional@,
                        r,
                        kind,
                        realtime_id@,
                        peer_id@,
                        revision,
                        shared@,
                        payload@,
                        offer_description_ok,
                        decoded,
                        offer_id,
                        claim_token,
                        local_device_id->Some_0@,
                        now_ms,
                    )
            }),
    {
        validate_realtime_id(realtime_id)?;
        validate_shared_session_instance_id(shared)?;
        validate_peer(peer_id, peer_registered)?;
        validate_signal(kind, revision, payload.as_slice())?;
        let local = match local_device_id {
            Some(d) => d,
            None => return Err(RealtimeRejection::LocalIdentityUnavailable),
        };
        match self.sessions.binding(realtime_id) {
            Some((p, s)) => {
                if !str_eq(p.as_str(), peer_id) || !str_eq(s.as_str(), shared) {
                    return Err(RealtimeRejection::ProvisionalConflictsFormal);
                }
                return Ok(ProvisionalOutcome::Formal);
            },
            None => {},
        }
        let ghost m0 = self.provisional@;
        self.provisional.prune_provisional_bindings(now_ms);
        let opens = kind == RealtimeSignalKind::WebRtcOffer && offer_opens(
            &self.provisional,
            realtime_id,
            peer_id,
            shared,
            payload.as_slice(),
            offer_description_ok,
        );
        let (offer_id, claim_token) = if opens {
            let a = match new_shared_session_instance_id() {
                Some(a) => a,
                None => return Err(RealtimeRejection::RandomnessUnavailable),
            };
            let b = match new_shared_session_instance_id() {
                Some(b) => b,
                None => return Err(RealtimeRejection::RandomnessUnavailable),
            };
            (a, b)
        } else {
            (String::new(), String::new())
        };
        let ghost oid = offer_id@;
        let ghost tok = claim_token@;
        let ghost m1 = self.provisional@;
        let res = self.provisional.apply_provisional_signal(
            kind,
            realtime_id,
            peer_id,
            revision,
            shared,
            payload,
            offer_description_ok,
            decoded,
            offer_id,
            claim_token,
            local,
            now_ms,
        );
        let r = match res {
            Ok(n) => Ok(ProvisionalOutcome::Handled(n)),
            Err(e) => Err(e),
        };
        proof {
            lemma_prune_idempotent(m0, now_ms);
            assert(prune_spec(m1, now_ms) == prune_spec(m0, now_ms));
            assert(provisional_outcome(
                m0,
                self.provisional@,
                r,
                kind,
                realtime_id@,
                peer_id@,
                revision,
                shared@,
                payload@,
                offer_description_ok,
                decoded,
                oid,
                tok,
                local@,
                now_ms,
            ));
        }
        r
    }

    /// Handles a CANCEL or close that may concern a claim in progress (see
    /// `claiming_cancel_step`). The signal's bounds are checked first. Without
    /// a claiming binding bound to the sender and instance, or for another
    /// kind, it is `NotHandled`. A close must match the responder session
    /// when one is registered, with a revision above the remote one; it drops
    /// the binding and that session.
    pub fn handle_claiming_control_signal(
        &mut self,
        kind: RealtimeSignalKind,
        realtime_id: &str,
        peer_id: &str,
        revision: u64,
        shared: &str,
        payload: &[u8],
        decoded: Option<ScreenShareConsent>,
        local_device_id: &str,
        now_ms: u64,
    ) -> (r: Result<ClaimingControl, RealtimeRejection>)
        requires
            old(self).wf(),
        ensures
            final(self).wf(),
            ({
                let pm = old(self).provisional@;
                let sm = old(self).sessions@;
                let check = validate_signal_spec(kind, revision, payload@.len());
                let claiming = claiming_binding(pm, realtime_id@, peer_id@, shared@);
                let exact_session = sm.sessions.contains_key(realtime_id@) && sm.sessions[realtime_id@].peer_id
                    == peer_id@ && sm.sessions[realtime_id@].shared_session_instance_id == shared@ && revision
                    > sm.sessions[realtime_id@].remote_revision;
                &&& check is Err ==> r == Err::<ClaimingControl, RealtimeRejection>(check->Err_0)
                    && final(self).provisional@ == pm && final(self).sessions@ == sm
                &&& check is Ok && (!claiming || !(kind == RealtimeSignalKind::ScreenShareConsent || kind
                    == RealtimeSignalKind::WebRtcClose)) ==> (r matches Ok(ClaimingControl::NotHandled))
                    && final(self).provisional@ == pm && final(self).sessions@ == sm
                &&& check is Ok && claiming && kind == RealtimeSignalKind::ScreenShareConsent ==> ({
                    let (m2, res) = claiming_cancel_step(
                        pm,
                        realtime_id@,
                        peer_id@,
                        shared@,
                        payload@.len(),
                        decoded,
                        local_device_id@,
                        now_ms,
                    );
                    &&& final(self).provisional@ == m2
                    &&& final(self).sessions@ == sm
                    &&& res is Ok ==> (r matches Ok(ClaimingControl::CancelledClaim))
                    &&& res is Err ==> r == Err::<ClaimingControl, RealtimeRejection>(res->Err_0)
                })
                &&& check is Ok && claiming && kind == RealtimeSignalKind::WebRtcClose
                    && sm.sessions.contains_key(realtime_id@) && !exact_session ==> r == Err::<
                    ClaimingControl,
                    RealtimeRejection,
                >(RealtimeRejection::ClaimCloseMismatch) && final(self).provisional@ == pm && final(self).sessions@
                    == sm
                &&& check is Ok && claiming && kind == RealtimeSignalKind::WebRtcClose
                    && !sm.sessions.contains_key(realtime_id@) ==> (r matches Ok(ClaimingControl::ClosedClaim(None)))
                    && final(self).provisional@ == without_binding(pm, realtime_id@) && final(self).sessions@ == sm
                &&& check is Ok && claiming && kind == RealtimeSignalKind::WebRtcClose && exact_session ==> (
                r matches Ok(ClaimingControl::ClosedClaim(Some((s, g)))) && s@ == sm.sessions[realtime_id@] && g
                    == sm.generations[realtime_id@]) && final(self).provisional@ == without_binding(pm, realtime_id@)
                    && final(self).sessions@ == remove_spec(sm, realtime_id@)
            }),
    {
        validate_signal(kind, revision, payload)?;
        let (token, epoch) = match self.provisional.binding(realtime_id) {
            Some(b) => {
                if !str_eq(b.authenticated_peer_id.as_str(), peer_id) || !str_eq(
                    b.shared_session_instance_id.as_str(),
                    shared,
                ) || b.state != ProvisionalBindingState::Claiming {
                    return Ok(ClaimingControl::NotHandled);
                }
                (b.claim_token.clone(), b.provisional_epoch)
            },
            None => return Ok(ClaimingControl::NotHandled),
        };
        if kind == RealtimeSignalKind::ScreenShareConsent {
            let consent = validate_screen_share_consent_at(
                payload.len(),
                decoded,
                realtime_id,
                Some(peer_id),
                Some(shared),
                now_ms,
            )?;
            if ScreenShareConsentDecision::from_wire(consent.decision) != Some(ScreenShareConsentDecision::Cancel) {
                return Err(RealtimeRejection::OnlyCancelWhileClaiming);
            }
            let matches = match self.provisional.binding(realtime_id) {
                Some(b) => match &b.request {
                    Some(q) => str_eq(q.operation_id.as_str(), consent.operation_id.as_str()) && str_eq(
                        q.shared_session_instance_id.as_str(),
                        consent.shared_session_instance_id.as_str(),
                    ),
                    None => false,
                },
                None => false,
            };
            if !matches {
                return Err(RealtimeRejection::CancelDoesNotMatchClaim);
            }
            let latest = match self.provisional.latest_provisional_action_revision(
                peer_id,
                realtime_id,
                consent.operation_id.as_str(),
            ) {
                Some(x) => x,
                None => return Err(RealtimeRejection::CancelLaneMissing),
            };
            let expected = latest.saturating_add(1);
            if consent.action_revision != expected || expected != 2 {
                return Err(RealtimeRejection::CancelRevisionNotContiguous);
            }
            let ghost c = consent;
            let key = ProvisionalReplayKey {
                sender_peer_id: peer_id.to_owned(),
                target_device_id: local_device_id.to_owned(),
                realtime_id: realtime_id.to_owned(),
                operation_id: consent.operation_id.clone(),
                decision: consent.decision,
                action_revision: consent.action_revision,
            };
            proof {
                assert(key@ == action_key(peer_id@, local_device_id@, realtime_id@, c));
            }
            self.provisional.remember_provisional_action(key, now_ms)?;
            self.provisional.take_binding(realtime_id);
            return Ok(ClaimingControl::CancelledClaim);
        }
        if kind != RealtimeSignalKind::WebRtcClose {
            return Ok(ClaimingControl::NotHandled);
        }
        let has_session = self.sessions.contains(realtime_id);
        let exact_session = match self.sessions.binding(realtime_id) {
            Some((p, s)) => str_eq(p.as_str(), peer_id) && str_eq(s.as_str(), shared) && revision
                > self.sessions.remote_revision(realtime_id),
            None => false,
        };
        if has_session && !exact_session {
            return Err(RealtimeRejection::ClaimCloseMismatch);
        }
        self.provisional.take_provisional_claim(realtime_id, token.as_str(), epoch);
        if !exact_session {
            return Ok(ClaimingControl::ClosedClaim(None));
        }
        proof {
            self.sessions.lemma_generations();
        }
        let generation = match self.sessions.session_generation(realtime_id) {
            Some(g) => g,
            None => return Err(RealtimeRejection::ClaimingSessionMissing),
        };
        match self.sessions.remove_session(realtime_id) {
            Some(session) => Ok(ClaimingControl::ClosedClaim(Some((session, generation)))),
            None => Err(RealtimeRejection::ClaimingSessionMissing),
        }
    }

    /// Opens the commit of a claim: the binding must still be the exact
    /// claiming one and the registered responder must still own the session;
    /// hands out the ICE queued meanwhile.
    pub fn claim_commit_begin(
        &mut self,
        realtime_id: &str,
        peer_id: &str,
        shared: &str,
        claim_token: &str,
        provisional_epoch: u64,
        generation: u64,
        driver: u64,
        now_ms: u64,
    ) -> (r: Result<Vec<ProvisionalIceCandidate>, RealtimeRejection>)
        requires
            old(self).wf(),
        ensures
            final(self).wf(),
            final(self).sessions@ == old(self).sessions@,
            ({
                let pm = old(self).provisional@;
                let ok = exact_claiming_spec(pm, realtime_id@, peer_id@, shared@, claim_token@, provisional_epoch, now_ms)
                    && claim_responder_spec(old(self).sessions@, realtime_id@, peer_id@, shared@, generation, driver);
                &&& !ok ==> r == Err::<Vec<ProvisionalIceCandidate>, RealtimeRejection>(
                    RealtimeRejection::ClaimSuperseded,
                ) && final(self).provisional@ == pm
                &&& ok ==> (r matches Ok(q) && ice_view(q@) == pm.bindings[realtime_id@].ice)
                    && final(self).provisional@ == with_binding(pm, realtime_id@, drained(pm.bindings[realtime_id@]))
            }),
    {
        if !self.provisional.exact_claiming_binding(realtime_id, peer_id, shared, claim_token, provisional_epoch, now_ms)
            || !self.sessions.exact_claim_responder(realtime_id, peer_id, shared, generation, driver) {
            return Err(RealtimeRejection::ClaimSuperseded);
        }
        self.provisional.drain_claiming_ice(realtime_id, claim_token, provisional_epoch)
    }

    /// Closes the commit of a claim once the Answer was sent: the same checks
    /// again, then the binding leaves the registry.
    pub fn claim_commit_finish(
        &mut self,
        realtime_id: &str,
        peer_id: &str,
        shared: &str,
        claim_token: &str,
        provisional_epoch: u64,
        generation: u64,
        driver: u64,
        now_ms: u64,
    ) -> (r: Result<(), RealtimeRejection>)
        requires
            old(self).wf(),
        ensures
            final(self).wf(),
            final(self).sessions@ == old(self).sessions@,
            ({
                let pm = old(self).provisional@;
                let ok = exact_claiming_spec(pm, realtime_id@, peer_id@, shared@, claim_token@, provisional_epoch, now_ms)
                    && claim_responder_spec(old(self).sessions@, realtime_id@, peer_id@, shared@, generation, driver);
                &&& !ok ==> r == Err::<(), RealtimeRejection>(RealtimeRejection::ClaimExpiredDuringCommit)
                    && final(self).provisional@ == pm
                &&& ok ==> r is Ok && final(self).provisional@ == without_binding(pm, realtime_id@)
            }),
    {
        if !self.provisional.exact_claiming_binding(realtime_id, peer_id, shared, claim_token, provisional_epoch, now_ms)
            || !self.sessions.exact_claim_responder(realtime_id, peer_id, shared, generation, driver) {
            return Err(RealtimeRejection::ClaimExpiredDuringCommit);
        }
        self.provisional.finish_claim(realtime_id);
        Ok(())
    }

    /// Undoes a failed claim: the binding goes when this claim still holds
    /// it, and the responder session when the responder of `generation`
    /// still owns it (handed back to be closed).
    pub fn rollback_incoming_claim(
        &mut self,
        realtime_id: &str,
        peer_id: &str,
        shared: &str,
        claim_token: &str,
        provisional_epoch: u64,
        responder_generation: Option<u64>,
        driver: u64,
    ) -> (r: Option<RealtimeSession>)
        requires
            old(self).wf(),
        ensures
            final(self).wf(),
            final(self).provisional@ == if claim_held_spec(
                old(self).provisional@,
                realtime_id@,
                claim_token@,
                provisional_epoch,
            ) {
                without_binding(old(self).provisional@, realtime_id@)
            } else {
                old(self).provisional@
            },
            ({
                let sm = old(self).sessions@;
                let take = responder_generation is Some && claim_responder_spec(
                    sm,
                    realtime_id@,
                    peer_id@,
                    shared@,
                    responder_generation->Some_0,
                    driver,
                );
                &&& take ==> (r matches Some(s) && s@ == sm.sessions[realtime_id@]) && final(self).sessions@
                    == remove_spec(sm, realtime_id@)
                &&& !take ==> r is None && final(self).sessions@ == sm
            }),
    {
        self.provisional.take_provisional_claim(realtime_id, claim_token, provisional_epoch);
        let g = match responder_generation {
            Some(g) => g,
            None => return None,
        };
        if !self.sessions.exact_claim_responder(realtime_id, peer_id, shared, g, driver) {
            return None;
        }
        self.sessions.take_session_if_owned(realtime_id, peer_id, driver)
    }

    /// Closes everything before the runtime stops: no binding, pending
    /// request or session is left.
    pub fn close_all(&mut self)
        requires
            old(self).wf(),
        ensures
            final(self).wf(),
            final(self).provisional@ == (ProvisionalModel {
                bindings: Map::empty(),
                requests: Map::empty(),
                ..old(self).provisional@
            }),
            final(self).sessions@ == (SessionsModel {
                sessions: Map::empty(),
                generations: Map::empty(),
                ..old(self).sessions@
            }),
    {
        self.provisional.clear_held();
        self.sessions.clear();
    }

    /// A peer's connection session was destroyed: its provisional entries go,
    /// and so does each realtime session of the peer created over that
    /// connection (reported as `RealtimeSessions::close_for_connection_session`
    /// states).
    pub fn close_for_connection_session(&mut self, peer_id: &str, session_id: u64) -> (r: Vec<ClosedSession>)
        requires
            old(self).wf(),
        ensures
            final(self).wf(),
            final(self).provisional@ == without_peer(old(self).provisional@, peer_id@),
            ({
                let m = old(self).sessions@;
                let ids = r@.map_values(|c: ClosedSession| c.realtime_id@);
                &&& ids.no_duplicates()
                &&& forall|k: Seq<char>| #[trigger]
                    ids.contains(k) <==> (m.sessions.contains_key(k) && closes_with(m.sessions[k], peer_id@, session_id))
                &&& forall|i: int|
                    0 <= i < r@.len() ==> ({
                        let c = #[trigger] r@[i];
                        let s = m.sessions[c.realtime_id@];
                        &&& c.peer_id@ == s.peer_id
                        &&& c.close_revision == sat_inc(s.revision)
                        &&& c.generation == m.generations[c.realtime_id@]
                        &&& c.shared_session_instance_id@ == s.shared_session_instance_id
                    })
                &&& final(self).sessions@.next_generation == m.next_generation
                &&& forall|k: Seq<char>| #[trigger]
                    final(self).sessions@.sessions.contains_key(k) <==> (m.sessions.contains_key(k) && !closes_with(
                        m.sessions[k],
                        peer_id@,
                        session_id,
                    ))
                &&& forall|k: Seq<char>| #[trigger]
                    final(self).sessions@.sessions.contains_key(k) ==> final(self).sessions@.sessions[k]
                        == m.sessions[k] && final(self).sessions@.generations[k] == m.generations[k]
            }),
    {
        self.provisional.drop_peer(peer_id);
        self.sessions.close_for_connection_session(peer_id, session_id)
    }

    /// Routes a Relay V2 realtime signal (see `v2_route_spec`): it must be
    /// addressed to the local identity; its peer is the session's binding
    /// when one exists, else the authenticated source (`source_peer_id`, as
    /// `v2_source_peer` gives it; `source_registered` whether the runtime
    /// knows it); its envelope (`envelope_len` bytes, `decoded` its parts)
    /// and kind are checked.
    pub fn route_v2_realtime_signal(
        &self,
        realtime_id: &str,
        target_device_id: &str,
        local_device_id: Option<&str>,
        source_peer_id: &str,
        source_registered: bool,
        envelope_len: usize,
        decoded: Option<(String, Vec<u8>)>,
        kind_number: i32,
    ) -> (r: Result<V2Ingress, RealtimeRejection>)
        requires
            self.wf(),
        ensures
            ({
                let sm = self.sessions@;
                let res = v2_route_spec(
                    sm,
                    realtime_id@,
                    target_device_id@,
                    match local_device_id {
                        Some(d) => Some(d@),
                        None => None,
                    },
                    source_peer_id@,
                    source_peer_id.spec_bytes(),
                    source_registered,
                    envelope_len as nat,
                    match decoded {
                        Some(d) => Some((text_bytes(d.0@), d.1@.len())),
                        None => None,
                    },
                    kind_number,
                );
                let bound = sm.sessions.contains_key(realtime_id@);
                &&& r is Ok <==> res is Ok
                &&& r matches Err(e) ==> res == Err::<(), RealtimeRejection>(e)
                &&& r matches Ok(v) ==> ({
                    &&& v.bound == bound
                    &&& v.peer_id@ == if bound {
                        sm.sessions[realtime_id@].peer_id
                    } else {
                        source_peer_id@
                    }
                    &&& Some(v.kind) == signal_kind_of(kind_number)
                    &&& v.claiming_first == (v.kind == RealtimeSignalKind::ScreenShareConsent || v.kind
                        == RealtimeSignalKind::WebRtcClose)
                    &&& decoded matches Some(d) && v.shared_session_instance_id@ == d.0@ && v.payload@ == d.1@
                })
            }),
    {
        let local = match local_device_id {
            Some(d) => d,
            None => return Err(RealtimeRejection::LocalIdentityUnavailable),
        };
        if !str_eq(target_device_id, local) {
            return Err(RealtimeRejection::TargetMismatch);
        }
        let bound_peer = match self.sessions.binding(realtime_id) {
            Some((p, _)) => Some(p),
            None => None,
        };
        let has_source = source_peer_id.as_bytes().len() > 0;
        proof {
            lemma_empty_text(source_peer_id@);
        }
        if has_source {
            validate_peer(source_peer_id, source_registered)?;
            match &bound_peer {
                Some(b) => {
                    if !str_eq(b.as_str(), source_peer_id) {
                        return Err(RealtimeRejection::SourceMismatch);
                    }
                },
                None => {},
            }
        }
        let bound = bound_peer.is_some();
        let peer_id = match bound_peer {
            Some(b) => b,
            None => {
                if !has_source {
                    return Err(RealtimeRejection::NoAuthenticatedSource);
                }
                source_peer_id.to_owned()
            },
        };
        proof {
            lemma_empty_text(peer_id@);
        }
        if peer_id.as_str().as_bytes().len() == 0 {
            return Err(RealtimeRejection::EmptyPeerBinding);
        }
        let (shared, payload) = check_signal_envelope(envelope_len, decoded)?;
        let kind = match RealtimeSignalKind::from_wire(kind_number) {
            Some(k) => k,
            None => return Err(RealtimeRejection::InvalidSignalKind),
        };
        let claiming_first = kind == RealtimeSignalKind::ScreenShareConsent || kind == RealtimeSignalKind::WebRtcClose;
        Ok(V2Ingress { peer_id, bound, kind, shared_session_instance_id: shared, payload, claiming_first })
    }
}

proof fn lemma_empty_text(s: Seq<char>)
    ensures
        vstd::utf8::encode_utf8(s).len() == 0 <==> s.len() == 0,
{
    vstd::utf8::encode_utf8_decode_utf8(s);
    if vstd::utf8::encode_utf8(s).len() == 0 {
        assert(vstd::utf8::encode_utf8(s) =~= Seq::<u8>::empty());
        assert(vstd::utf8::decode_utf8(Seq::<u8>::empty()) =~= Seq::<char>::empty());
    }
}

/// The authenticated source of a Relay V2 signal: the source device ID
/// without surrounding whitespace.
pub fn v2_source_peer(source_device_id: &str) -> (r: String)
    ensures
        r@ == trimmed(source_device_id@),
{
    str_trim(source_device_id).to_owned()
}

/// A routed Relay V2 signal. When `claiming_first` holds, a claim in progress
/// may take it (`handle_claiming_control_signal`); otherwise, or when none
/// did, it goes to the provisional path when the realtime ID is not `bound`
/// to a session, else to the session's signaling.
pub struct V2Ingress {
    pub peer_id: String,
    pub bound: bool,
    pub kind: RealtimeSignalKind,
    pub shared_session_instance_id: String,
    pub payload: Vec<u8>,
    pub claiming_first: bool,
}

/// The checks of a Relay V2 realtime signal, in order.
pub open spec fn v2_route_spec(
    sm: SessionsModel,
    realtime_id: Seq<char>,
    target_device_id: Seq<char>,
    local_device_id: Option<Seq<char>>,
    source_peer_id: Seq<char>,
    source_bytes: Seq<u8>,
    source_registered: bool,
    envelope_len: nat,
    decoded: Option<(Seq<u8>, nat)>,
    kind_number: i32,
) -> Result<(), RealtimeRejection> {
    let bound = sm.sessions.contains_key(realtime_id);
    let peer = if bound {
        sm.sessions[realtime_id].peer_id
    } else {
        source_peer_id
    };
    if local_device_id is None {
        Err(RealtimeRejection::LocalIdentityUnavailable)
    } else if target_device_id != local_device_id->Some_0 {
        Err(RealtimeRejection::TargetMismatch)
    } else if source_peer_id.len() > 0 && !valid_peer_binding(source_bytes, source_registered) {
        Err(RealtimeRejection::PeerNotRegistered)
    } else if source_peer_id.len() > 0 && bound && sm.sessions[realtime_id].peer_id != source_peer_id {
        Err(RealtimeRejection::SourceMismatch)
    } else if !bound && source_peer_id.len() == 0 {
        Err(RealtimeRejection::NoAuthenticatedSource)
    } else if peer.len() == 0 {
        Err(RealtimeRejection::EmptyPeerBinding)
    } else if check_signal_envelope_spec(envelope_len, decoded) is Err {
        check_signal_envelope_spec(envelope_len, decoded)
    } else if signal_kind_of(kind_number) is None {
        Err(RealtimeRejection::InvalidSignalKind)
    } else {
        Ok(())
    }
}

} // verus!
