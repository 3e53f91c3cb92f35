//! Provisional screen-share bindings.
//!
//! Before a responder accepts an incoming screen share, the authenticated
//! Offer and its trickled ICE are held in a bounded binding, and the typed
//! REQUEST is held separately until both halves pair. No peer connection is
//! created here. Deadlines are wall-clock milliseconds.

use crate::realtime::session::bytes_eq;
use crate::realtime::wire::{
    valid_peer_binding, valid_realtime_id, validate_peer, validate_realtime_id, RealtimeRejection,
    ScreenShareConsent, ScreenShareConsentDecision, MAX_ICE_CANDIDATE_BYTES,
    SCREEN_SHARE_CONSENT_MAX_LIFETIME_MS,
};
use crate::strmap::{key_views, str_eq, StrMap};
use std::collections::VecDeque;
use vstd::prelude::*;
use vstd::string::StringSliceAdditionalSpecFns;

verus! {

/// At most this many ICE candidates wait in one binding.
pub const MAX_PROVISIONAL_ICE_CANDIDATES: usize = 128;

/// At most this many bytes of one ICE candidate.
pub const MAX_PROVISIONAL_ICE_CANDIDATE_BYTES: usize = MAX_ICE_CANDIDATE_BYTES;

/// At most this many bytes of ICE wait in one binding.
pub const MAX_PROVISIONAL_ICE_TOTAL_BYTES: usize = 262144;

/// A binding lives at most this long after its Offer arrived.
pub const MAX_PROVISIONAL_BINDING_LIFETIME_MS: u64 = 120000;

/// At most this many realtime IDs hold a binding or a pending request.
pub const MAX_PROVISIONAL_OPERATIONS: usize = 32;

/// At most this many remembered consent actions per sending peer.
pub const MAX_PROVISIONAL_REPLAY_KEYS_PER_PEER: usize = 256;

/// A remembered consent action is forgotten after this long.
pub const PROVISIONAL_REPLAY_TTL_MS: u64 = 300000;

#[derive(Debug, Clone, Copy, PartialEq, Eq, Structural)]
pub enum ProvisionalBindingState {
    Pending,
    Claiming,
    Claimed,
    Terminal,
}

pub struct ProvisionalIceCandidate {
    pub revision: u64,
    pub payload: Vec<u8>,
}

/// Responder state held natively until a user-facing REQUEST has paired with
/// the authenticated Offer.
pub struct ProvisionalScreenShareBinding {
    pub provisional_epoch: u64,
    pub offer_id: String,
    pub claim_token: String,
    pub authenticated_peer_id: String,
    pub realtime_id: String,
    pub shared_session_instance_id: String,
    pub offer_revision: u64,
    pub offer_payload: Vec<u8>,
    pub ice_candidates: VecDeque<ProvisionalIceCandidate>,
    pub ice_total_bytes: usize,
    pub request: Option<ScreenShareConsent>,
    pub binding_expires_at_ms: u64,
    pub effective_expires_at_ms: u64,
    pub published_to_app: bool,
    pub state: ProvisionalBindingState,
}

pub struct ProvisionalBindingModel {
    pub provisional_epoch: u64,
    pub offer_id: Seq<char>,
    pub claim_token: Seq<char>,
    pub authenticated_peer_id: Seq<char>,
    pub realtime_id: Seq<char>,
    pub shared_session_instance_id: Seq<char>,
    pub offer_revision: u64,
    pub offer_payload: Seq<u8>,
    pub ice: Seq<(u64, Seq<u8>)>,
    pub ice_total_bytes: nat,
    pub request: Option<ScreenShareConsent>,
    pub binding_expires_at_ms: u64,
    pub effective_expires_at_ms: u64,
    pub published_to_app: bool,
    pub state: ProvisionalBindingState,
}

pub open spec fn ice_view(v: Seq<ProvisionalIceCandidate>) -> Seq<(u64, Seq<u8>)> {
    v.map_values(|c: ProvisionalIceCandidate| (c.revision, c.payload@))
}

impl View for ProvisionalScreenShareBinding {
    type V = ProvisionalBindingModel;

    open spec fn view(&self) -> ProvisionalBindingModel {
        ProvisionalBindingModel {
            provisional_epoch: self.provisional_epoch,
            offer_id: self.offer_id@,
            claim_token: self.claim_token@,
            authenticated_peer_id: self.authenticated_peer_id@,
            realtime_id: self.realtime_id@,
            shared_session_instance_id: self.shared_session_instance_id@,
            offer_revision: self.offer_revision,
            offer_payload: self.offer_payload@,
            ice: ice_view(self.ice_candidates@),
            ice_total_bytes: self.ice_total_bytes as nat,
            request: self.request,
            binding_expires_at_ms: self.binding_expires_at_ms,
            effective_expires_at_ms: self.effective_expires_at_ms,
            published_to_app: self.published_to_app,
            state: self.state,
        }
    }
}

/// The total payload bytes of queued candidates.
pub open spec fn ice_bytes(s: Seq<(u64, Seq<u8>)>) -> nat
    decreases s.len(),
{
    if s.len() == 0 {
        0
    } else {
        ice_bytes(s.drop_last()) + s.last().1.len()
    }
}

/// The queue bounds every binding keeps.
pub open spec fn binding_wf(b: ProvisionalBindingModel) -> bool {
    &&& b.ice.len() <= MAX_PROVISIONAL_ICE_CANDIDATES
    &&& b.ice_total_bytes == ice_bytes(b.ice)
    &&& b.ice_total_bytes <= MAX_PROVISIONAL_ICE_TOTAL_BYTES
}

/// A binding is expired once either of its deadlines has passed.
pub open spec fn binding_expired(b: ProvisionalBindingModel, now_ms: u64) -> bool {
    now_ms >= b.binding_expires_at_ms || now_ms >= b.effective_expires_at_ms
}

/// The outcome of queueing one ICE candidate on a binding.
pub open spec fn push_ice_spec(b: ProvisionalBindingModel, revision: u64, payload: Seq<u8>) -> Result<
    ProvisionalBindingModel,
    RealtimeRejection,
> {
    if revision != b.offer_revision {
        Err(RealtimeRejection::StaleProvisionalIce)
    } else if payload.len() > MAX_PROVISIONAL_ICE_CANDIDATE_BYTES {
        Err(RealtimeRejection::ProvisionalIceOutOfBounds)
    } else if b.ice.len() >= MAX_PROVISIONAL_ICE_CANDIDATES || b.ice_total_bytes + payload.len()
        > MAX_PROVISIONAL_ICE_TOTAL_BYTES {
        Err(RealtimeRejection::ProvisionalIceQueueFull)
    } else if b.ice.contains((revision, payload)) {
        Err(RealtimeRejection::ReplayedProvisionalIce)
    } else {
        Ok(
            ProvisionalBindingModel {
                ice: b.ice.push((revision, payload)),
                ice_total_bytes: b.ice_total_bytes + payload.len(),
                ..b
            },
        )
    }
}

proof fn lemma_ice_bytes_push(s: Seq<(u64, Seq<u8>)>, x: (u64, Seq<u8>))
    ensures
        ice_bytes(s.push(x)) == ice_bytes(s) + x.1.len(),
{
    assert(s.push(x).drop_last() =~= s);
}

impl ProvisionalScreenShareBinding {
    pub fn is_expired(&self, now_ms: u64) -> (b: bool)
        ensures
            b == binding_expired(self@, now_ms),
    {
        now_ms >= self.binding_expires_at_ms || now_ms >= self.effective_expires_at_ms
    }

    /// Whether a candidate with this revision and payload is already queued.
    fn has_candidate(&self, revision: u64, payload: &[u8]) -> (r: bool)
        ensures
            r == self@.ice.contains((revision, payload@)),
    {
        let ghost s = self@.ice;
        let mut i: usize = 0;
        while i < self.ice_candidates.len()
            invariant
                s == ice_view(self.ice_candidates@),
                i <= self.ice_candidates@.len(),
                forall|j: int| 0 <= j < i ==> s[j] != (revision, payload@),
            decreases self.ice_candidates@.len() - i,
        {
            let c = &self.ice_candidates[i];
            if c.revision == revision && bytes_eq(c.payload.as_slice(), payload) {
                assert(s[i as int] == (revision, payload@));
                return true;
            }
            i += 1;
        }
        false
    }

    /// Queues one trickled ICE candidate of the held Offer, within the
    /// queue's bounds and refusing a replay.
    pub fn push_ice(&mut self, revision: u64, payload: Vec<u8>) -> (r: Result<(), RealtimeRejection>)
        requires
            binding_wf(old(self)@),
        ensures
            binding_wf(final(self)@),
            match push_ice_spec(old(self)@, revision, payload@) {
                Ok(b) => r is Ok && final(self)@ == b,
                Err(e) => r == Err::<(), RealtimeRejection>(e) && final(self)@ == old(self)@,
            },
    {
        if revision != self.offer_revision {
            return Err(RealtimeRejection::StaleProvisionalIce);
        }
        if payload.len() > MAX_PROVISIONAL_ICE_CANDIDATE_BYTES {
            return Err(RealtimeRejection::ProvisionalIceOutOfBounds);
        }
        if self.ice_candidates.len() >= MAX_PROVISIONAL_ICE_CANDIDATES || payload.len()
            > MAX_PROVISIONAL_ICE_TOTAL_BYTES - self.ice_total_bytes {
            return Err(RealtimeRejection::ProvisionalIceQueueFull);
        }
        if self.has_candidate(revision, payload.as_slice()) {
            return Err(RealtimeRejection::ReplayedProvisionalIce);
        }
        let ghost old_ice = self@.ice;
        let ghost p = payload@;
        self.ice_total_bytes = self.ice_total_bytes + payload.len();
        self.ice_candidates.push_back(ProvisionalIceCandidate { revision, payload });
        proof {
            lemma_ice_bytes_push(old_ice, (revision, p));
            assert(self@.ice =~= old_ice.push((revision, p)));
        }
        Ok(())
    }

    /// Takes every queued candidate out, leaving the queue empty.
    pub fn drain_ice(&mut self) -> (r: Vec<ProvisionalIceCandidate>)
        ensures
            ice_view(r@) == old(self)@.ice,
            final(self)@ == (ProvisionalBindingModel { ice: Seq::empty(), ice_total_bytes: 0, ..old(self)@ }),
            binding_wf(final(self)@),
    {
        let mut queue: VecDeque<ProvisionalIceCandidate> = VecDeque::new();
        std::mem::swap(&mut queue, &mut self.ice_candidates);
        let ghost queued = queue@;
        let mut out: Vec<ProvisionalIceCandidate> = Vec::new();
        while queue.len() > 0
            invariant
                out@ + queue@ == queued,
            decreases queue@.len(),
        {
            match queue.pop_front() {
                Some(c) => {
                    out.push(c);
                    proof {
                        assert(out@ + queue@ =~= queued);
                    }
                },
                None => {},
            }
        }
        self.ice_total_bytes = 0;
        proof {
            assert(out@ =~= queued);
            assert(self@.ice =~= Seq::<(u64, Seq<u8>)>::empty());
        }
        out
    }
}


/// A typed REQUEST that arrived before its Offer.
pub struct ProvisionalPendingRequest {
    pub provisional_epoch: u64,
    pub authenticated_peer_id: String,
    pub shared_session_instance_id: String,
    pub request: ScreenShareConsent,
    pub expires_at_ms: u64,
}

pub struct PendingRequestModel {
    pub provisional_epoch: u64,
    pub authenticated_peer_id: Seq<char>,
    pub shared_session_instance_id: Seq<char>,
    pub request: ScreenShareConsent,
    pub expires_at_ms: u64,
}

impl View for ProvisionalPendingRequest {
    type V = PendingRequestModel;

    open spec fn view(&self) -> PendingRequestModel {
        PendingRequestModel {
            provisional_epoch: self.provisional_epoch,
            authenticated_peer_id: self.authenticated_peer_id@,
            shared_session_instance_id: self.shared_session_instance_id@,
            request: self.request,
            expires_at_ms: self.expires_at_ms,
        }
    }
}

/// The identity of one consent action, remembered to refuse its replay.
pub struct ProvisionalReplayKey {
    pub sender_peer_id: String,
    pub target_device_id: String,
    pub realtime_id: String,
    pub operation_id: String,
    pub decision: i32,
    pub action_revision: u64,
}

pub struct ReplayKeyModel {
    pub sender_peer_id: Seq<char>,
    pub target_device_id: Seq<char>,
    pub realtime_id: Seq<char>,
    pub operation_id: Seq<char>,
    pub decision: i32,
    pub action_revision: u64,
}

impl View for ProvisionalReplayKey {
    type V = ReplayKeyModel;

    open spec fn view(&self) -> ReplayKeyModel {
        ReplayKeyModel {
            sender_peer_id: self.sender_peer_id@,
            target_device_id: self.target_device_id@,
            realtime_id: self.realtime_id@,
            operation_id: self.operation_id@,
            decision: self.decision,
            action_revision: self.action_revision,
        }
    }
}

impl ProvisionalReplayKey {
    fn same_key(&self, other: &ProvisionalReplayKey) -> (r: bool)
        ensures
            r == (self@ == other@),
    {
        str_eq(self.sender_peer_id.as_str(), other.sender_peer_id.as_str()) && str_eq(
            self.target_device_id.as_str(),
            other.target_device_id.as_str(),
        ) && str_eq(self.realtime_id.as_str(), other.realtime_id.as_str()) && str_eq(
            self.operation_id.as_str(),
            other.operation_id.as_str(),
        ) && self.decision == other.decision && self.action_revision == other.action_revision
    }
}

pub struct ProvisionalReplayEntry {
    pub key: ProvisionalReplayKey,
    pub expires_at_ms: u64,
}

pub struct ReplayEntryModel {
    pub key: ReplayKeyModel,
    pub expires_at_ms: u64,
}

pub open spec fn entries_view(v: Seq<ProvisionalReplayEntry>) -> Seq<ReplayEntryModel> {
    v.map_values(|e: ProvisionalReplayEntry| ReplayEntryModel { key: e.key@, expires_at_ms: e.expires_at_ms })
}

/// The provisional registry: bindings and pending requests by realtime ID,
/// remembered consent actions by sending peer, and the last epoch handed out.
pub struct ProvisionalModel {
    pub bindings: Map<Seq<char>, ProvisionalBindingModel>,
    pub requests: Map<Seq<char>, PendingRequestModel>,
    pub replay: Map<Seq<char>, Seq<ReplayEntryModel>>,
    pub next_epoch: u64,
}

/// What every state of the registry keeps: a realtime ID holds a binding or
/// a pending request, never both; each binding is stored under its own
/// realtime ID within its queue bounds; each peer's remembered actions stay
/// within their bound; at most `MAX_PROVISIONAL_OPERATIONS` realtime IDs are
/// held at once.
pub open spec fn model_wf(m: ProvisionalModel) -> bool {
    &&& m.bindings.dom().finite()
    &&& m.requests.dom().finite()
    &&& m.bindings.dom().len() + m.requests.dom().len() <= MAX_PROVISIONAL_OPERATIONS
    &&& forall|k: Seq<char>| #[trigger] m.bindings.dom().contains(k) ==> !m.requests.dom().contains(k)
    &&& forall|k: Seq<char>| #[trigger] m.bindings.dom().contains(k) ==> binding_wf(m.bindings[k])
        && m.bindings[k].realtime_id == k
    &&& forall|k: Seq<char>| #[trigger] m.replay.dom().contains(k) ==> m.replay[k].len()
        <= MAX_PROVISIONAL_REPLAY_KEYS_PER_PEER
}

/// With the invariant, the slot count is the number of bindings plus the
/// number of pending requests.
pub proof fn lemma_slot_count(m: ProvisionalModel)
    requires
        model_wf(m),
    ensures
        slot_count_spec(m) == m.bindings.dom().len() + m.requests.dom().len(),
{
    let b = m.bindings.dom();
    let q = m.requests.dom();
    assert(b.disjoint(q));
    vstd::set_lib::lemma_set_disjoint_lens(b, q);
    assert(b + q == b.union(q));
}

/// The epoch after `e`: it wraps around and skips zero.
pub open spec fn next_epoch_after(e: u64) -> u64 {
    if e == u64::MAX {
        1
    } else {
        (e + 1) as u64
    }
}

/// The realtime IDs that hold a binding or a pending request.
pub open spec fn slot_count_spec(m: ProvisionalModel) -> nat {
    m.bindings.dom().union(m.requests.dom()).len()
}

/// The epoch of the binding or pending request of a realtime ID.
pub open spec fn current_epoch_spec(m: ProvisionalModel, realtime_id: Seq<char>) -> Option<u64> {
    if m.bindings.dom().contains(realtime_id) {
        Some(m.bindings[realtime_id].provisional_epoch)
    } else if m.requests.dom().contains(realtime_id) {
        Some(m.requests[realtime_id].provisional_epoch)
    } else {
        None
    }
}

pub open spec fn live_bindings(b: Map<Seq<char>, ProvisionalBindingModel>, now_ms: u64) -> Map<
    Seq<char>,
    ProvisionalBindingModel,
> {
    Map::new(|k: Seq<char>| b.dom().contains(k) && !binding_expired(b[k], now_ms), |k: Seq<char>| b[k])
}

pub open spec fn live_requests(r: Map<Seq<char>, PendingRequestModel>, now_ms: u64) -> Map<
    Seq<char>,
    PendingRequestModel,
> {
    Map::new(|k: Seq<char>| r.dom().contains(k) && r[k].expires_at_ms > now_ms, |k: Seq<char>| r[k])
}

/// The registry without its expired bindings and requests.
pub open spec fn prune_spec(m: ProvisionalModel, now_ms: u64) -> ProvisionalModel {
    ProvisionalModel {
        bindings: live_bindings(m.bindings, now_ms),
        requests: live_requests(m.requests, now_ms),
        ..m
    }
}

/// Pruning twice prunes no more than pruning once.
pub proof fn lemma_prune_idempotent(m: ProvisionalModel, now_ms: u64)
    ensures
        prune_spec(prune_spec(m, now_ms), now_ms) == prune_spec(m, now_ms),
{
    assert(live_bindings(live_bindings(m.bindings, now_ms), now_ms) =~= live_bindings(m.bindings, now_ms));
    assert(live_requests(live_requests(m.requests, now_ms), now_ms) =~= live_requests(m.requests, now_ms));
}

/// The remembered actions that have not yet expired, in order.
pub open spec fn live_entries(s: Seq<ReplayEntryModel>, now_ms: u64) -> Seq<ReplayEntryModel>
    decreases s.len(),
{
    if s.len() == 0 {
        s
    } else {
        let rest = live_entries(s.drop_last(), now_ms);
        if s.last().expires_at_ms > now_ms {
            rest.push(s.last())
        } else {
            rest
        }
    }
}

/// The replay cache without expired actions and without peers left empty.
pub open spec fn live_replay(r: Map<Seq<char>, Seq<ReplayEntryModel>>, now_ms: u64) -> Map<
    Seq<char>,
    Seq<ReplayEntryModel>,
> {
    Map::new(
        |k: Seq<char>| r.dom().contains(k) && live_entries(r[k], now_ms).len() > 0,
        |k: Seq<char>| live_entries(r[k], now_ms),
    )
}

proof fn lemma_live_entries_len(s: Seq<ReplayEntryModel>, now_ms: u64)
    ensures
        live_entries(s, now_ms).len() <= s.len(),
    decreases s.len(),
{
    if s.len() > 0 {
        lemma_live_entries_len(s.drop_last(), now_ms);
    }
}

pub open spec fn remembers(entries: Seq<ReplayEntryModel>, key: ReplayKeyModel) -> bool {
    exists|i: int| 0 <= i < entries.len() && #[trigger] entries[i].key == key
}

pub open spec fn peer_entries(r: Map<Seq<char>, Seq<ReplayEntryModel>>, peer: Seq<char>) -> Seq<
    ReplayEntryModel,
> {
    if r.dom().contains(peer) {
        r[peer]
    } else {
        Seq::empty()
    }
}

/// Remembering an action: expired actions are forgotten first; the action is
/// refused when it is already remembered or its sender's lane is full, and
/// otherwise kept for the replay lifetime.
pub open spec fn remember_spec(r: Map<Seq<char>, Seq<ReplayEntryModel>>, key: ReplayKeyModel, now_ms: u64) -> (
    Map<Seq<char>, Seq<ReplayEntryModel>>,
    Result<(), RealtimeRejection>,
) {
    let live = live_replay(r, now_ms);
    let entries = peer_entries(live, key.sender_peer_id);
    if remembers(entries, key) {
        (live, Err(RealtimeRejection::ReplayedAction))
    } else if entries.len() >= MAX_PROVISIONAL_REPLAY_KEYS_PER_PEER {
        (live, Err(RealtimeRejection::ReplayCacheFull))
    } else {
        let expires = if now_ms + PROVISIONAL_REPLAY_TTL_MS > u64::MAX {
            u64::MAX
        } else {
            (now_ms + PROVISIONAL_REPLAY_TTL_MS) as u64
        };
        (
            live.insert(key.sender_peer_id, entries.push(ReplayEntryModel { key, expires_at_ms: expires })),
            Ok(()),
        )
    }
}

/// The highest action revision remembered for one realtime ID and operation.
pub open spec fn latest_in(s: Seq<ReplayEntryModel>, realtime_id: Seq<char>, operation_id: Seq<char>) -> Option<
    u64,
>
    decreases s.len(),
{
    if s.len() == 0 {
        None
    } else {
        let rest = latest_in(s.drop_last(), realtime_id, operation_id);
        let e = s.last();
        if e.key.realtime_id == realtime_id && e.key.operation_id == operation_id {
            match rest {
                Some(x) => if e.key.action_revision > x {
                    Some(e.key.action_revision)
                } else {
                    Some(x)
                },
                None => Some(e.key.action_revision),
            }
        } else {
            rest
        }
    }
}

pub struct ProvisionalRegistry {
    bindings: StrMap<ProvisionalScreenShareBinding>,
    requests: StrMap<ProvisionalPendingRequest>,
    replay: StrMap<Vec<ProvisionalReplayEntry>>,
    next_epoch: u64,
}

impl ProvisionalRegistry {
    pub closed spec fn model(&self) -> ProvisionalModel {
        ProvisionalModel {
            bindings: self.bindings@.map_values(|b: ProvisionalScreenShareBinding| b@),
            requests: self.requests@.map_values(|r: ProvisionalPendingRequest| r@),
            replay: self.replay@.map_values(|v: Vec<ProvisionalReplayEntry>| entries_view(v@)),
            next_epoch: self.next_epoch,
        }
    }

    pub closed spec fn wf(&self) -> bool {
        &&& self.bindings.wf()
        &&& self.requests.wf()
        &&& self.replay.wf()
        &&& model_wf(self.model())
    }

    /// An empty registry.
    pub fn new() -> (r: Self)
        ensures
            r.wf(),
            r@.bindings == Map::<Seq<char>, ProvisionalBindingModel>::empty(),
            r@.requests == Map::<Seq<char>, PendingRequestModel>::empty(),
            r@.replay == Map::<Seq<char>, Seq<ReplayEntryModel>>::empty(),
            r@.next_epoch == 0,
    {
        let r = ProvisionalRegistry {
            bindings: StrMap::new(),
            requests: StrMap::new(),
            replay: StrMap::new(),
            next_epoch: 0,
        };
        assert(r@.bindings =~= Map::<Seq<char>, ProvisionalBindingModel>::empty());
        assert(r@.requests =~= Map::<Seq<char>, PendingRequestModel>::empty());
        assert(r@.replay =~= Map::<Seq<char>, Seq<ReplayEntryModel>>::empty());
        assert(r@.bindings.dom() =~= Set::<Seq<char>>::empty());
        assert(r@.requests.dom() =~= Set::<Seq<char>>::empty());
        r
    }

    /// Hands out the next provisional epoch (never zero).
    pub fn next_provisional_epoch(&mut self) -> (e: u64)
        requires
            old(self).wf(),
        ensures
            final(self).wf(),
            e == next_epoch_after(old(self)@.next_epoch),
            e != 0,
            final(self)@ == (ProvisionalModel { next_epoch: e, ..old(self)@ }),
    {
        self.next_epoch = if self.next_epoch == u64::MAX {
            1
        } else {
            self.next_epoch + 1
        };
        self.next_epoch
    }

    /// How many realtime IDs hold a binding or a pending request.
    pub fn provisional_slot_count(&self) -> (n: usize)
        requires
            self.wf(),
        ensures
            n == slot_count_spec(self@),
    {
        proof {
            self.bindings.lemma_len();
            self.requests.lemma_len();
            assert(self@.bindings.dom() =~= self.bindings@.dom());
            assert(self@.requests.dom() =~= self.requests@.dom());
            let b = self@.bindings.dom();
            let q = self@.requests.dom();
            assert(b =~= self.bindings@.dom());
            assert(q =~= self.requests@.dom());
            assert(b.disjoint(q));
            vstd::set_lib::lemma_set_disjoint_lens(b, q);
            assert(b + q == b.union(q));
        }
        self.bindings.len() + self.requests.len()
    }

    /// A well-formed registry keeps the invariant of its model.
    pub proof fn lemma_model_wf(&self)
        requires
            self.wf(),
        ensures
            model_wf(self@),
    {
    }

    /// The binding of a realtime ID.
    pub fn binding(&self, realtime_id: &str) -> (r: Option<&ProvisionalScreenShareBinding>)
        requires
            self.wf(),
        ensures
            r.is_some() == self@.bindings.dom().contains(realtime_id@),
            r matches Some(b) ==> b@ == self@.bindings[realtime_id@],
    {
        self.bindings.get(realtime_id)
    }

    /// The pending request of a realtime ID.
    pub fn pending_request(&self, realtime_id: &str) -> (r: Option<&ProvisionalPendingRequest>)
        requires
            self.wf(),
        ensures
            r.is_some() == self@.requests.dom().contains(realtime_id@),
            r matches Some(q) ==> q@ == self@.requests[realtime_id@],
    {
        self.requests.get(realtime_id)
    }

    /// The epoch of the binding or pending request of a realtime ID.
    pub fn current_provisional_epoch(&self, realtime_id: &str) -> (r: Option<u64>)
        requires
            self.wf(),
        ensures
            r == current_epoch_spec(self@, realtime_id@),
    {
        match self.bindings.get(realtime_id) {
            Some(b) => Some(b.provisional_epoch),
            None => match self.requests.get(realtime_id) {
                Some(q) => Some(q.provisional_epoch),
                None => None,
            },
        }
    }
}

/// The deadline at which the binding or pending request of a realtime ID
/// expires.
pub open spec fn deadline_of(m: ProvisionalModel, realtime_id: Seq<char>) -> Option<u64> {
    if m.bindings.dom().contains(realtime_id) {
        Some(m.bindings[realtime_id].effective_expires_at_ms)
    } else if m.requests.dom().contains(realtime_id) {
        Some(m.requests[realtime_id].expires_at_ms)
    } else {
        None
    }
}

/// Whether the entry the worker slept on is still the same epoch and past
/// its deadline.
pub open spec fn expiry_due_spec(m: ProvisionalModel, realtime_id: Seq<char>, epoch: u64, now_ms: u64) -> bool {
    current_epoch_spec(m, realtime_id) == Some(epoch) && match deadline_of(m, realtime_id) {
        Some(d) => d <= now_ms,
        None => false,
    }
}

/// One wake-up of the expiry worker for the entry it slept on: the entry is
/// dropped when it is still the same epoch and its deadline has passed, and
/// expired replay keys are forgotten either way.
pub open spec fn expire_spec(m: ProvisionalModel, realtime_id: Seq<char>, epoch: u64, now_ms: u64) -> ProvisionalModel {
    let m1 = if expiry_due_spec(m, realtime_id, epoch, now_ms) {
        ProvisionalModel {
            bindings: m.bindings.remove(realtime_id),
            requests: m.requests.remove(realtime_id),
            ..m
        }
    } else {
        m
    };
    ProvisionalModel { replay: live_replay(m1.replay, now_ms), ..m1 }
}

impl ProvisionalReplayKey {
    pub fn duplicate(&self) -> (r: Self)
        ensures
            r@ == self@,
    {
        ProvisionalReplayKey {
            sender_peer_id: self.sender_peer_id.clone(),
            target_device_id: self.target_device_id.clone(),
            realtime_id: self.realtime_id.clone(),
            operation_id: self.operation_id.clone(),
            decision: self.decision,
            action_revision: self.action_revision,
        }
    }
}

proof fn lemma_take_push<A>(s: Seq<A>, t: int)
    requires
        0 <= t < s.len(),
    ensures
        s.take(t + 1) == s.take(t).push(s[t]),
        forall|x: A| #[trigger] s.take(t + 1).contains(x) <==> (s.take(t).contains(x) || x == s[t]),
{
    assert(s.take(t + 1) =~= s.take(t).push(s[t]));
    assert forall|x: A| #[trigger] s.take(t + 1).contains(x) <==> (s.take(t).contains(x) || x == s[t]) by {
        if s.take(t + 1).contains(x) {
            let j = choose|j: int| 0 <= j < t + 1 && #[trigger] s.take(t + 1)[j] == x;
            if j < t {
                assert(s.take(t)[j] == x);
            }
        }
        if s.take(t).contains(x) {
            let j = choose|j: int| 0 <= j < t && #[trigger] s.take(t)[j] == x;
            assert(s.take(t + 1)[j] == x);
        }
        if x == s[t] {
            assert(s.take(t + 1)[t] == x);
        }
    }
}

/// Keeps the entries of `v` that have not expired, in order.
fn live_entries_of(v: &Vec<ProvisionalReplayEntry>, now_ms: u64) -> (r: Vec<ProvisionalReplayEntry>)
    ensures
        entries_view(r@) == live_entries(entries_view(v@), now_ms),
{
    let ghost s = entries_view(v@);
    let mut out: Vec<ProvisionalReplayEntry> = Vec::new();
    let mut i: usize = 0;
    while i < v.len()
        invariant
            s == entries_view(v@),
            i <= v@.len(),
            entries_view(out@) == live_entries(s.take(i as int), now_ms),
        decreases v@.len() - i,
    {
        proof {
            lemma_take_push(s, i as int);
            assert(s.take(i + 1).drop_last() =~= s.take(i as int));
        }
        if v[i].expires_at_ms > now_ms {
            let e = ProvisionalReplayEntry { key: v[i].key.duplicate(), expires_at_ms: v[i].expires_at_ms };
            let ghost before = out@;
            out.push(e);
            proof {
                assert(entries_view(out@) =~= entries_view(before).push(s[i as int]));
            }
        }
        i += 1;
    }
    proof {
        assert(s.take(v@.len() as int) =~= s);
    }
    out
}

/// Whether `key` is among the entries of `v`.
fn remembers_key(v: &Vec<ProvisionalReplayEntry>, key: &ProvisionalReplayKey) -> (r: bool)
    ensures
        r == remembers(entries_view(v@), key@),
{
    let ghost s = entries_view(v@);
    let mut i: usize = 0;
    while i < v.len()
        invariant
            s == entries_view(v@),
            i <= v@.len(),
            forall|j: int| 0 <= j < i ==> s[j].key != key@,
        decreases v@.len() - i,
    {
        if v[i].key.same_key(key) {
            assert(s[i as int].key == key@);
            return true;
        }
        i += 1;
    }
    assert forall|j: int| 0 <= j < s.len() implies #[trigger] s[j].key != key@ by {}
    false
}

/// The highest remembered action revision for one realtime ID and operation.
fn latest_of(v: &Vec<ProvisionalReplayEntry>, realtime_id: &str, operation_id: &str) -> (r: Option<u64>)
    ensures
        r == latest_in(entries_view(v@), realtime_id@, operation_id@),
{
    let ghost s = entries_view(v@);
    let mut acc: Option<u64> = None;
    let mut i: usize = 0;
    while i < v.len()
        invariant
            s == entries_view(v@),
            i <= v@.len(),
            acc == latest_in(s.take(i as int), realtime_id@, operation_id@),
        decreases v@.len() - i,
    {
        proof {
            lemma_take_push(s, i as int);
            assert(s.take(i + 1).drop_last() =~= s.take(i as int));
        }
        let e = &v[i];
        if str_eq(e.key.realtime_id.as_str(), realtime_id) && str_eq(e.key.operation_id.as_str(), operation_id) {
            acc = match acc {
                Some(x) => if e.key.action_revision > x {
                    Some(e.key.action_revision)
                } else {
                    Some(x)
                },
                None => Some(e.key.action_revision),
            };
        }
        i += 1;
    }
    proof {
        assert(s.take(v@.len() as int) =~= s);
    }
    acc
}

impl ProvisionalRegistry {
    pub(crate) fn take_binding(&mut self, realtime_id: &str) -> (r: Option<ProvisionalScreenShareBinding>)
        requires
            old(self).wf(),
        ensures
            final(self).wf(),
            final(self)@ == (ProvisionalModel { bindings: old(self)@.bindings.remove(realtime_id@), ..old(self)@ }),
            r.is_some() == old(self)@.bindings.dom().contains(realtime_id@),
            r matches Some(b) ==> b@ == old(self)@.bindings[realtime_id@],
    {
        let ghost m0 = self@;
        let r = self.bindings.remove(realtime_id);
        proof {
            assert(self@.bindings =~= m0.bindings.remove(realtime_id@));
            assert(self@.requests =~= m0.requests);
            assert(self@.replay =~= m0.replay);
        }
        r
    }

    pub(crate) fn take_request(&mut self, realtime_id: &str) -> (r: Option<ProvisionalPendingRequest>)
        requires
            old(self).wf(),
        ensures
            final(self).wf(),
            final(self)@ == (ProvisionalModel { requests: old(self)@.requests.remove(realtime_id@), ..old(self)@ }),
            r.is_some() == old(self)@.requests.dom().contains(realtime_id@),
            r matches Some(q) ==> q@ == old(self)@.requests[realtime_id@],
    {
        let ghost m0 = self@;
        let r = self.requests.remove(realtime_id);
        proof {
            assert(self@.requests =~= m0.requests.remove(realtime_id@));
            assert(self@.bindings =~= m0.bindings);
            assert(self@.replay =~= m0.replay);
        }
        r
    }

    /// Stores a binding under its own realtime ID.
    pub(crate) fn put_binding(&mut self, b: ProvisionalScreenShareBinding)
        requires
            old(self).wf(),
            binding_wf(b@),
            !old(self)@.requests.dom().contains(b@.realtime_id),
            old(self)@.bindings.dom().contains(b@.realtime_id) || old(self)@.bindings.dom().len()
                + old(self)@.requests.dom().len() < MAX_PROVISIONAL_OPERATIONS,
        ensures
            final(self).wf(),
            final(self)@ == (ProvisionalModel { bindings: old(self)@.bindings.insert(b@.realtime_id, b@), ..old(self)@ }),
    {
        let ghost m0 = self@;
        let ghost bv = b@;
        let k = b.realtime_id.clone();
        self.bindings.insert(k, b);
        proof {
            assert(self@.bindings =~= m0.bindings.insert(bv.realtime_id, bv));
            assert(self@.requests =~= m0.requests);
            assert(self@.replay =~= m0.replay);
        }
    }

    pub(crate) fn put_request(&mut self, realtime_id: String, q: ProvisionalPendingRequest)
        requires
            old(self).wf(),
            !old(self)@.bindings.dom().contains(realtime_id@),
            old(self)@.requests.dom().contains(realtime_id@) || old(self)@.bindings.dom().len()
                + old(self)@.requests.dom().len() < MAX_PROVISIONAL_OPERATIONS,
        ensures
            final(self).wf(),
            final(self)@ == (ProvisionalModel { requests: old(self)@.requests.insert(realtime_id@, q@), ..old(self)@ }),
    {
        let ghost m0 = self@;
        let ghost k = realtime_id@;
        let ghost qv = q@;
        self.requests.insert(realtime_id, q);
        proof {
            assert(self@.requests =~= m0.requests.insert(k, qv));
            assert(self@.bindings =~= m0.bindings);
            assert(self@.replay =~= m0.replay);
        }
    }

    fn prune_bindings(&mut self, now_ms: u64)
        requires
            old(self).wf(),
        ensures
            final(self).wf(),
            final(self)@ == (ProvisionalModel { bindings: live_bindings(old(self)@.bindings, now_ms), ..old(self)@ }),
    {
        let ghost m0 = self@;
        let keys = self.bindings.keys();
        let ghost kv = key_views(keys@);
        proof {
            assert forall|k: Seq<char>| m0.bindings.dom().contains(k) <==> kv.contains(k) by {
                assert(m0.bindings.dom().contains(k) == self.bindings@.dom().contains(k));
            }
        }
        let mut t: usize = 0;
        while t < keys.len()
            invariant
                self.wf(),
                kv == key_views(keys@),
                forall|k: Seq<char>| m0.bindings.dom().contains(k) <==> kv.contains(k),
                t <= keys@.len(),
                self@.requests == m0.requests,
                self@.replay == m0.replay,
                self@.next_epoch == m0.next_epoch,
                forall|k: Seq<char>| #[trigger]
                    self@.bindings.dom().contains(k) <==> (m0.bindings.dom().contains(k) && (!binding_expired(
                        m0.bindings[k],
                        now_ms,
                    ) || !kv.take(t as int).contains(k))),
                forall|k: Seq<char>| #[trigger]
                    self@.bindings.dom().contains(k) ==> self@.bindings[k] == m0.bindings[k],
            decreases keys@.len() - t,
        {
            proof {
                lemma_take_push(kv, t as int);
            }
            let expired = match self.bindings.get(keys[t].as_str()) {
                Some(b) => b.is_expired(now_ms),
                None => false,
            };
            if expired {
                self.take_binding(keys[t].as_str());
            }
            t += 1;
        }
        proof {
            assert(kv.take(kv.len() as int) =~= kv);
            assert(self@.bindings =~= live_bindings(m0.bindings, now_ms));
        }
    }

    fn prune_requests(&mut self, now_ms: u64)
        requires
            old(self).wf(),
        ensures
            final(self).wf(),
            final(self)@ == (ProvisionalModel { requests: live_requests(old(self)@.requests, now_ms), ..old(self)@ }),
    {
        let ghost m0 = self@;
        let keys = self.requests.keys();
        let ghost kv = key_views(keys@);
        proof {
            assert forall|k: Seq<char>| m0.requests.dom().contains(k) <==> kv.contains(k) by {
                assert(m0.requests.dom().contains(k) == self.requests@.dom().contains(k));
            }
        }
        let mut t: usize = 0;
        while t < keys.len()
            invariant
                self.wf(),
                kv == key_views(keys@),
                forall|k: Seq<char>| m0.requests.dom().contains(k) <==> kv.contains(k),
                t <= keys@.len(),
                self@.bindings == m0.bindings,
                self@.replay == m0.replay,
                self@.next_epoch == m0.next_epoch,
                forall|k: Seq<char>| #[trigger]
                    self@.requests.dom().contains(k) <==> (m0.requests.dom().contains(k) && (
                    m0.requests[k].expires_at_ms > now_ms || !kv.take(t as int).contains(k))),
                forall|k: Seq<char>| #[trigger]
                    self@.requests.dom().contains(k) ==> self@.requests[k] == m0.requests[k],
            decreases keys@.len() - t,
        {
            proof {
                lemma_take_push(kv, t as int);
            }
            let expired = match self.requests.get(keys[t].as_str()) {
                Some(q) => q.expires_at_ms <= now_ms,
                None => false,
            };
            if expired {
                self.take_request(keys[t].as_str());
            }
            t += 1;
        }
        proof {
            assert(kv.take(kv.len() as int) =~= kv);
            assert(self@.requests =~= live_requests(m0.requests, now_ms));
        }
    }

    /// Drops every expired binding and pending request.
    pub fn prune_provisional_bindings(&mut self, now_ms: u64)
        requires
            old(self).wf(),
        ensures
            final(self).wf(),
            final(self)@ == prune_spec(old(self)@, now_ms),
    {
        self.prune_bindings(now_ms);
        self.prune_requests(now_ms);
    }

    /// Forgets expired remembered actions, and peers left without any.
    pub fn prune_replay_cache(&mut self, now_ms: u64)
        requires
            old(self).wf(),
        ensures
            final(self).wf(),
            final(self)@ == (ProvisionalModel { replay: live_replay(old(self)@.replay, now_ms), ..old(self)@ }),
    {
        let ghost m0 = self@;
        let keys = self.replay.keys();
        let ghost kv = key_views(keys@);
        proof {
            assert forall|k: Seq<char>| m0.replay.dom().contains(k) <==> kv.contains(k) by {
                assert(m0.replay.dom().contains(k) == self.replay@.dom().contains(k));
            }
        }
        let mut t: usize = 0;
        while t < keys.len()
            invariant
                self.wf(),
                kv == key_views(keys@),
                kv.no_duplicates(),
                forall|k: Seq<char>| m0.replay.dom().contains(k) <==> kv.contains(k),
                t <= keys@.len(),
                self@.bindings == m0.bindings,
                self@.requests == m0.requests,
                self@.next_epoch == m0.next_epoch,
                forall|k: Seq<char>| #[trigger]
                    self@.replay.dom().contains(k) <==> (m0.replay.dom().contains(k) && (kv.take(
                        t as int,
                    ).contains(k) ==> live_entries(m0.replay[k], now_ms).len() > 0)),
                forall|k: Seq<char>| #[trigger]
                    self@.replay.dom().contains(k) ==> self@.replay[k] == if kv.take(t as int).contains(k) {
                        live_entries(m0.replay[k], now_ms)
                    } else {
                        m0.replay[k]
                    },
            decreases keys@.len() - t,
        {
            proof {
                lemma_take_push(kv, t as int);
                assert(!kv.take(t as int).contains(kv[t as int])) by {
                    if kv.take(t as int).contains(kv[t as int]) {
                        let j = choose|j: int| 0 <= j < t && kv.take(t as int)[j] == kv[t as int];
                        assert(kv[j] == kv[t as int]);
                    }
                }
            }
            let ghost before = self@;
            let ghost k = kv[t as int];
            proof {
                assert(kv.contains(k));
                assert(before.replay.dom().contains(k));
                assert(before.replay[k] == m0.replay[k]);
                assert(self.replay@.dom().contains(k));
                assert(before.replay[k] == entries_view(self.replay@[k]@));
            }
            let removed = self.replay.remove(keys[t].as_str());
            proof {
                assert(self@.replay =~= before.replay.remove(k));
            }
            match removed {
                Some(v) => {
                    let live = live_entries_of(&v, now_ms);
                    proof {
                        assert(entries_view(v@) == m0.replay[k]);
                        lemma_live_entries_len(entries_view(v@), now_ms);
                    }
                    if live.len() > 0 {
                        let ghost mid = self@;
                        let ghost lv = entries_view(live@);
                        self.replay.insert(keys[t].clone(), live);
                        proof {
                            assert(self@.replay =~= mid.replay.insert(k, lv));
                            assert(self@.replay =~= before.replay.insert(k, live_entries(m0.replay[k], now_ms)));
                        }
                    }
                },
                None => {},
            }
            proof {
                assert(self@.bindings =~= m0.bindings);
                assert(self@.requests =~= m0.requests);
                assert forall|p: Seq<char>| #[trigger] self@.replay.dom().contains(p) implies self@.replay[p].len()
                    <= MAX_PROVISIONAL_REPLAY_KEYS_PER_PEER by {
                    if p != k {
                        assert(before.replay.dom().contains(p));
                    } else {
                        lemma_live_entries_len(m0.replay[k], now_ms);
                    }
                }
            }
            t += 1;
        }
        proof {
            assert(kv.take(kv.len() as int) =~= kv);
            assert(self@.replay =~= live_replay(m0.replay, now_ms));
        }
    }

    /// Remembers one consent action, refusing a replay or a full lane.
    /// Expired actions are forgotten first, whatever the outcome.
    pub fn remember_provisional_action(&mut self, key: ProvisionalReplayKey, now_ms: u64) -> (r: Result<
        (),
        RealtimeRejection,
    >)
        requires
            old(self).wf(),
        ensures
            final(self).wf(),
            (final(self)@.replay, r) == remember_spec(old(self)@.replay, key@, now_ms),
            final(self)@.bindings == old(self)@.bindings,
            final(self)@.requests == old(self)@.requests,
            final(self)@.next_epoch == old(self)@.next_epoch,
    {
        let ghost m0 = self@;
        let ghost kv = key@;
        self.prune_replay_cache(now_ms);
        let ghost m1 = self@;
        let expires = now_ms.saturating_add(PROVISIONAL_REPLAY_TTL_MS);
        let sender = key.sender_peer_id.clone();
        match self.replay.get(sender.as_str()) {
            Some(v) => {
                if remembers_key(v, &key) {
                    return Err(RealtimeRejection::ReplayedAction);
                }
                if v.len() >= MAX_PROVISIONAL_REPLAY_KEYS_PER_PEER {
                    return Err(RealtimeRejection::ReplayCacheFull);
                }
            },
            None => {},
        }
        let mut v = match self.replay.remove(sender.as_str()) {
            Some(v) => v,
            None => Vec::new(),
        };
        let ghost before = entries_view(v@);
        proof {
            assert(before == peer_entries(m1.replay, kv.sender_peer_id));
        }
        v.push(ProvisionalReplayEntry { key, expires_at_ms: expires });
        proof {
            assert(entries_view(v@) =~= before.push(ReplayEntryModel { key: kv, expires_at_ms: expires }));
        }
        self.replay.insert(sender, v);
        proof {
            assert(self@.replay =~= m1.replay.insert(
                kv.sender_peer_id,
                before.push(ReplayEntryModel { key: kv, expires_at_ms: expires }),
            ));
            assert(self@.bindings =~= m0.bindings);
            assert(self@.requests =~= m0.requests);
        }
        Ok(())
    }

    /// The highest action revision remembered from `sender_peer_id` for one
    /// realtime ID and operation.
    pub fn latest_provisional_action_revision(&self, sender_peer_id: &str, realtime_id: &str, operation_id: &str) -> (r:
        Option<u64>)
        requires
            self.wf(),
        ensures
            r == latest_in(peer_entries(self@.replay, sender_peer_id@), realtime_id@, operation_id@),
    {
        match self.replay.get(sender_peer_id) {
            Some(v) => latest_of(v, realtime_id, operation_id),
            None => {
                proof {
                    assert(peer_entries(self@.replay, sender_peer_id@) =~= Seq::<ReplayEntryModel>::empty());
                }
                None
            },
        }
    }

    /// The entry the expiry worker sleeps on: a realtime ID with the earliest
    /// deadline, its epoch and that deadline; `None` when nothing is held.
    pub fn next_provisional_expiry(&self) -> (r: Option<(String, u64, u64)>)
        requires
            self.wf(),
        ensures
            r is None <==> self@.bindings.dom().is_empty() && self@.requests.dom().is_empty(),
            r matches Some(e) ==> current_epoch_spec(self@, e.0@) == Some(e.1) && deadline_of(self@, e.0@)
                == Some(e.2),
            r matches Some(e) ==> forall|k: Seq<char>| #[trigger]
                deadline_of(self@, k) is Some ==> e.2 <= deadline_of(self@, k)->Some_0,
    {
        let mut best: Option<(String, u64, u64)> = None;
        let n = self.bindings.len();
        let mut i: usize = 0;
        while i < n
            invariant
                self.wf(),
                n == self.bindings.spec_len(),
                i <= n,
                best is None <==> i == 0,
                best matches Some(e) ==> self@.bindings.dom().contains(e.0@) && self@.bindings[e.0@].provisional_epoch
                    == e.1 && self@.bindings[e.0@].effective_expires_at_ms == e.2,
                best matches Some(e) ==> forall|j: int|
                    0 <= j < i ==> e.2 <= #[trigger] self@.bindings[self.bindings.key_at_spec(j)].effective_expires_at_ms,
            decreases n - i,
        {
            let b = self.bindings.value_at(i);
            let k = self.bindings.key_at(i);
            proof {
                self.bindings.lemma_key_at(i as int);
            }
            let better = match &best {
                Some(e) => b.effective_expires_at_ms < e.2,
                None => true,
            };
            if better {
                best = Some((k.clone(), b.provisional_epoch, b.effective_expires_at_ms));
            }
            i += 1;
        }
        let ghost nb = n;
        let m = self.requests.len();
        let mut j: usize = 0;
        while j < m
            invariant
                self.wf(),
                n == self.bindings.spec_len(),
                m == self.requests.spec_len(),
                j <= m,
                best is None <==> n == 0 && j == 0,
                best matches Some(e) ==> current_epoch_spec(self@, e.0@) == Some(e.1) && deadline_of(self@, e.0@)
                    == Some(e.2),
                best matches Some(e) ==> forall|a: int|
                    0 <= a < n ==> e.2 <= #[trigger] self@.bindings[self.bindings.key_at_spec(a)].effective_expires_at_ms,
                best matches Some(e) ==> forall|a: int|
                    0 <= a < j ==> e.2 <= #[trigger] self@.requests[self.requests.key_at_spec(a)].expires_at_ms,
            decreases m - j,
        {
            let q = self.requests.value_at(j);
            let k = self.requests.key_at(j);
            proof {
                self.requests.lemma_key_at(j as int);
            }
            let better = match &best {
                Some(e) => q.expires_at_ms < e.2,
                None => true,
            };
            if better {
                best = Some((k.clone(), q.provisional_epoch, q.expires_at_ms));
            }
            j += 1;
        }
        proof {
            self.bindings.lemma_len();
            self.requests.lemma_len();
            if n == 0 {
                assert(self@.bindings.dom() =~= Set::<Seq<char>>::empty());
            }
            if m == 0 {
                assert(self@.requests.dom() =~= Set::<Seq<char>>::empty());
            }
            if n > 0 {
                self.bindings.lemma_key_at(0);
                assert(self@.bindings.dom().contains(self.bindings.key_at_spec(0)));
            }
            if m > 0 {
                self.requests.lemma_key_at(0);
                assert(self@.requests.dom().contains(self.requests.key_at_spec(0)));
            }
            if best is Some {
                let e = best->Some_0;
                assert forall|k: Seq<char>| #[trigger] deadline_of(self@, k) is Some implies e.2 <= deadline_of(
                    self@,
                    k,
                )->Some_0 by {
                    if self@.bindings.dom().contains(k) {
                        self.bindings.lemma_key_visited(k);
                        let a = choose|a: int| 0 <= a < n && self.bindings.key_at_spec(a) == k;
                        assert(e.2 <= self@.bindings[self.bindings.key_at_spec(a)].effective_expires_at_ms);
                    } else if self@.requests.dom().contains(k) {
                        self.requests.lemma_key_visited(k);
                        let a = choose|a: int| 0 <= a < m && self.requests.key_at_spec(a) == k;
                        assert(e.2 <= self@.requests[self.requests.key_at_spec(a)].expires_at_ms);
                    }
                }
            }
        }
        best
    }

    /// One wake-up of the expiry worker for the entry it slept on (see
    /// `expire_spec`). Returns whether the entry was dropped.
    pub fn expire_due(&mut self, realtime_id: &str, epoch: u64, now_ms: u64) -> (removed: bool)
        requires
            old(self).wf(),
        ensures
            final(self).wf(),
            final(self)@ == expire_spec(old(self)@, realtime_id@, epoch, now_ms),
            removed == expiry_due_spec(old(self)@, realtime_id@, epoch, now_ms),
    {
        let ghost m0 = self@;
        let deadline = match self.bindings.get(realtime_id) {
            Some(b) => Some(b.effective_expires_at_ms),
            None => match self.requests.get(realtime_id) {
                Some(q) => Some(q.expires_at_ms),
                None => None,
            },
        };
        let due = match deadline {
            Some(d) => self.current_provisional_epoch(realtime_id) == Some(epoch) && d <= now_ms,
            None => false,
        };
        if due {
            self.take_binding(realtime_id);
            self.take_request(realtime_id);
        }
        self.prune_replay_cache(now_ms);
        proof {
            if !due {
                assert(self@ == expire_spec(m0, realtime_id@, epoch, now_ms));
            }
        }
        due
    }
}

/// The registry with the binding of `realtime_id` replaced by `b`.
pub open spec fn with_binding(m: ProvisionalModel, realtime_id: Seq<char>, b: ProvisionalBindingModel) -> ProvisionalModel {
    ProvisionalModel { bindings: m.bindings.insert(realtime_id, b), ..m }
}

/// The registry without the binding of `realtime_id`.
pub open spec fn without_binding(m: ProvisionalModel, realtime_id: Seq<char>) -> ProvisionalModel {
    ProvisionalModel { bindings: m.bindings.remove(realtime_id), ..m }
}

/// The binding with its ICE queue emptied.
pub open spec fn drained(b: ProvisionalBindingModel) -> ProvisionalBindingModel {
    ProvisionalBindingModel { ice: Seq::empty(), ice_total_bytes: 0, ..b }
}

/// Starting a claim of a pending, paired binding (on the pruned registry):
/// the binding turns `Claiming` and hands its queued ICE out.
pub open spec fn begin_claim_spec(m: ProvisionalModel, realtime_id: Seq<char>, peer_id: Seq<char>, claim_token: Seq<char>, now_ms: u64) -> (
    ProvisionalModel,
    Result<(), RealtimeRejection>,
) {
    if !m.bindings.dom().contains(realtime_id) {
        (m, Err(RealtimeRejection::OfferDoesNotExist))
    } else {
        let b = m.bindings[realtime_id];
        if b.claim_token != claim_token || b.authenticated_peer_id != peer_id || b.state
            != ProvisionalBindingState::Pending || b.request is None || binding_expired(b, now_ms) {
            (m, Err(RealtimeRejection::ClaimStaleOrIncomplete))
        } else {
            (
                with_binding(
                    m,
                    realtime_id,
                    ProvisionalBindingModel { state: ProvisionalBindingState::Claiming, ..drained(b) },
                ),
                Ok(()),
            )
        }
    }
}

/// The binding is the exact claiming one: same token, epoch, peer and
/// shared instance, `Claiming`, and not expired.
pub open spec fn exact_claiming_spec(
    m: ProvisionalModel,
    realtime_id: Seq<char>,
    peer_id: Seq<char>,
    shared_session_instance_id: Seq<char>,
    claim_token: Seq<char>,
    provisional_epoch: u64,
    now_ms: u64,
) -> bool {
    &&& m.bindings.dom().contains(realtime_id)
    &&& m.bindings[realtime_id].claim_token == claim_token
    &&& m.bindings[realtime_id].provisional_epoch == provisional_epoch
    &&& m.bindings[realtime_id].authenticated_peer_id == peer_id
    &&& m.bindings[realtime_id].shared_session_instance_id == shared_session_instance_id
    &&& m.bindings[realtime_id].state == ProvisionalBindingState::Claiming
    &&& !binding_expired(m.bindings[realtime_id], now_ms)
}

/// The claim with this token and epoch still holds the binding.
pub open spec fn claim_held_spec(m: ProvisionalModel, realtime_id: Seq<char>, claim_token: Seq<char>, provisional_epoch: u64) -> bool {
    &&& m.bindings.dom().contains(realtime_id)
    &&& m.bindings[realtime_id].claim_token == claim_token
    &&& m.bindings[realtime_id].provisional_epoch == provisional_epoch
    &&& m.bindings[realtime_id].state == ProvisionalBindingState::Claiming
}

/// How long the expiry worker waits for a deadline: the milliseconds from
/// `now_ms` until `expires_at_ms`, none once it has passed.
pub fn provisional_delay_ms(now_ms: u64, expires_at_ms: u64) -> (d: u64)
    ensures
        d == if expires_at_ms > now_ms {
            (expires_at_ms - now_ms) as u64
        } else {
            0
        },
{
    expires_at_ms.saturating_sub(now_ms)
}

/// What a claim takes out of its binding to build the responder.
pub struct ClaimStart {
    pub offer_payload: Vec<u8>,
    pub offer_revision: u64,
    pub queued_ice: Vec<ProvisionalIceCandidate>,
    pub shared_session_instance_id: String,
    pub provisional_epoch: u64,
}

/// What a rejection takes out of its binding.
pub struct RejectStart {
    pub request: ScreenShareConsent,
    pub shared_session_instance_id: String,
    /// The revision the rejecting consent is sent with: the Offer's, at
    /// least 1.
    pub signal_revision: u64,
}

/// Checks a rejection of a pending binding (on the pruned registry).
pub open spec fn begin_reject_spec(m: ProvisionalModel, realtime_id: Seq<char>, peer_id: Seq<char>, claim_token: Seq<char>) -> Result<
    (),
    RealtimeRejection,
> {
    if !m.bindings.dom().contains(realtime_id) {
        Err(RealtimeRejection::OfferDoesNotExist)
    } else {
        let b = m.bindings[realtime_id];
        if b.claim_token != claim_token || b.authenticated_peer_id != peer_id || b.state
            != ProvisionalBindingState::Pending {
            Err(RealtimeRejection::RejectionStale)
        } else if b.request is None {
            Err(RealtimeRejection::RequestIncomplete)
        } else {
            Ok(())
        }
    }
}

/// The consent that answers a REQUEST with a rejection: issued now, expiring
/// no later than the request nor the consent lifetime from now, sent by the
/// local device as its first action.
pub open spec fn reject_consent_spec(request: ScreenShareConsent, now_ms: u64, local_device_id: Seq<char>, r: ScreenShareConsent) -> bool {
    let cap = if now_ms + SCREEN_SHARE_CONSENT_MAX_LIFETIME_MS > u64::MAX {
        u64::MAX
    } else {
        (now_ms + SCREEN_SHARE_CONSENT_MAX_LIFETIME_MS) as u64
    };
    &&& r.schema_version == request.schema_version
    &&& r.operation_id@ == request.operation_id@
    &&& r.realtime_id@ == request.realtime_id@
    &&& r.shared_session_instance_id@ == request.shared_session_instance_id@
    &&& r.issued_at_ms == now_ms
    &&& r.expires_at_ms == if request.expires_at_ms < cap {
        request.expires_at_ms
    } else {
        cap
    }
    &&& r.sender_peer_id@ == local_device_id
    &&& r.decision == 3
    &&& r.purpose == request.purpose
    &&& r.media == request.media
    &&& r.requires_acceptance == request.requires_acceptance
    &&& r.action_revision == 1
}

/// Builds the rejecting consent for a held REQUEST.
pub fn reject_consent(request: &ScreenShareConsent, now_ms: u64, local_device_id: &str) -> (r: ScreenShareConsent)
    ensures
        reject_consent_spec(*request, now_ms, local_device_id@, r),
{
    let mut reject = request.duplicate();
    let cap = now_ms.saturating_add(SCREEN_SHARE_CONSENT_MAX_LIFETIME_MS);
    reject.issued_at_ms = now_ms;
    reject.expires_at_ms = if reject.expires_at_ms < cap {
        reject.expires_at_ms
    } else {
        cap
    };
    reject.decision = ScreenShareConsentDecision::Reject.to_wire();
    reject.sender_peer_id = local_device_id.to_owned();
    reject.action_revision = 1;
    reject
}

impl ProvisionalRegistry {
    /// Starts the claim of a pending, paired binding. The realtime ID and
    /// peer are checked first (`peer_registered`: whether the runtime knows
    /// the peer); expired entries are then pruned.
    pub fn begin_claim(
        &mut self,
        realtime_id: &str,
        peer_id: &str,
        peer_registered: bool,
        claim_token: &str,
        now_ms: u64,
    ) -> (r: Result<ClaimStart, RealtimeRejection>)
        requires
            old(self).wf(),
        ensures
            final(self).wf(),
            !valid_realtime_id(realtime_id.spec_bytes()) ==> r == Err::<ClaimStart, RealtimeRejection>(
                RealtimeRejection::InvalidRealtimeId,
            ) && final(self)@ == old(self)@,
            valid_realtime_id(realtime_id.spec_bytes()) && !valid_peer_binding(peer_id.spec_bytes(), peer_registered)
                ==> r == Err::<ClaimStart, RealtimeRejection>(RealtimeRejection::PeerNotRegistered)
                && final(self)@ == old(self)@,
            valid_realtime_id(realtime_id.spec_bytes()) && valid_peer_binding(peer_id.spec_bytes(), peer_registered)
                ==> ({
                let m1 = prune_spec(old(self)@, now_ms);
                let (m2, res) = begin_claim_spec(m1, realtime_id@, peer_id@, claim_token@, now_ms);
                &&& final(self)@ == m2
                &&& r is Ok <==> res is Ok
                &&& r matches Err(e) ==> res == Err::<(), RealtimeRejection>(e)
                &&& r matches Ok(c) ==> ({
                    let b = m1.bindings[realtime_id@];
                    &&& c.offer_payload@ == b.offer_payload
                    &&& c.offer_revision == b.offer_revision
                    &&& ice_view(c.queued_ice@) == b.ice
                    &&& c.shared_session_instance_id@ == b.shared_session_instance_id
                    &&& c.provisional_epoch == b.provisional_epoch
                })
            }),
    {
        validate_realtime_id(realtime_id)?;
        validate_peer(peer_id, peer_registered)?;
        self.prune_provisional_bindings(now_ms);
        let ghost m1 = self@;
        let mut b = match self.take_binding(realtime_id) {
            Some(b) => b,
            None => {
                proof {
                    assert(self@.bindings =~= m1.bindings);
                }
                return Err(RealtimeRejection::OfferDoesNotExist);
            },
        };
        let ghost m_removed = self@;
        if !str_eq(b.claim_token.as_str(), claim_token) || !str_eq(b.authenticated_peer_id.as_str(), peer_id)
            || b.state != ProvisionalBindingState::Pending || b.request.is_none() || b.is_expired(now_ms) {
            proof {
                assert(b@.realtime_id == realtime_id@);
                assert(self@.bindings.dom().len() + self@.requests.dom().len() < MAX_PROVISIONAL_OPERATIONS);
            }
            self.put_binding(b);
            proof {
                let m1 = prune_spec(old(self)@, now_ms);
                assert(self@.bindings =~= m1.bindings);
            }
            return Err(RealtimeRejection::ClaimStaleOrIncomplete);
        }
        b.state = ProvisionalBindingState::Claiming;
        let queued_ice = b.drain_ice();
        let start = ClaimStart {
            offer_payload: b.offer_payload.clone(),
            offer_revision: b.offer_revision,
            queued_ice,
            shared_session_instance_id: b.shared_session_instance_id.clone(),
            provisional_epoch: b.provisional_epoch,
        };
        proof {
            assert(b@.realtime_id == realtime_id@);
        }
        self.put_binding(b);
        proof {
            let m1 = prune_spec(old(self)@, now_ms);
            assert(self@.bindings =~= m1.bindings.insert(realtime_id@, b@));
        }
        Ok(start)
    }

    /// Whether the binding is the exact claiming one (see
    /// `exact_claiming_spec`).
    pub fn exact_claiming_binding(
        &self,
        realtime_id: &str,
        peer_id: &str,
        shared_session_instance_id: &str,
        claim_token: &str,
        provisional_epoch: u64,
        now_ms: u64,
    ) -> (r: bool)
        requires
            self.wf(),
        ensures
            r == exact_claiming_spec(
                self@,
                realtime_id@,
                peer_id@,
                shared_session_instance_id@,
                claim_token@,
                provisional_epoch,
                now_ms,
            ),
    {
        match self.bindings.get(realtime_id) {
            Some(b) => str_eq(b.claim_token.as_str(), claim_token) && b.provisional_epoch == provisional_epoch
                && str_eq(b.authenticated_peer_id.as_str(), peer_id) && str_eq(
                b.shared_session_instance_id.as_str(),
                shared_session_instance_id,
            ) && b.state == ProvisionalBindingState::Claiming && !b.is_expired(now_ms),
            None => false,
        }
    }

    fn claim_held(&self, realtime_id: &str, claim_token: &str, provisional_epoch: u64) -> (r: bool)
        requires
            self.wf(),
        ensures
            r == claim_held_spec(self@, realtime_id@, claim_token@, provisional_epoch),
    {
        match self.bindings.get(realtime_id) {
            Some(b) => str_eq(b.claim_token.as_str(), claim_token) && b.provisional_epoch == provisional_epoch
                && b.state == ProvisionalBindingState::Claiming,
            None => false,
        }
    }

    /// Drops the binding when the claim with this token and epoch still
    /// holds it; returns whether it did. A stale claim leaves a newer binding
    /// alone.
    pub fn take_provisional_claim(&mut self, realtime_id: &str, claim_token: &str, provisional_epoch: u64) -> (r: bool)
        requires
            old(self).wf(),
        ensures
            final(self).wf(),
            r == claim_held_spec(old(self)@, realtime_id@, claim_token@, provisional_epoch),
            r ==> final(self)@ == without_binding(old(self)@, realtime_id@),
            !r ==> final(self)@ == old(self)@,
    {
        if !self.claim_held(realtime_id, claim_token, provisional_epoch) {
            return false;
        }
        self.take_binding(realtime_id);
        true
    }

    /// Takes the ICE queued on a claiming binding since the claim began.
    pub fn drain_claiming_ice(&mut self, realtime_id: &str, claim_token: &str, provisional_epoch: u64) -> (r: Result<
        Vec<ProvisionalIceCandidate>,
        RealtimeRejection,
    >)
        requires
            old(self).wf(),
        ensures
            final(self).wf(),
            !claim_held_spec(old(self)@, realtime_id@, claim_token@, provisional_epoch) ==> r == Err::<
                Vec<ProvisionalIceCandidate>,
                RealtimeRejection,
            >(RealtimeRejection::ClaimSuperseded) && final(self)@ == old(self)@,
            claim_held_spec(old(self)@, realtime_id@, claim_token@, provisional_epoch) ==> (r matches Ok(q)
                && ice_view(q@) == old(self)@.bindings[realtime_id@].ice) && final(self)@ == with_binding(
                old(self)@,
                realtime_id@,
                drained(old(self)@.bindings[realtime_id@]),
            ),
    {
        if !self.claim_held(realtime_id, claim_token, provisional_epoch) {
            return Err(RealtimeRejection::ClaimSuperseded);
        }
        let mut b = match self.take_binding(realtime_id) {
            Some(b) => b,
            None => return Err(RealtimeRejection::ClaimSuperseded),
        };
        let queued = b.drain_ice();
        proof {
            assert(b@.realtime_id == realtime_id@);
        }
        self.put_binding(b);
        proof {
            assert(self@.bindings =~= old(self)@.bindings.insert(realtime_id@, b@));
        }
        Ok(queued)
    }

    /// Ends a committed claim: the binding leaves the registry.
    pub fn finish_claim(&mut self, realtime_id: &str)
        requires
            old(self).wf(),
        ensures
            final(self).wf(),
            final(self)@ == without_binding(old(self)@, realtime_id@),
    {
        self.take_binding(realtime_id);
    }

    /// Checks a rejection of a pending binding and hands out what the
    /// rejecting consent needs. The realtime ID and peer are checked first;
    /// expired entries are then pruned.
    pub fn begin_reject(
        &mut self,
        realtime_id: &str,
        peer_id: &str,
        peer_registered: bool,
        claim_token: &str,
        now_ms: u64,
    ) -> (r: Result<RejectStart, RealtimeRejection>)
        requires
            old(self).wf(),
        ensures
            final(self).wf(),
            !valid_realtime_id(realtime_id.spec_bytes()) ==> r == Err::<RejectStart, RealtimeRejection>(
                RealtimeRejection::InvalidRealtimeId,
            ) && final(self)@ == old(self)@,
            valid_realtime_id(realtime_id.spec_bytes()) && !valid_peer_binding(peer_id.spec_bytes(), peer_registered)
                ==> r == Err::<RejectStart, RealtimeRejection>(RealtimeRejection::PeerNotRegistered)
                && final(self)@ == old(self)@,
            valid_realtime_id(realtime_id.spec_bytes()) && valid_peer_binding(peer_id.spec_bytes(), peer_registered)
                ==> ({
                let m1 = prune_spec(old(self)@, now_ms);
                let res = begin_reject_spec(m1, realtime_id@, peer_id@, claim_token@);
                &&& final(self)@ == m1
                &&& r is Ok <==> res is Ok
                &&& r matches Err(e) ==> res == Err::<(), RealtimeRejection>(e)
                &&& r matches Ok(s) ==> ({
                    let b = m1.bindings[realtime_id@];
                    &&& s.request.same_as(b.request->Some_0)
                    &&& s.shared_session_instance_id@ == b.shared_session_instance_id
                    &&& s.signal_revision == if b.offer_revision > 1 {
                        b.offer_revision
                    } else {
                        1
                    }
                })
            }),
    {
        validate_realtime_id(realtime_id)?;
        validate_peer(peer_id, peer_registered)?;
        self.prune_provisional_bindings(now_ms);
        let b = match self.bindings.get(realtime_id) {
            Some(b) => b,
            None => return Err(RealtimeRejection::OfferDoesNotExist),
        };
        if !str_eq(b.claim_token.as_str(), claim_token) || !str_eq(b.authenticated_peer_id.as_str(), peer_id)
            || b.state != ProvisionalBindingState::Pending {
            return Err(RealtimeRejection::RejectionStale);
        }
        let request = match &b.request {
            Some(q) => q.duplicate(),
            None => return Err(RealtimeRejection::RequestIncomplete),
        };
        Ok(
            RejectStart {
                request,
                shared_session_instance_id: b.shared_session_instance_id.clone(),
                signal_revision: if b.offer_revision > 1 {
                    b.offer_revision
                } else {
                    1
                },
            },
        )
    }

    /// Marks the exact pending binding as being rejected, so no claim can
    /// start while the rejection is sent.
    pub fn mark_rejecting(&mut self, realtime_id: &str, peer_id: &str, claim_token: &str) -> (r: Result<
        (),
        RealtimeRejection,
    >)
        requires
            old(self).wf(),
        ensures
            final(self).wf(),
            ({
                let m = old(self)@;
                let exact = m.bindings.dom().contains(realtime_id@) && m.bindings[realtime_id@].claim_token
                    == claim_token@ && m.bindings[realtime_id@].authenticated_peer_id == peer_id@
                    && m.bindings[realtime_id@].state == ProvisionalBindingState::Pending;
                &&& !exact ==> r == Err::<(), RealtimeRejection>(RealtimeRejection::RejectionSuperseded)
                    && final(self)@ == m
                &&& exact ==> r is Ok && final(self)@ == with_binding(
                    m,
                    realtime_id@,
                    ProvisionalBindingModel { state: ProvisionalBindingState::Claiming, ..m.bindings[realtime_id@] },
                )
            }),
    {
        let exact = match self.bindings.get(realtime_id) {
            Some(b) => str_eq(b.claim_token.as_str(), claim_token) && str_eq(b.authenticated_peer_id.as_str(), peer_id)
                && b.state == ProvisionalBindingState::Pending,
            None => false,
        };
        if !exact {
            return Err(RealtimeRejection::RejectionSuperseded);
        }
        let mut b = match self.take_binding(realtime_id) {
            Some(b) => b,
            None => return Err(RealtimeRejection::RejectionSuperseded),
        };
        b.state = ProvisionalBindingState::Claiming;
        proof {
            assert(b@.realtime_id == realtime_id@);
        }
        self.put_binding(b);
        proof {
            assert(self@.bindings =~= old(self)@.bindings.insert(realtime_id@, b@));
        }
        Ok(())
    }

    /// Drops the binding a rejection marked, whether or not the rejecting
    /// consent was sent; returns whether it did.
    pub fn finish_reject(&mut self, realtime_id: &str, claim_token: &str) -> (r: bool)
        requires
            old(self).wf(),
        ensures
            final(self).wf(),
            r == (old(self)@.bindings.dom().contains(realtime_id@) && old(self)@.bindings[realtime_id@].claim_token
                == claim_token@ && old(self)@.bindings[realtime_id@].state == ProvisionalBindingState::Claiming),
            r ==> final(self)@ == without_binding(old(self)@, realtime_id@),
            !r ==> final(self)@ == old(self)@,
    {
        let held = match self.bindings.get(realtime_id) {
            Some(b) => str_eq(b.claim_token.as_str(), claim_token) && b.state == ProvisionalBindingState::Claiming,
            None => false,
        };
        if held {
            self.take_binding(realtime_id);
        }
        held
    }

    /// Discards an incoming offer the user dismissed: nothing to do when it is
    /// gone, refused when the token or peer differs, else the binding is
    /// dropped.
    pub fn discard_incoming_offer(&mut self, realtime_id: &str, peer_id: &str, peer_registered: bool, claim_token: &str) -> (r:
        Result<(), RealtimeRejection>)
        requires
            old(self).wf(),
        ensures
            final(self).wf(),
            !valid_realtime_id(realtime_id.spec_bytes()) ==> r == Err::<(), RealtimeRejection>(
                RealtimeRejection::InvalidRealtimeId,
            ) && final(self)@ == old(self)@,
            valid_realtime_id(realtime_id.spec_bytes()) && !valid_peer_binding(peer_id.spec_bytes(), peer_registered)
                ==> r == Err::<(), RealtimeRejection>(RealtimeRejection::PeerNotRegistered)
                && final(self)@ == old(self)@,
            valid_realtime_id(realtime_id.spec_bytes()) && valid_peer_binding(peer_id.spec_bytes(), peer_registered)
                ==> ({
                let m = old(self)@;
                &&& !m.bindings.dom().contains(realtime_id@) ==> r is Ok && final(self)@ == m
                &&& m.bindings.dom().contains(realtime_id@) && (m.bindings[realtime_id@].claim_token != claim_token@
                    || m.bindings[realtime_id@].authenticated_peer_id != peer_id@) ==> r == Err::<
                    (),
                    RealtimeRejection,
                >(RealtimeRejection::DiscardStale) && final(self)@ == m
                &&& m.bindings.dom().contains(realtime_id@) && m.bindings[realtime_id@].claim_token == claim_token@
                    && m.bindings[realtime_id@].authenticated_peer_id == peer_id@ ==> r is Ok && final(self)@
                    == without_binding(m, realtime_id@)
            }),
    {
        validate_realtime_id(realtime_id)?;
        validate_peer(peer_id, peer_registered)?;
        let matches = match self.bindings.get(realtime_id) {
            Some(b) => {
                if !str_eq(b.claim_token.as_str(), claim_token) || !str_eq(b.authenticated_peer_id.as_str(), peer_id) {
                    return Err(RealtimeRejection::DiscardStale);
                }
                true
            },
            None => false,
        };
        if matches {
            self.take_binding(realtime_id);
        }
        Ok(())
    }
}

/// The held entries that do not belong to `peer_id`.
pub open spec fn without_peer(m: ProvisionalModel, peer_id: Seq<char>) -> ProvisionalModel {
    ProvisionalModel {
        bindings: Map::new(
            |k: Seq<char>| m.bindings.dom().contains(k) && m.bindings[k].authenticated_peer_id != peer_id,
            |k: Seq<char>| m.bindings[k],
        ),
        requests: Map::new(
            |k: Seq<char>| m.requests.dom().contains(k) && m.requests[k].authenticated_peer_id != peer_id,
            |k: Seq<char>| m.requests[k],
        ),
        ..m
    }
}

impl ProvisionalRegistry {
    /// Drops every binding and pending request of a peer whose connection
    /// went away.
    pub fn drop_peer(&mut self, peer_id: &str)
        requires
            old(self).wf(),
        ensures
            final(self).wf(),
            final(self)@ == without_peer(old(self)@, peer_id@),
    {
        let ghost m0 = self@;
        let keys = self.bindings.keys();
        let ghost kv = key_views(keys@);
        proof {
            assert forall|k: Seq<char>| m0.bindings.dom().contains(k) <==> kv.contains(k) by {
                assert(m0.bindings.dom().contains(k) == self.bindings@.dom().contains(k));
            }
        }
        let mut t: usize = 0;
        while t < keys.len()
            invariant
                self.wf(),
                kv == key_views(keys@),
                forall|k: Seq<char>| m0.bindings.dom().contains(k) <==> kv.contains(k),
                t <= keys@.len(),
                self@.requests == m0.requests,
                self@.replay == m0.replay,
                self@.next_epoch == m0.next_epoch,
                forall|k: Seq<char>| #[trigger]
                    self@.bindings.dom().contains(k) <==> (m0.bindings.dom().contains(k) && (
                    m0.bindings[k].authenticated_peer_id != peer_id@ || !kv.take(t as int).contains(k))),
                forall|k: Seq<char>| #[trigger]
                    self@.bindings.dom().contains(k) ==> self@.bindings[k] == m0.bindings[k],
            decreases keys@.len() - t,
        {
            proof {
                lemma_take_push(kv, t as int);
            }
            let hit = match self.bindings.get(keys[t].as_str()) {
                Some(b) => str_eq(b.authenticated_peer_id.as_str(), peer_id),
                None => false,
            };
            if hit {
                self.take_binding(keys[t].as_str());
            }
            t += 1;
        }
        let ghost m1 = self@;
        let qkeys = self.requests.keys();
        let ghost qv = key_views(qkeys@);
        proof {
            assert(kv.take(kv.len() as int) =~= kv);
            assert forall|k: Seq<char>| m0.requests.dom().contains(k) <==> qv.contains(k) by {
                assert(m0.requests.dom().contains(k) == self.requests@.dom().contains(k));
            }
        }
        let mut u: usize = 0;
        while u < qkeys.len()
            invariant
                self.wf(),
                qv == key_views(qkeys@),
                forall|k: Seq<char>| m0.requests.dom().contains(k) <==> qv.contains(k),
                u <= qkeys@.len(),
                self@.bindings == m1.bindings,
                self@.replay == m0.replay,
                self@.next_epoch == m0.next_epoch,
                forall|k: Seq<char>| #[trigger]
                    self@.requests.dom().contains(k) <==> (m0.requests.dom().contains(k) && (
                    m0.requests[k].authenticated_peer_id != peer_id@ || !qv.take(u as int).contains(k))),
                forall|k: Seq<char>| #[trigger]
                    self@.requests.dom().contains(k) ==> self@.requests[k] == m0.requests[k],
            decreases qkeys@.len() - u,
        {
            proof {
                lemma_take_push(qv, u as int);
            }
            let hit = match self.requests.get(qkeys[u].as_str()) {
                Some(q) => str_eq(q.authenticated_peer_id.as_str(), peer_id),
                None => false,
            };
            if hit {
                self.take_request(qkeys[u].as_str());
            }
            u += 1;
        }
        proof {
            assert(qv.take(qv.len() as int) =~= qv);
            assert(self@.bindings =~= without_peer(m0, peer_id@).bindings);
            assert(self@.requests =~= without_peer(m0, peer_id@).requests);
        }
    }

    /// Drops every binding and pending request; remembered actions stay.
    pub fn clear_held(&mut self)
        requires
            old(self).wf(),
        ensures
            final(self).wf(),
            final(self)@ == (ProvisionalModel {
                bindings: Map::empty(),
                requests: Map::empty(),
                ..old(self)@
            }),
    {
        let ghost m0 = self@;
        self.bindings.clear();
        self.requests.clear();
        proof {
            assert(self@.bindings =~= Map::<Seq<char>, ProvisionalBindingModel>::empty());
            assert(self@.requests =~= Map::<Seq<char>, PendingRequestModel>::empty());
            assert(self@.replay =~= m0.replay);
            assert(self@.bindings.dom() =~= Set::<Seq<char>>::empty());
            assert(self@.requests.dom() =~= Set::<Seq<char>>::empty());
        }
    }
}

/// Every state of the registry keeps its bounds: at most
/// `MAX_PROVISIONAL_OPERATIONS` realtime IDs are held, a realtime ID never
/// holds a binding and a pending request at once, each binding's ICE queue
/// stays within its bounds and each peer's remembered actions within theirs.
pub proof fn lemma_registry_bounds(reg: &ProvisionalRegistry)
    requires
        reg.wf(),
    ensures
        slot_count_spec(reg@) <= MAX_PROVISIONAL_OPERATIONS,
        forall|k: Seq<char>| #[trigger]
            reg@.bindings.dom().contains(k) ==> !reg@.requests.dom().contains(k) && reg@.bindings[k].ice.len()
                <= MAX_PROVISIONAL_ICE_CANDIDATES && reg@.bindings[k].ice_total_bytes <= MAX_PROVISIONAL_ICE_TOTAL_BYTES
                && reg@.bindings[k].ice_total_bytes == ice_bytes(reg@.bindings[k].ice),
        forall|p: Seq<char>| #[trigger]
            reg@.replay.dom().contains(p) ==> reg@.replay[p].len() <= MAX_PROVISIONAL_REPLAY_KEYS_PER_PEER,
{
    reg.lemma_model_wf();
    lemma_slot_count(reg@);
}

/// A queued ICE candidate cannot be queued again: the same candidate is
/// refused (as a replay, or because the queue became full).
pub proof fn lemma_ice_replay_refused(b: ProvisionalBindingModel, revision: u64, payload: Seq<u8>)
    requires
        push_ice_spec(b, revision, payload) is Ok,
    ensures
        push_ice_spec(push_ice_spec(b, revision, payload)->Ok_0, revision, payload) is Err,
{
    let b2 = push_ice_spec(b, revision, payload)->Ok_0;
    assert(b2.ice[b2.ice.len() - 1] == (revision, payload));
    assert(b2.ice.contains((revision, payload)));
}

proof fn lemma_live_entries_push(s: Seq<ReplayEntryModel>, x: ReplayEntryModel, now_ms: u64)
    requires
        x.expires_at_ms > now_ms,
    ensures
        live_entries(s.push(x), now_ms) == live_entries(s, now_ms).push(x),
{
    assert(s.push(x).drop_last() =~= s);
}

/// A remembered consent action is refused when it comes again before its
/// replay lifetime ends (short of the last representable millisecond, where
/// the saturated lifetime ends at once).
pub proof fn lemma_remembered_action_refused(
    r: Map<Seq<char>, Seq<ReplayEntryModel>>,
    key: ReplayKeyModel,
    now_ms: u64,
    later_ms: u64,
)
    requires
        remember_spec(r, key, now_ms).1 is Ok,
        now_ms <= later_ms,
        later_ms < now_ms + PROVISIONAL_REPLAY_TTL_MS,
        later_ms < u64::MAX,
    ensures
        remember_spec(remember_spec(r, key, now_ms).0, key, later_ms).1 == Err::<(), RealtimeRejection>(
            RealtimeRejection::ReplayedAction,
        ),
{
    let live = live_replay(r, now_ms);
    let entries = peer_entries(live, key.sender_peer_id);
    let expires = if now_ms + PROVISIONAL_REPLAY_TTL_MS > u64::MAX {
        u64::MAX
    } else {
        (now_ms + PROVISIONAL_REPLAY_TTL_MS) as u64
    };
    let x = ReplayEntryModel { key, expires_at_ms: expires };
    let r1 = remember_spec(r, key, now_ms).0;
    assert(r1 == live.insert(key.sender_peer_id, entries.push(x)));
    lemma_live_entries_push(entries, x, later_ms);
    let pushed = live_entries(entries, later_ms).push(x);
    assert(live_entries(r1[key.sender_peer_id], later_ms) == pushed);
    let live2 = live_replay(r1, later_ms);
    assert(live2.dom().contains(key.sender_peer_id));
    assert(peer_entries(live2, key.sender_peer_id) == pushed);
    assert(pushed[pushed.len() - 1].key == key);
    assert(remembers(pushed, key));
}

/// Only a pending binding paired with its REQUEST, under the right token and
/// peer and before it expires, can be claimed; the claim leaves it
/// `Claiming` with its ICE handed out.
pub proof fn lemma_claim_needs_paired_binding(
    m: ProvisionalModel,
    realtime_id: Seq<char>,
    peer_id: Seq<char>,
    claim_token: Seq<char>,
    now_ms: u64,
)
    requires
        begin_claim_spec(m, realtime_id, peer_id, claim_token, now_ms).1 is Ok,
    ensures
        m.bindings.dom().contains(realtime_id),
        m.bindings[realtime_id].state == ProvisionalBindingState::Pending,
        m.bindings[realtime_id].request is Some,
        m.bindings[realtime_id].claim_token == claim_token,
        m.bindings[realtime_id].authenticated_peer_id == peer_id,
        !binding_expired(m.bindings[realtime_id], now_ms),
        begin_claim_spec(m, realtime_id, peer_id, claim_token, now_ms).0.bindings[realtime_id].state
            == ProvisionalBindingState::Claiming,
        begin_claim_spec(m, realtime_id, peer_id, claim_token, now_ms).0.bindings[realtime_id].ice.len() == 0,
{
}

/// A binding being claimed cannot be claimed a second time.
pub proof fn lemma_claim_once(
    m: ProvisionalModel,
    realtime_id: Seq<char>,
    peer_id: Seq<char>,
    claim_token: Seq<char>,
    now_ms: u64,
    later_ms: u64,
)
    requires
        begin_claim_spec(m, realtime_id, peer_id, claim_token, now_ms).1 is Ok,
    ensures
        begin_claim_spec(begin_claim_spec(m, realtime_id, peer_id, claim_token, now_ms).0, realtime_id, peer_id,
            claim_token, later_ms).1 is Err,
{
}

impl View for ProvisionalRegistry {
    type V = ProvisionalModel;

    open spec fn view(&self) -> ProvisionalModel {
        self.model()
    }
}

} // verus!
