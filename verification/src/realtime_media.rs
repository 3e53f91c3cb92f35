//! Native-only screen-media endpoint registry.
//!
//! The registry owns opaque endpoint leases, never a peer connection. Each
//! lease captures the runtime/session generation and the identity of the
//! realtime I/O driver it borrows (a token handed out by the owner of the
//! drivers); terminal session paths invalidate the lease before the driver is
//! closed.

use crate::realtime::session::{media_driver_spec, RealtimeSessions, SessionsModel};
use crate::outside::is_hex_byte;
use crate::strmap::{str_eq, StrMap};
use std::collections::HashMap;
use vstd::prelude::*;
use vstd::std_specs::hash::spec_keys_iter;
use vstd::std_specs::iter::{IteratorSpec, VerusForLoopWrapper};
use vstd::string::StringSliceAdditionalSpecFns;

verus! {

broadcast use vstd::std_specs::hash::group_hash_axioms;

/// Direction permitted for one opaque native endpoint.
#[derive(Debug, Clone, Copy, PartialEq, Eq, Structural)]
pub enum RealtimeMediaDirection {
    Send,
    Receive,
}

/// Opaque endpoint identifier. Identifiers come from a counter that never
/// repeats within a registry, and each runtime starts its registry at a
/// distinct base, so an ID from a prior runtime cannot name a new endpoint.
#[derive(Debug, Clone, Copy, PartialEq, Eq, Hash, Structural)]
pub struct RealtimeMediaEndpointId(u64);

impl RealtimeMediaEndpointId {
    /// The raw number behind the identifier.
    pub closed spec fn raw_value(self) -> u64 {
        self.0
    }

    pub fn from_raw(value: u64) -> (id: Self)
        ensures
            id == endpoint_id_of(value),
            id.raw_value() == value,
    {
        RealtimeMediaEndpointId(value)
    }

    pub fn raw(self) -> (value: u64)
        ensures
            value == self.raw_value(),
    {
        self.0
    }
}

/// The identifier with raw number `value`.
pub closed spec fn endpoint_id_of(value: u64) -> RealtimeMediaEndpointId {
    RealtimeMediaEndpointId(value)
}

/// `from_raw` and `raw` are inverse: an identifier survives a round trip
/// through its raw number, and so does the number.
pub proof fn lemma_endpoint_id_round_trip(id: RealtimeMediaEndpointId, value: u64)
    ensures
        endpoint_id_of(value).raw_value() == value,
        endpoint_id_of(id.raw_value()) == id,
{
}

/// Errors at the native media endpoint boundary. Payload contents are never
/// retained or embedded in the error.
#[derive(Debug, Clone, Copy, PartialEq, Eq, Structural)]
pub enum RealtimeMediaError {
    RuntimeNotRunning,
    InvalidRealtimeId,
    InvalidPeerId,
    UnknownRealtimeSession,
    PeerMismatch,
    DriverUnavailable,
    DuplicateEndpoint,
    StaleEndpoint,
    StaleGeneration,
    DirectionMismatch,
    FrameRejected,
    Internal,
}

/// The realtime ID is 32 hexadecimal digits (either case).
pub open spec fn is_media_realtime_id(id: Seq<u8>) -> bool {
    &&& id.len() == 32
    &&& forall|i: int| 0 <= i < id.len() ==> #[trigger] is_hex_byte(id[i])
}

/// The peer ID has between 1 and 128 bytes.
pub open spec fn is_media_peer_id(id: Seq<u8>) -> bool {
    0 < id.len() <= 128
}

/// The result `validate_identifiers` gives for the UTF-8 bytes of both IDs.
pub open spec fn validate_identifiers_spec(realtime_id: Seq<u8>, peer_id: Seq<u8>) -> Result<
    (),
    RealtimeMediaError,
> {
    if !is_media_realtime_id(realtime_id) {
        Err(RealtimeMediaError::InvalidRealtimeId)
    } else if !is_media_peer_id(peer_id) {
        Err(RealtimeMediaError::InvalidPeerId)
    } else {
        Ok(())
    }
}

/// Whether every byte of `bytes` is a hexadecimal digit.
pub fn all_hex_bytes(bytes: &[u8]) -> (r: bool)
    ensures
        r == forall|i: int| 0 <= i < bytes@.len() ==> #[trigger] is_hex_byte(bytes@[i]),
{
    let mut i: usize = 0;
    while i < bytes.len()
        invariant
            i <= bytes@.len(),
            forall|j: int| 0 <= j < i ==> #[trigger] is_hex_byte(bytes@[j]),
        decreases bytes@.len() - i,
    {
        let c = bytes[i];
        if !((48 <= c && c <= 57) || (65 <= c && c <= 70) || (97 <= c && c <= 102)) {
            assert(!is_hex_byte(bytes@[i as int]));
            return false;
        }
        i += 1;
    }
    true
}

pub fn validate_identifiers(realtime_id: &str, peer_id: &str) -> (r: Result<(), RealtimeMediaError>)
    ensures
        r == validate_identifiers_spec(realtime_id.spec_bytes(), peer_id.spec_bytes()),
{
    let rid = realtime_id.as_bytes();
    if rid.len() != 32 || !all_hex_bytes(rid) {
        return Err(RealtimeMediaError::InvalidRealtimeId);
    }
    let pid = peer_id.as_bytes();
    if pid.len() == 0 || pid.len() > 128 {
        return Err(RealtimeMediaError::InvalidPeerId);
    }
    Ok(())
}

/// The live binding of one realtime ID: peer, session generation and driver.
pub struct SessionBinding {
    pub peer_id: String,
    pub generation: u64,
    pub driver: u64,
}

/// One endpoint lease.
pub struct EndpointLease {
    pub realtime_id: String,
    pub peer_id: String,
    pub runtime_generation: u64,
    pub session_generation: u64,
    pub direction: RealtimeMediaDirection,
    pub driver: u64,
}

pub struct BindingModel {
    pub peer_id: Seq<char>,
    pub generation: u64,
    pub driver: u64,
}

pub struct LeaseModel {
    pub realtime_id: Seq<char>,
    pub peer_id: Seq<char>,
    pub runtime_generation: u64,
    pub session_generation: u64,
    pub direction: RealtimeMediaDirection,
    pub driver: u64,
}

impl View for SessionBinding {
    type V = BindingModel;

    open spec fn view(&self) -> BindingModel {
        BindingModel { peer_id: self.peer_id@, generation: self.generation, driver: self.driver }
    }
}

impl View for EndpointLease {
    type V = LeaseModel;

    open spec fn view(&self) -> LeaseModel {
        LeaseModel {
            realtime_id: self.realtime_id@,
            peer_id: self.peer_id@,
            runtime_generation: self.runtime_generation,
            session_generation: self.session_generation,
            direction: self.direction,
            driver: self.driver,
        }
    }
}

impl EndpointLease {
    /// A copy of the lease with the same fields.
    pub fn duplicate(&self) -> (r: Self)
        ensures
            r@ == self@,
    {
        EndpointLease {
            realtime_id: self.realtime_id.clone(),
            peer_id: self.peer_id.clone(),
            runtime_generation: self.runtime_generation,
            session_generation: self.session_generation,
            direction: self.direction,
            driver: self.driver,
        }
    }
}

/// The abstract registry.
pub struct RegistryModel {
    pub runtime_generation: u64,
    pub next_endpoint_id: u64,
    pub bindings: Map<Seq<char>, BindingModel>,
    pub endpoints: Map<u64, LeaseModel>,
}

impl RegistryModel {
    pub open spec fn with_endpoints(self, endpoints: Map<u64, LeaseModel>) -> RegistryModel {
        RegistryModel { endpoints, ..self }
    }
}

/// Runtime-owned registry for native media endpoint leases.
pub struct RealtimeMediaRegistry {
    runtime_generation: u64,
    next_endpoint_id: u64,
    session_bindings: StrMap<SessionBinding>,
    endpoints: HashMap<u64, EndpointLease>,
}

/// The registry after `invalidate_realtime(realtime_id)`: the binding and every
/// lease of that realtime ID are gone.
pub open spec fn invalidate_realtime_spec(m: RegistryModel, realtime_id: Seq<char>) -> RegistryModel {
    RegistryModel {
        bindings: m.bindings.remove(realtime_id),
        endpoints: Map::new(
            |k: u64| m.endpoints.contains_key(k) && m.endpoints[k].realtime_id != realtime_id,
            |k: u64| m.endpoints[k],
        ),
        ..m
    }
}

/// The registry after `invalidate_all`: no binding and no lease is left.
pub open spec fn invalidate_all_spec(m: RegistryModel) -> RegistryModel {
    RegistryModel { bindings: Map::empty(), endpoints: Map::empty(), ..m }
}

/// The registry after `remove_endpoint(id)`: that lease is gone.
pub open spec fn release_spec(m: RegistryModel, id: RealtimeMediaEndpointId) -> RegistryModel {
    RegistryModel { endpoints: m.endpoints.remove(id.raw_value()), ..m }
}

/// What became of a lease's native driver when its release was asked for.
#[derive(Debug, Clone, Copy, PartialEq, Eq, Structural)]
pub enum DriverRelease {
    /// The driver is gone: there is no media queue to clear.
    Gone,
    /// The driver cleared the endpoint's media queue.
    Cleared,
    /// The driver could not clear the endpoint's media queue.
    ClearFailed,
}

/// The registry and result of `release_endpoint`: a missing lease is no
/// error; when the driver could not clear its queue the lease stays visible
/// so the caller can retry; otherwise the lease goes.
pub open spec fn release_endpoint_spec(m: RegistryModel, id: RealtimeMediaEndpointId, driver: DriverRelease) -> (
    RegistryModel,
    Result<(), RealtimeMediaError>,
) {
    if !m.endpoints.contains_key(id.raw_value()) {
        (m, Ok(()))
    } else if driver == DriverRelease::ClearFailed {
        (m, Err(RealtimeMediaError::DriverUnavailable))
    } else {
        (release_spec(m, id), Ok(()))
    }
}

/// Whether a lease for this realtime ID, peer, runtime generation, session
/// generation and direction already exists.
pub open spec fn has_duplicate_lease(
    m: RegistryModel,
    realtime_id: Seq<char>,
    peer_id: Seq<char>,
    session_generation: u64,
    direction: RealtimeMediaDirection,
) -> bool {
    exists|k: u64|
        #![trigger m.endpoints[k]]
        m.endpoints.contains_key(k) && m.endpoints[k].realtime_id == realtime_id
            && m.endpoints[k].peer_id == peer_id && m.endpoints[k].runtime_generation
            == m.runtime_generation && m.endpoints[k].session_generation == session_generation
            && m.endpoints[k].direction == direction
}

/// The registry state and result of `create`.
///
/// A stale expected generation is refused untouched. Otherwise the session
/// binding is kept when peer, generation and driver all match, and replaced
/// (dropping the old leases of the realtime ID) when any differs. A lease that
/// duplicates realtime ID, peer, generations and direction is refused; a new
/// lease gets the next identifier.
pub open spec fn create_spec(
    m: RegistryModel,
    realtime_id: Seq<char>,
    peer_id: Seq<char>,
    direction: RealtimeMediaDirection,
    expected_generation: u64,
    session_generation: u64,
    driver: u64,
) -> (RegistryModel, Result<RealtimeMediaEndpointId, RealtimeMediaError>) {
    let binding = BindingModel { peer_id, generation: session_generation, driver };
    if expected_generation != session_generation {
        (m, Err(RealtimeMediaError::StaleGeneration))
    } else {
        let m1 = if m.bindings.contains_key(realtime_id) && m.bindings[realtime_id] == binding {
            m
        } else {
            let m0 = invalidate_realtime_spec(m, realtime_id);
            RegistryModel { bindings: m0.bindings.insert(realtime_id, binding), ..m0 }
        };
        if has_duplicate_lease(m1, realtime_id, peer_id, session_generation, direction) {
            (m1, Err(RealtimeMediaError::DuplicateEndpoint))
        } else if m1.next_endpoint_id == u64::MAX {
            (m1, Err(RealtimeMediaError::Internal))
        } else {
            let lease = LeaseModel {
                realtime_id,
                peer_id,
                runtime_generation: m1.runtime_generation,
                session_generation,
                direction,
                driver,
            };
            (
                RegistryModel {
                    next_endpoint_id: (m1.next_endpoint_id + 1) as u64,
                    endpoints: m1.endpoints.insert(m1.next_endpoint_id, lease),
                    ..m1
                },
                Ok(endpoint_id_of(m1.next_endpoint_id)),
            )
        }
    }
}

/// The result of `endpoint_lease`: the lease, or `StaleEndpoint` when it is
/// missing or belongs to another runtime generation.
pub open spec fn endpoint_lease_spec(m: RegistryModel, id: RealtimeMediaEndpointId) -> Result<
    LeaseModel,
    RealtimeMediaError,
> {
    if !m.endpoints.contains_key(id.raw_value()) {
        Err(RealtimeMediaError::StaleEndpoint)
    } else if m.endpoints[id.raw_value()].runtime_generation != m.runtime_generation {
        Err(RealtimeMediaError::StaleEndpoint)
    } else {
        Ok(m.endpoints[id.raw_value()])
    }
}

/// The result of `snapshot_endpoint`: `endpoint_lease`, then the direction check.
pub open spec fn snapshot_endpoint_spec(
    m: RegistryModel,
    id: RealtimeMediaEndpointId,
    direction: RealtimeMediaDirection,
) -> Result<LeaseModel, RealtimeMediaError> {
    match endpoint_lease_spec(m, id) {
        Err(e) => Err(e),
        Ok(lease) => if lease.direction != direction {
            Err(RealtimeMediaError::DirectionMismatch)
        } else {
            Ok(lease)
        },
    }
}

/// The result of `validate_endpoint`, checks in order: existence, realtime ID
/// and peer, session generation, direction, runtime generation.
pub open spec fn validate_endpoint_spec(
    m: RegistryModel,
    id: RealtimeMediaEndpointId,
    realtime_id: Seq<char>,
    peer_id: Seq<char>,
    generation: u64,
    direction: RealtimeMediaDirection,
) -> Result<(), RealtimeMediaError> {
    if !m.endpoints.contains_key(id.raw_value()) {
        Err(RealtimeMediaError::StaleEndpoint)
    } else {
        let e = m.endpoints[id.raw_value()];
        if e.realtime_id != realtime_id || e.peer_id != peer_id {
            Err(RealtimeMediaError::PeerMismatch)
        } else if e.session_generation != generation {
            Err(RealtimeMediaError::StaleGeneration)
        } else if e.direction != direction {
            Err(RealtimeMediaError::DirectionMismatch)
        } else if e.runtime_generation != m.runtime_generation {
            Err(RealtimeMediaError::StaleEndpoint)
        } else {
            Ok(())
        }
    }
}

/// Whether `k` occurs among the first `n` elements of `s`.
pub open spec fn prefix_has(s: Seq<u64>, n: int, k: u64) -> bool {
    exists|w: int| 0 <= w < n && #[trigger] s[w] == k
}

/// The identifiers of the leases, each once.
fn endpoint_ids(m: &HashMap<u64, EndpointLease>) -> (ks: Vec<u64>)
    ensures
        ks@.no_duplicates(),
        forall|k: u64| ks@.contains(k) <==> m@.contains_key(k),
{
    let mut ks: Vec<u64> = Vec::new();
    let mut walk = VerusForLoopWrapper::new(m.keys(), Ghost(None));
    loop
        invariant
            walk.wf(),
            walk.iter.decrease() is Some,
            walk.seq() == spec_keys_iter(m).remaining(),
            ks@ == walk.seq().unref().take(walk.index()),
        ensures
            ks@ == spec_keys_iter(m).remaining().unref(),
        decreases walk.iter.decrease()->0,
    {
        match walk.next() {
            Some(k) => {
                ks.push(*k);
                proof {
                    assert(ks@ =~= walk.seq().unref().take(walk.index()));
                }
            },
            None => {
                proof {
                    assert(ks@ =~= walk.seq().unref());
                }
                break;
            },
        }
    }
    let ghost start = spec_keys_iter(m);
    proof {
        let s = start.remaining().unref();
        assert(ks@ =~= s);
        assert forall|i: int, j: int| 0 <= i < s.len() && 0 <= j < s.len() && i != j implies s[i] != s[j] by {
            assert(s[i] == *start.remaining()[i]);
            assert(s[j] == *start.remaining()[j]);
        }
        assert forall|k: u64| ks@.contains(k) <==> m@.contains_key(k) by {
            if ks@.contains(k) {
                assert(s.to_set().contains(k));
            }
            if m@.contains_key(k) {
                assert(s.to_set().contains(k));
            }
        }
    }
    ks
}

impl RealtimeMediaRegistry {
    pub closed spec fn model(&self) -> RegistryModel {
        RegistryModel {
            runtime_generation: self.runtime_generation,
            next_endpoint_id: self.next_endpoint_id,
            bindings: self.session_bindings@.map_values(|b: SessionBinding| b@),
            endpoints: self.endpoints@.map_values(|e: EndpointLease| e@),
        }
    }

    /// Internal consistency: both maps are well formed and every lease
    /// identifier is below the next one to be handed out.
    pub closed spec fn wf(&self) -> bool {
        &&& self.session_bindings.wf()
        &&& forall|k: u64| #[trigger] self.endpoints@.contains_key(k) ==> k < self.next_endpoint_id
    }

    /// Every lease identifier is below the next one to be handed out, so a
    /// new identifier never names a live lease.
    pub proof fn lemma_keys_below_next(&self)
        requires
            self.wf(),
        ensures
            forall|k: u64| #[trigger] self@.endpoints.contains_key(k) ==> k < self@.next_endpoint_id,
    {
    }

    /// A registry for one runtime generation, whose identifiers start at
    /// `first_endpoint_id`.
    pub fn new(runtime_generation: u64, first_endpoint_id: u64) -> (r: Self)
        ensures
            r.wf(),
            r@ == (RegistryModel {
                runtime_generation,
                next_endpoint_id: first_endpoint_id,
                bindings: Map::empty(),
                endpoints: Map::empty(),
            }),
    {
        let r = RealtimeMediaRegistry {
            runtime_generation,
            next_endpoint_id: first_endpoint_id,
            session_bindings: StrMap::new(),
            endpoints: HashMap::new(),
        };
        assert(r@.bindings =~= Map::empty());
        assert(r@.endpoints =~= Map::empty());
        r
    }

    pub fn runtime_generation(&self) -> (g: u64)
        ensures
            g == self@.runtime_generation,
    {
        self.runtime_generation
    }

    /// Drops the binding and every lease of `realtime_id`.
    pub fn invalidate_realtime(&mut self, realtime_id: &str)
        requires
            old(self).wf(),
        ensures
            final(self).wf(),
            final(self)@ == invalidate_realtime_spec(old(self)@, realtime_id@),
    {
        let ghost old_model = self@;
        let ghost old_bindings = self.session_bindings@;
        let _ = self.session_bindings.remove(realtime_id);
        proof {
            assert(self@.bindings =~= old_model.bindings.remove(realtime_id@));
        }
        let ghost raw = self.endpoints@;
        let ids = endpoint_ids(&self.endpoints);
        let mut doomed: Vec<u64> = Vec::new();
        let n = ids.len();
        let mut i: usize = 0;
        while i < n
            invariant
                self.wf(),
                self.endpoints@ == raw,
                n == ids@.len(),
                i <= n,
                forall|k: u64| ids@.contains(k) <==> raw.contains_key(k),
                self@ == invalidate_realtime_spec(old_model, realtime_id@).with_endpoints(old_model.endpoints),
                forall|k: u64|
                    doomed@.contains(k) <==> (exists|j: int|
                        0 <= j < i && #[trigger] ids@[j] == k && raw[k].realtime_id@ == realtime_id@),
            decreases n - i,
        {
            let k = ids[i];
            let ghost old_doomed = doomed@;
            assert(ids@.contains(k));
            let hit = match self.endpoints.get(&k) {
                Some(lease) => str_eq(lease.realtime_id.as_str(), realtime_id),
                None => false,
            };
            if hit {
                doomed.push(k);
            }
            proof {
                assert(hit == (raw[k].realtime_id@ == realtime_id@));
                assert forall|kk: u64|
                    doomed@.contains(kk) <==> (exists|j: int|
                        0 <= j < i + 1 && #[trigger] ids@[j] == kk && raw[kk].realtime_id@ == realtime_id@) by {
                    if doomed@.contains(kk) {
                        if old_doomed.contains(kk) {
                            let j = choose|j: int|
                                0 <= j < i && #[trigger] ids@[j] == kk && raw[kk].realtime_id@ == realtime_id@;
                            assert(0 <= j < i + 1);
                        } else {
                            let w = choose|w: int| 0 <= w < doomed@.len() && doomed@[w] == kk;
                            if w < old_doomed.len() {
                                assert(old_doomed[w] == kk);
                            }
                            assert(kk == k);
                            assert(ids@[i as int] == kk);
                        }
                    }
                    if exists|j: int| 0 <= j < i + 1 && #[trigger] ids@[j] == kk && raw[kk].realtime_id@ == realtime_id@ {
                        let j = choose|j: int|
                            0 <= j < i + 1 && #[trigger] ids@[j] == kk && raw[kk].realtime_id@ == realtime_id@;
                        if j < i {
                            assert(old_doomed.contains(kk));
                            let w = choose|w: int| 0 <= w < old_doomed.len() && old_doomed[w] == kk;
                            assert(doomed@[w] == kk);
                        } else {
                            assert(kk == k);
                            assert(hit);
                            assert(doomed@[doomed@.len() - 1] == kk);
                        }
                    }
                }
            }
            i += 1;
        }
        let ghost before = self@;
        let mut j: usize = 0;
        while j < doomed.len()
            invariant
                self.wf(),
                self@.bindings == before.bindings,
                self@.runtime_generation == before.runtime_generation,
                self@.next_endpoint_id == before.next_endpoint_id,
                before.endpoints == old_model.endpoints,
                n == ids@.len(),
                forall|k: u64| ids@.contains(k) <==> raw.contains_key(k),
                old_model.endpoints == raw.map_values(|e: EndpointLease| e@),
                forall|k: u64|
                    doomed@.contains(k) <==> (exists|jj: int|
                        0 <= jj < n && #[trigger] ids@[jj] == k && raw[k].realtime_id@ == realtime_id@),
                j <= doomed@.len(),
                forall|k: u64|
                    #[trigger] self@.endpoints.contains_key(k) <==> (before.endpoints.contains_key(k)
                        && !prefix_has(doomed@, j as int, k)),
                forall|k: u64| #[trigger] self@.endpoints.contains_key(k) ==> self@.endpoints[k] == before.endpoints[k],
            decreases doomed@.len() - j,
        {
            let k = doomed[j];
            let ghost prev = self@;
            let _ = self.endpoints.remove(&k);
            proof {
                assert(self@.endpoints =~= prev.endpoints.remove(k));
                assert forall|kk: u64|
                    #[trigger] self@.endpoints.contains_key(kk) <==> (before.endpoints.contains_key(kk)
                        && !prefix_has(doomed@, j + 1, kk)) by {
                    if prefix_has(doomed@, j as int, kk) {
                        let w = choose|w: int| 0 <= w < j && #[trigger] doomed@[w] == kk;
                        assert(0 <= w < j + 1 && doomed@[w] == kk);
                    }
                    if prefix_has(doomed@, j + 1, kk) && kk != k {
                        let w = choose|w: int| 0 <= w < j + 1 && #[trigger] doomed@[w] == kk;
                        assert(w != j);
                    }
                    if kk == k {
                        assert(doomed@[j as int] == kk);
                    }
                }
            }
            j += 1;
        }
        proof {
            let target = invalidate_realtime_spec(old_model, realtime_id@);
            assert forall|k: u64| #[trigger] self@.endpoints.contains_key(k) <==> target.endpoints.contains_key(k) by {
                if prefix_has(doomed@, doomed@.len() as int, k) {
                    let w = choose|w: int| 0 <= w < doomed@.len() && #[trigger] doomed@[w] == k;
                    assert(doomed@.contains(k));
                }
                if doomed@.contains(k) {
                    let w = choose|w: int| 0 <= w < doomed@.len() && doomed@[w] == k;
                    assert(prefix_has(doomed@, doomed@.len() as int, k));
                }
                if old_model.endpoints.contains_key(k) && old_model.endpoints[k].realtime_id == realtime_id@ {
                    assert(raw.contains_key(k));
                    assert(ids@.contains(k));
                    let jj = choose|jj: int| 0 <= jj < ids@.len() && ids@[jj] == k;
                    assert(raw[k].realtime_id@ == realtime_id@);
                    assert(doomed@.contains(k));
                }
            }
            assert(self@.endpoints =~= target.endpoints);
        }
    }

    /// Drops every binding and lease.
    pub fn invalidate_all(&mut self)
        requires
            old(self).wf(),
        ensures
            final(self).wf(),
            final(self)@ == invalidate_all_spec(old(self)@),
    {
        self.session_bindings.clear();
        self.endpoints.clear();
        assert(self@.bindings =~= Map::empty());
        assert(self@.endpoints =~= Map::empty());
    }

    fn find_duplicate(
        &self,
        realtime_id: &str,
        peer_id: &str,
        session_generation: u64,
        direction: RealtimeMediaDirection,
    ) -> (r: bool)
        requires
            self.wf(),
        ensures
            r == has_duplicate_lease(self@, realtime_id@, peer_id@, session_generation, direction),
    {
        let ids = endpoint_ids(&self.endpoints);
        let n = ids.len();
        let mut i: usize = 0;
        while i < n
            invariant
                self.wf(),
                n == ids@.len(),
                i <= n,
                forall|k: u64| ids@.contains(k) <==> self.endpoints@.contains_key(k),
                forall|j: int|
                    0 <= j < i ==> {
                        let e = #[trigger] self@.endpoints[ids@[j]];
                        !(e.realtime_id == realtime_id@ && e.peer_id == peer_id@ && e.runtime_generation
                            == self.runtime_generation && e.session_generation == session_generation
                            && e.direction == direction)
                    },
            decreases n - i,
        {
            let k = ids[i];
            assert(ids@.contains(k));
            match self.endpoints.get(&k) {
                Some(e) => {
                    if str_eq(e.realtime_id.as_str(), realtime_id) && str_eq(e.peer_id.as_str(), peer_id)
                        && e.runtime_generation == self.runtime_generation && e.session_generation
                        == session_generation && e.direction == direction {
                        proof {
                            assert(self@.endpoints.contains_key(k));
                            assert(self@.endpoints[k] == e@);
                        }
                        return true;
                    }
                },
                None => {},
            }
            proof {
                assert(self@.endpoints[ids@[i as int]] == self.endpoints@[k]@);
            }
            i += 1;
        }
        proof {
            if has_duplicate_lease(self@, realtime_id@, peer_id@, session_generation, direction) {
                let k = choose|k: u64|
                    #![trigger self@.endpoints[k]]
                    self@.endpoints.contains_key(k) && self@.endpoints[k].realtime_id == realtime_id@
                        && self@.endpoints[k].peer_id == peer_id@
                        && self@.endpoints[k].runtime_generation == self@.runtime_generation
                        && self@.endpoints[k].session_generation == session_generation
                        && self@.endpoints[k].direction == direction;
                assert(ids@.contains(k));
                let j = choose|j: int| 0 <= j < ids@.len() && ids@[j] == k;
                assert(self@.endpoints[ids@[j]] == self@.endpoints[k]);
            }
        }
        false
    }

    /// Registers a lease for `realtime_id`/`peer_id` in one direction, bound to
    /// the session generation and the driver identified by `driver`.
    pub fn create(
        &mut self,
        realtime_id: &str,
        peer_id: &str,
        direction: RealtimeMediaDirection,
        expected_generation: u64,
        session_generation: u64,
        driver: u64,
    ) -> (r: Result<RealtimeMediaEndpointId, RealtimeMediaError>)
        requires
            old(self).wf(),
        ensures
            final(self).wf(),
            (final(self)@, r) == create_spec(
                old(self)@,
                realtime_id@,
                peer_id@,
                direction,
                expected_generation,
                session_generation,
                driver,
            ),
            r matches Ok(id) ==> {
                &&& !old(self)@.endpoints.contains_key(id.raw_value())
                &&& final(self)@.endpoints.contains_key(id.raw_value())
                &&& final(self)@.endpoints[id.raw_value()] == (LeaseModel {
                    realtime_id: realtime_id@,
                    peer_id: peer_id@,
                    runtime_generation: old(self)@.runtime_generation,
                    session_generation,
                    direction,
                    driver,
                })
                &&& validate_endpoint_spec(final(self)@, id, realtime_id@, peer_id@, session_generation, direction)
                    == Ok::<(), RealtimeMediaError>(())
                &&& endpoint_lease_spec(final(self)@, id) is Ok
            },
            expected_generation == session_generation ==> {
                &&& final(self)@.bindings.contains_key(realtime_id@)
                &&& final(self)@.bindings[realtime_id@] == (BindingModel {
                    peer_id: peer_id@,
                    generation: session_generation,
                    driver,
                })
                &&& forall|k: u64| #[trigger]
                    old(self)@.endpoints.contains_key(k) && old(self)@.endpoints[k].realtime_id != realtime_id@
                        ==> final(self)@.endpoints.contains_key(k) && final(self)@.endpoints[k]
                        == old(self)@.endpoints[k]
            },
            expected_generation == session_generation && !(old(self)@.bindings.contains_key(realtime_id@)
                && old(self)@.bindings[realtime_id@] == (BindingModel {
                peer_id: peer_id@,
                generation: session_generation,
                driver,
            })) ==> forall|k: u64| #[trigger]
                old(self)@.endpoints.contains_key(k) && old(self)@.endpoints[k].realtime_id == realtime_id@
                    ==> !final(self)@.endpoints.contains_key(k),
    {
        if expected_generation != session_generation {
            return Err(RealtimeMediaError::StaleGeneration);
        }
        let ghost m = self@;
        let ghost binding = BindingModel { peer_id: peer_id@, generation: session_generation, driver };
        let keep = match self.session_bindings.get(realtime_id) {
            Some(existing) => str_eq(existing.peer_id.as_str(), peer_id) && existing.generation
                == session_generation && existing.driver == driver,
            None => false,
        };
        proof {
            if self.session_bindings@.contains_key(realtime_id@) {
                assert(m.bindings[realtime_id@] == self.session_bindings@[realtime_id@]@);
            }
            assert(keep == (m.bindings.contains_key(realtime_id@) && m.bindings[realtime_id@] == binding));
        }
        if !keep {
            self.invalidate_realtime(realtime_id);
            let ghost m0 = self@;
            self.session_bindings.insert(
                realtime_id.to_owned(),
                SessionBinding { peer_id: peer_id.to_owned(), generation: session_generation, driver },
            );
            proof {
                assert(self@.bindings =~= m0.bindings.insert(realtime_id@, binding));
            }
        }
        let ghost m1 = self@;
        if self.find_duplicate(realtime_id, peer_id, session_generation, direction) {
            return Err(RealtimeMediaError::DuplicateEndpoint);
        }
        if self.next_endpoint_id == u64::MAX {
            return Err(RealtimeMediaError::Internal);
        }
        let id = self.next_endpoint_id;
        let lease = EndpointLease {
            realtime_id: realtime_id.to_owned(),
            peer_id: peer_id.to_owned(),
            runtime_generation: self.runtime_generation,
            session_generation,
            direction,
            driver,
        };
        let ghost lease_model = lease@;
        self.endpoints.insert(id, lease);
        self.next_endpoint_id = id + 1;
        proof {
            assert(self@.endpoints =~= m1.endpoints.insert(id, lease_model));
        }
        Ok(RealtimeMediaEndpointId(id))
    }

    /// The lease behind `endpoint_id` when it is live in this runtime generation.
    pub fn endpoint_lease(&self, endpoint_id: RealtimeMediaEndpointId) -> (r: Result<
        EndpointLease,
        RealtimeMediaError,
    >)
        requires
            self.wf(),
        ensures
            r.is_ok() == endpoint_lease_spec(self@, endpoint_id).is_ok(),
            r matches Ok(lease) ==> endpoint_lease_spec(self@, endpoint_id) == Ok::<
                LeaseModel,
                RealtimeMediaError,
            >(lease@),
            r matches Err(e) ==> endpoint_lease_spec(self@, endpoint_id) == Err::<
                LeaseModel,
                RealtimeMediaError,
            >(e),
    {
        match self.endpoints.get(&endpoint_id.0) {
            None => Err(RealtimeMediaError::StaleEndpoint),
            Some(endpoint) => {
                if endpoint.runtime_generation != self.runtime_generation {
                    Err(RealtimeMediaError::StaleEndpoint)
                } else {
                    Ok(endpoint.duplicate())
                }
            },
        }
    }

    /// `endpoint_lease`, refusing a lease of the other direction.
    pub fn snapshot_endpoint(
        &self,
        endpoint_id: RealtimeMediaEndpointId,
        direction: RealtimeMediaDirection,
    ) -> (r: Result<EndpointLease, RealtimeMediaError>)
        requires
            self.wf(),
        ensures
            r.is_ok() == snapshot_endpoint_spec(self@, endpoint_id, direction).is_ok(),
            r matches Ok(lease) ==> snapshot_endpoint_spec(self@, endpoint_id, direction) == Ok::<
                LeaseModel,
                RealtimeMediaError,
            >(lease@),
            r matches Err(e) ==> snapshot_endpoint_spec(self@, endpoint_id, direction) == Err::<
                LeaseModel,
                RealtimeMediaError,
            >(e),
    {
        let endpoint = self.endpoint_lease(endpoint_id)?;
        if endpoint.direction != direction {
            return Err(RealtimeMediaError::DirectionMismatch);
        }
        Ok(endpoint)
    }

    /// The session generation recorded by a lease, if it exists.
    pub fn session_generation(&self, endpoint_id: RealtimeMediaEndpointId) -> (r: Option<u64>)
        requires
            self.wf(),
        ensures
            r == (if self@.endpoints.contains_key(endpoint_id.raw_value()) {
                Some(self@.endpoints[endpoint_id.raw_value()].session_generation)
            } else {
                None
            }),
    {
        match self.endpoints.get(&endpoint_id.0) {
            Some(endpoint) => Some(endpoint.session_generation),
            None => None,
        }
    }

    /// Checks a platform-owner capability against the lease, without changing
    /// any state.
    pub fn validate_endpoint(
        &self,
        endpoint_id: RealtimeMediaEndpointId,
        realtime_id: &str,
        peer_id: &str,
        generation: u64,
        direction: RealtimeMediaDirection,
    ) -> (r: Result<(), RealtimeMediaError>)
        requires
            self.wf(),
        ensures
            r == validate_endpoint_spec(self@, endpoint_id, realtime_id@, peer_id@, generation, direction),
    {
        let endpoint = match self.endpoints.get(&endpoint_id.0) {
            Some(endpoint) => endpoint,
            None => return Err(RealtimeMediaError::StaleEndpoint),
        };
        if !str_eq(endpoint.realtime_id.as_str(), realtime_id) || !str_eq(
            endpoint.peer_id.as_str(),
            peer_id,
        ) {
            return Err(RealtimeMediaError::PeerMismatch);
        }
        if endpoint.session_generation != generation {
            return Err(RealtimeMediaError::StaleGeneration);
        }
        if endpoint.direction != direction {
            return Err(RealtimeMediaError::DirectionMismatch);
        }
        if endpoint.runtime_generation != self.runtime_generation {
            return Err(RealtimeMediaError::StaleEndpoint);
        }
        Ok(())
    }

    /// Releases a lease once its native driver was dealt with (see
    /// `release_endpoint_spec`).
    pub fn release_endpoint(&mut self, endpoint_id: RealtimeMediaEndpointId, driver: DriverRelease) -> (r: Result<
        (),
        RealtimeMediaError,
    >)
        requires
            old(self).wf(),
        ensures
            final(self).wf(),
            (final(self)@, r) == release_endpoint_spec(old(self)@, endpoint_id, driver),
    {
        if !self.endpoints.contains_key(&endpoint_id.0) {
            return Ok(());
        }
        if driver == DriverRelease::ClearFailed {
            return Err(RealtimeMediaError::DriverUnavailable);
        }
        self.remove_endpoint(endpoint_id);
        Ok(())
    }

    /// Forgets one lease (release is idempotent: a missing lease is no error).
    pub fn remove_endpoint(&mut self, endpoint_id: RealtimeMediaEndpointId)
        requires
            old(self).wf(),
        ensures
            final(self).wf(),
            final(self)@ == release_spec(old(self)@, endpoint_id),
    {
        let ghost m = self@;
        let _ = self.endpoints.remove(&endpoint_id.0);
        assert(self@.endpoints =~= m.endpoints.remove(endpoint_id.raw_value()));
    }
}

impl View for RealtimeMediaRegistry {
    type V = RegistryModel;

    open spec fn view(&self) -> RegistryModel {
        self.model()
    }
}

/// The registry and result of `create_endpoint`: the identifiers are
/// checked, then the session's driver and generation are looked up, the
/// expected generation must be the session's, and the lease is created.
pub open spec fn create_endpoint_spec(
    sessions: SessionsModel,
    m: RegistryModel,
    realtime_id: Seq<char>,
    peer_id: Seq<char>,
    direction: RealtimeMediaDirection,
    expected_generation: u64,
) -> (RegistryModel, Result<RealtimeMediaEndpointId, RealtimeMediaError>) {
    let ids = validate_identifiers_spec(vstd::utf8::encode_utf8(realtime_id), vstd::utf8::encode_utf8(peer_id));
    let found = media_driver_spec(sessions, realtime_id, peer_id);
    if ids is Err {
        (m, Err(ids->Err_0))
    } else if found is Err {
        (m, Err(found->Err_0))
    } else if expected_generation != found->Ok_0.1 {
        (m, Err(RealtimeMediaError::StaleGeneration))
    } else {
        create_spec(m, realtime_id, peer_id, direction, expected_generation, found->Ok_0.1, found->Ok_0.0)
    }
}

/// Acquires an endpoint lease for a live realtime session: the session's
/// native driver and generation bind the lease (see `create_endpoint_spec`).
pub fn create_endpoint(
    sessions: &RealtimeSessions,
    registry: &mut RealtimeMediaRegistry,
    realtime_id: &str,
    peer_id: &str,
    direction: RealtimeMediaDirection,
    expected_generation: u64,
) -> (r: Result<RealtimeMediaEndpointId, RealtimeMediaError>)
    requires
        sessions.wf(),
        old(registry).wf(),
    ensures
        final(registry).wf(),
        (final(registry)@, r) == create_endpoint_spec(
            sessions@,
            old(registry)@,
            realtime_id@,
            peer_id@,
            direction,
            expected_generation,
        ),
{
    validate_identifiers(realtime_id, peer_id)?;
    let (driver, session_generation) = sessions.media_endpoint_driver(realtime_id, peer_id)?;
    if expected_generation != session_generation {
        return Err(RealtimeMediaError::StaleGeneration);
    }
    registry.create(realtime_id, peer_id, direction, expected_generation, session_generation, driver)
}

/// A lease that `create` hands out validates for exactly the realtime ID,
/// peer, generation and direction it was created with.
pub proof fn lemma_created_endpoint_validates(
    m: RegistryModel,
    realtime_id: Seq<char>,
    peer_id: Seq<char>,
    direction: RealtimeMediaDirection,
    generation: u64,
    driver: u64,
)
    requires
        create_spec(m, realtime_id, peer_id, direction, generation, generation, driver).1 is Ok,
    ensures
        ({
            let (post, r) = create_spec(m, realtime_id, peer_id, direction, generation, generation, driver);
            &&& validate_endpoint_spec(post, r->Ok_0, realtime_id, peer_id, generation, direction) == Ok::<
                (),
                RealtimeMediaError,
            >(())
            &&& endpoint_lease_spec(post, r->Ok_0) is Ok
        }),
{
}

/// A fresh lease never reuses an identifier that is live in the registry, and
/// every earlier lease that survives keeps its identifier and contents.
pub proof fn lemma_create_keeps_other_leases(
    m: RegistryModel,
    realtime_id: Seq<char>,
    peer_id: Seq<char>,
    direction: RealtimeMediaDirection,
    generation: u64,
    driver: u64,
    k: u64,
)
    requires
        create_spec(m, realtime_id, peer_id, direction, generation, generation, driver).1 is Ok,
        forall|x: u64| #[trigger] m.endpoints.contains_key(x) ==> x < m.next_endpoint_id,
        m.endpoints.contains_key(k),
        m.endpoints[k].realtime_id != realtime_id,
    ensures
        ({
            let (post, r) = create_spec(m, realtime_id, peer_id, direction, generation, generation, driver);
            &&& r->Ok_0.raw_value() != k
            &&& post.endpoints.contains_key(k)
            &&& post.endpoints[k] == m.endpoints[k]
        }),
{
}

/// Identifiers never repeat: a lease created after another one, with any
/// invalidation or release in between, gets a larger identifier.
pub proof fn lemma_endpoint_ids_never_repeat(
    m: RegistryModel,
    first: (Seq<char>, Seq<char>, RealtimeMediaDirection, u64, u64, u64),
    dropped_realtime_id: Seq<char>,
    released: u64,
    second: (Seq<char>, Seq<char>, RealtimeMediaDirection, u64, u64, u64),
)
    requires
        create_spec(m, first.0, first.1, first.2, first.3, first.4, first.5).1 is Ok,
    ensures
        ({
            let (m1, r1) = create_spec(m, first.0, first.1, first.2, first.3, first.4, first.5);
            let between = invalidate_realtime_spec(
                RegistryModel { endpoints: m1.endpoints.remove(released), ..m1 },
                dropped_realtime_id,
            );
            let (_, r2) = create_spec(between, second.0, second.1, second.2, second.3, second.4, second.5);
            r2 matches Ok(id2) ==> id2.raw_value() > r1->Ok_0.raw_value()
        }),
{
}

/// At most one live lease per realtime ID, peer, runtime and session
/// generation and direction: creating the same lease again is refused and
/// changes nothing, while the other direction, held by no lease before,
/// gets an identifier of its own (the next one), as long as identifiers
/// remain.
pub proof fn lemma_one_endpoint_per_direction(
    m: RegistryModel,
    realtime_id: Seq<char>,
    peer_id: Seq<char>,
    direction: RealtimeMediaDirection,
    other: RealtimeMediaDirection,
    generation: u64,
    driver: u64,
)
    requires
        create_spec(m, realtime_id, peer_id, direction, generation, generation, driver).1 is Ok,
        other != direction,
        !has_duplicate_lease(m, realtime_id, peer_id, generation, other),
        m.next_endpoint_id + 1 < u64::MAX,
    ensures
        ({
            let (m1, r1) = create_spec(m, realtime_id, peer_id, direction, generation, generation, driver);
            let (m2, r2) = create_spec(m1, realtime_id, peer_id, other, generation, generation, driver);
            &&& create_spec(m1, realtime_id, peer_id, direction, generation, generation, driver) == (
                m1,
                Err::<RealtimeMediaEndpointId, RealtimeMediaError>(RealtimeMediaError::DuplicateEndpoint),
            )
            &&& r2 matches Ok(id2) && id2 != r1->Ok_0 && id2.raw_value() == r1->Ok_0.raw_value() + 1
        }),
{
    let binding = BindingModel { peer_id, generation, driver };
    let (m1, r1) = create_spec(m, realtime_id, peer_id, direction, generation, generation, driver);
    let m0 = if m.bindings.contains_key(realtime_id) && m.bindings[realtime_id] == binding {
        m
    } else {
        let mi = invalidate_realtime_spec(m, realtime_id);
        RegistryModel { bindings: mi.bindings.insert(realtime_id, binding), ..mi }
    };
    let k = r1->Ok_0.raw_value();
    assert(k == m0.next_endpoint_id);
    assert(m1.endpoints.contains_key(k));
    assert(m1.endpoints[k].realtime_id == realtime_id);
    assert(has_duplicate_lease(m1, realtime_id, peer_id, generation, direction));
    assert(m1.bindings[realtime_id] == binding);
    if has_duplicate_lease(m1, realtime_id, peer_id, generation, other) {
        let j = choose|j: u64|
            #![trigger m1.endpoints[j]]
            m1.endpoints.contains_key(j) && m1.endpoints[j].realtime_id == realtime_id
                && m1.endpoints[j].peer_id == peer_id && m1.endpoints[j].runtime_generation
                == m1.runtime_generation && m1.endpoints[j].session_generation == generation
                && m1.endpoints[j].direction == other;
        assert(j != k);
        assert(m0.endpoints.contains_key(j) && m0.endpoints[j] == m1.endpoints[j]);
        assert(m.endpoints.contains_key(j) && m.endpoints[j] == m1.endpoints[j]);
        assert(has_duplicate_lease(m, realtime_id, peer_id, generation, other));
    }
}

/// Releasing is idempotent: a second release of the same lease changes
/// nothing, and after every lease was invalidated (as on runtime stop) a
/// release changes nothing either.
pub proof fn lemma_release_idempotent(m: RegistryModel, id: RealtimeMediaEndpointId)
    ensures
        release_spec(release_spec(m, id), id) == release_spec(m, id),
        release_spec(invalidate_all_spec(m), id) == invalidate_all_spec(m),
{
    assert(release_spec(release_spec(m, id), id).endpoints =~= release_spec(m, id).endpoints);
    assert(release_spec(invalidate_all_spec(m), id).endpoints =~= invalidate_all_spec(m).endpoints);
}

/// After `invalidate_realtime`, no lease of that realtime ID validates or
/// can be snapshotted.
pub proof fn lemma_invalidated_endpoint_is_stale(
    m: RegistryModel,
    realtime_id: Seq<char>,
    id: RealtimeMediaEndpointId,
    peer_id: Seq<char>,
    generation: u64,
    direction: RealtimeMediaDirection,
)
    ensures
        validate_endpoint_spec(invalidate_realtime_spec(m, realtime_id), id, realtime_id, peer_id, generation, direction)
            is Err,
{
}

} // verus!
