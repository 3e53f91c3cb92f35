//! Realtime sessions: peer binding, signaling revisions and generation
//! ownership.
//!
//! A session is bound to one peer and one cross-device shared session
//! instance. Three counters order its signaling: `revision` (the local WebRTC
//! signaling state), `remote_revision` (the highest remote signal accepted)
//! and `ice_revision` (the active ICE generation). The generation is owned by
//! this table and changes whenever a new session is inserted for an ID.

use crate::realtime::wire::{
    consent_check_spec, signal_kind_of, text_bytes, valid_peer_binding, valid_realtime_id,
    valid_shared_session_instance_id, validate_peer, validate_realtime_id,
    validate_screen_share_consent_at, validate_shared_session_instance_id, validate_signal,
    validate_signal_spec, RealtimeRejection, RealtimeSignalKind, ScreenShareConsent,
};
use crate::realtime_media::RealtimeMediaError;
use crate::strmap::{key_views, str_eq, StrMap};
use vstd::prelude::*;
use vstd::string::StringSliceAdditionalSpecFns;

verus! {

/// Lifecycle states reported for a realtime session.
#[derive(Debug, Clone, Copy, PartialEq, Eq, Structural)]
pub enum RealtimeSessionState {
    Negotiating,
    Connected,
    Restarting,
    Closed,
    Failed,
}

/// One realtime session. `driver` identifies the native I/O driver that owns
/// the peer connection (`None` when the session owns its peer directly).
pub struct RealtimeSession {
    pub peer_id: String,
    pub shared_session_instance_id: String,
    pub connection_session_id: Option<u64>,
    pub driver: Option<u64>,
    pub revision: u64,
    pub remote_revision: u64,
    pub ice_revision: u64,
    pub seen_candidates: Vec<Vec<u8>>,
}

pub struct SessionModel {
    pub peer_id: Seq<char>,
    pub shared_session_instance_id: Seq<char>,
    pub connection_session_id: Option<u64>,
    pub driver: Option<u64>,
    pub revision: u64,
    pub remote_revision: u64,
    pub ice_revision: u64,
    pub seen_candidates: Seq<Seq<u8>>,
}

impl View for RealtimeSession {
    type V = SessionModel;

    open spec fn view(&self) -> SessionModel {
        SessionModel {
            peer_id: self.peer_id@,
            shared_session_instance_id: self.shared_session_instance_id@,
            connection_session_id: self.connection_session_id,
            driver: self.driver,
            revision: self.revision,
            remote_revision: self.remote_revision,
            ice_revision: self.ice_revision,
            seen_candidates: self.seen_candidates@.map_values(|c: Vec<u8>| c@),
        }
    }
}

/// A signal to send to the peer of a realtime session.
pub struct OutboundSignal {
    pub realtime_id: String,
    pub peer_id: String,
    pub shared_session_instance_id: String,
    pub kind: RealtimeSignalKind,
    pub revision: u64,
    pub payload: Vec<u8>,
}

/// The payload of a Close: the bytes of `close`.
pub open spec fn close_payload() -> Seq<u8> {
    seq![99u8, 108, 111, 115, 101]
}

/// Byte-wise equality of two byte strings.
pub fn bytes_eq(a: &[u8], b: &[u8]) -> (r: bool)
    ensures
        r == (a@ == b@),
{
    if a.len() != b.len() {
        return false;
    }
    let mut i: usize = 0;
    while i < a.len()
        invariant
            a@.len() == b@.len(),
            i <= a@.len(),
            forall|j: int| 0 <= j < i ==> a@[j] == b@[j],
        decreases a@.len() - i,
    {
        if a[i] != b[i] {
            return false;
        }
        i += 1;
    }
    assert(a@ =~= b@);
    true
}

/// Whether `payload` is among `seen`.
pub fn contains_bytes(seen: &Vec<Vec<u8>>, payload: &[u8]) -> (r: bool)
    ensures
        r == seen@.map_values(|c: Vec<u8>| c@).contains(payload@),
{
    let ghost s = seen@.map_values(|c: Vec<u8>| c@);
    let mut i: usize = 0;
    while i < seen.len()
        invariant
            s == seen@.map_values(|c: Vec<u8>| c@),
            i <= seen@.len(),
            forall|j: int| 0 <= j < i ==> s[j] != payload@,
        decreases seen@.len() - i,
    {
        if bytes_eq(seen[i].as_slice(), payload) {
            assert(s[i as int] == payload@);
            return true;
        }
        i += 1;
    }
    false
}

/// The session table.
pub struct SessionsModel {
    pub sessions: Map<Seq<char>, SessionModel>,
    pub generations: Map<Seq<char>, u64>,
    pub next_generation: u64,
}

pub struct RealtimeSessions {
    sessions: StrMap<RealtimeSession>,
    generations: StrMap<u64>,
    next_generation: u64,
}

/// Checks of an inbound signal against the bound session, before any WebRTC
/// work. A close is checked by `take_remote_closed_session`.
pub open spec fn admit_inbound_spec(
    m: SessionsModel,
    realtime_id: Seq<char>,
    peer_id: Seq<char>,
    shared_session_instance_id: Seq<char>,
    kind: RealtimeSignalKind,
    revision: u64,
    payload: Seq<u8>,
) -> Result<(), RealtimeRejection> {
    let s = m.sessions[realtime_id];
    if !valid_shared_session_instance_id(text_bytes(shared_session_instance_id)) {
        Err(RealtimeRejection::InvalidSharedSessionInstanceId)
    } else if m.sessions.contains_key(realtime_id) && s.peer_id != peer_id {
        Err(RealtimeRejection::SignalPeerMismatch)
    } else if m.sessions.contains_key(realtime_id) && s.shared_session_instance_id
        != shared_session_instance_id {
        Err(RealtimeRejection::SignalSessionInstanceMismatch)
    } else if m.sessions.contains_key(realtime_id) && kind == RealtimeSignalKind::IceCandidate
        && revision != s.ice_revision {
        Err(RealtimeRejection::StaleIceGeneration)
    } else if m.sessions.contains_key(realtime_id) && kind == RealtimeSignalKind::IceCandidate
        && s.seen_candidates.contains(payload) {
        Err(RealtimeRejection::ReplayedIceCandidate)
    } else if m.sessions.contains_key(realtime_id) && kind != RealtimeSignalKind::IceCandidate
        && revision <= s.remote_revision {
        Err(RealtimeRejection::StaleSignalingRevision)
    } else if kind == RealtimeSignalKind::ScreenShareConsent {
        Err(RealtimeRejection::ConsentIsNotWebRtc)
    } else if kind == RealtimeSignalKind::Unspecified || kind == RealtimeSignalKind::WebRtcClose {
        Err(RealtimeRejection::UnsupportedSignalKind)
    } else if kind != RealtimeSignalKind::WebRtcOffer && !m.sessions.contains_key(realtime_id) {
        Err(RealtimeRejection::SessionDoesNotExist)
    } else {
        Ok(())
    }
}

/// The table after inserting a session under a fresh generation.
pub open spec fn insert_new_spec(m: SessionsModel, realtime_id: Seq<char>, s: SessionModel) -> SessionsModel {
    SessionsModel {
        sessions: m.sessions.insert(realtime_id, s),
        generations: m.generations.insert(realtime_id, m.next_generation),
        next_generation: m.next_generation.wrapping_add(1),
    }
}

/// The table after inserting a session, keeping an existing generation.
pub open spec fn insert_existing_spec(m: SessionsModel, realtime_id: Seq<char>, s: SessionModel) -> SessionsModel {
    if m.generations.contains_key(realtime_id) {
        SessionsModel { sessions: m.sessions.insert(realtime_id, s), ..m }
    } else {
        insert_new_spec(m, realtime_id, s)
    }
}

/// The table after removing a session (and its generation).
pub open spec fn remove_spec(m: SessionsModel, realtime_id: Seq<char>) -> SessionsModel {
    SessionsModel {
        sessions: m.sessions.remove(realtime_id),
        generations: m.generations.remove(realtime_id),
        ..m
    }
}

/// The driver and generation a media endpoint of this session would use.
pub open spec fn media_driver_spec(m: SessionsModel, realtime_id: Seq<char>, peer_id: Seq<char>) -> Result<
    (u64, u64),
    RealtimeMediaError,
> {
    if !m.sessions.contains_key(realtime_id) {
        Err(RealtimeMediaError::UnknownRealtimeSession)
    } else if m.sessions[realtime_id].peer_id != peer_id {
        Err(RealtimeMediaError::PeerMismatch)
    } else if m.sessions[realtime_id].driver is None {
        Err(RealtimeMediaError::DriverUnavailable)
    } else {
        Ok((m.sessions[realtime_id].driver->Some_0, m.generations[realtime_id]))
    }
}

/// The session that an accepted remote Offer leaves behind: an existing
/// session keeps its binding; a new one is bound to the peer, the shared
/// instance, the connection session and the pending driver. The answer
/// revision is the larger of the peer's signaling revision and the Offer's.
pub open spec fn offered_session(
    m: SessionsModel,
    realtime_id: Seq<char>,
    peer_id: Seq<char>,
    shared_session_instance_id: Seq<char>,
    revision: u64,
    peer_signaling_revision: u64,
    pending_driver: Option<u64>,
    connection_session_id: Option<u64>,
) -> SessionModel {
    let base = if m.sessions.contains_key(realtime_id) {
        m.sessions[realtime_id]
    } else {
        SessionModel {
            peer_id,
            shared_session_instance_id,
            connection_session_id,
            driver: pending_driver,
            revision: 0,
            remote_revision: 0,
            ice_revision: 0,
            seen_candidates: Seq::empty(),
        }
    };
    SessionModel {
        revision: if peer_signaling_revision >= revision { peer_signaling_revision } else { revision },
        remote_revision: revision,
        ice_revision: revision,
        seen_candidates: Seq::empty(),
        ..base
    }
}

pub open spec fn max_u64(a: u64, b: u64) -> u64 {
    if a >= b { a } else { b }
}

impl RealtimeSessions {
    pub closed spec fn model(&self) -> SessionsModel {
        SessionsModel {
            sessions: Map::new(|k: Seq<char>| self.sessions@.contains_key(k), |k: Seq<char>| self.sessions@[k]@),
            generations: self.generations@,
            next_generation: self.next_generation,
        }
    }

    /// Both maps are well formed and every session has a generation.
    pub closed spec fn wf(&self) -> bool {
        &&& self.sessions.wf()
        &&& self.generations.wf()
        &&& self.sessions@.dom() == self.generations@.dom()
    }

    /// Every session has a generation and every generation a session.
    pub proof fn lemma_generations(&self)
        requires
            self.wf(),
        ensures
            forall|k: Seq<char>| #[trigger] self@.sessions.contains_key(k) <==> self@.generations.contains_key(k),
    {
        assert forall|k: Seq<char>| #[trigger] self@.sessions.contains_key(k) <==> self@.generations.contains_key(k) by {
            assert(self.sessions@.dom().contains(k) == self.generations@.dom().contains(k));
        }
    }

    pub fn new(first_generation: u64) -> (r: Self)
        ensures
            r.wf(),
            r@ == (SessionsModel {
                sessions: Map::empty(),
                generations: Map::empty(),
                next_generation: first_generation,
            }),
    {
        let r = RealtimeSessions {
            sessions: StrMap::new(),
            generations: StrMap::new(),
            next_generation: first_generation,
        };
        assert(r@.sessions =~= Map::empty());
        r
    }

    pub fn contains(&self, realtime_id: &str) -> (b: bool)
        requires
            self.wf(),
        ensures
            b == self@.sessions.contains_key(realtime_id@),
    {
        self.sessions.contains_key(realtime_id)
    }

    pub fn session_generation(&self, realtime_id: &str) -> (r: Option<u64>)
        requires
            self.wf(),
        ensures
            r == (if self@.generations.contains_key(realtime_id@) {
                Some(self@.generations[realtime_id@])
            } else {
                None
            }),
    {
        match self.generations.get(realtime_id) {
            Some(g) => Some(*g),
            None => None,
        }
    }

    /// Peer and shared session instance bound to `realtime_id`.
    pub fn binding(&self, realtime_id: &str) -> (r: Option<(String, String)>)
        requires
            self.wf(),
        ensures
            r.is_some() == self@.sessions.contains_key(realtime_id@),
            r matches Some(b) ==> b.0@ == self@.sessions[realtime_id@].peer_id && b.1@
                == self@.sessions[realtime_id@].shared_session_instance_id,
    {
        match self.sessions.get(realtime_id) {
            Some(s) => Some((s.peer_id.clone(), s.shared_session_instance_id.clone())),
            None => None,
        }
    }

    /// The local signaling revision of a session (0 when there is none).
    pub fn session_revision(&self, realtime_id: &str) -> (r: u64)
        requires
            self.wf(),
        ensures
            r == (if self@.sessions.contains_key(realtime_id@) {
                self@.sessions[realtime_id@].revision
            } else {
                0
            }),
    {
        match self.sessions.get(realtime_id) {
            Some(s) => s.revision,
            None => 0,
        }
    }

    /// The highest accepted remote revision of a session (0 when there is
    /// none).
    pub fn remote_revision(&self, realtime_id: &str) -> (r: u64)
        requires
            self.wf(),
        ensures
            r == (if self@.sessions.contains_key(realtime_id@) {
                self@.sessions[realtime_id@].remote_revision
            } else {
                0
            }),
    {
        match self.sessions.get(realtime_id) {
            Some(s) => s.remote_revision,
            None => 0,
        }
    }

    /// Whether any session is bound to `peer_id`.
    pub fn peer_has_session(&self, peer_id: &str) -> (b: bool)
        requires
            self.wf(),
        ensures
            b == exists|k: Seq<char>|
                #![trigger self@.sessions[k]]
                self@.sessions.contains_key(k) && self@.sessions[k].peer_id == peer_id@,
    {
        let n = self.sessions.len();
        let mut i: usize = 0;
        while i < n
            invariant
                self.wf(),
                n == self.sessions.spec_len(),
                i <= n,
                forall|j: int|
                    0 <= j < i ==> (#[trigger] self.sessions@[self.sessions.key_at_spec(j)]).peer_id@
                        != peer_id@,
            decreases n - i,
        {
            let s = self.sessions.value_at(i);
            proof {
                self.sessions.lemma_key_at(i as int);
            }
            if str_eq(s.peer_id.as_str(), peer_id) {
                proof {
                    let k = self.sessions.key_at_spec(i as int);
                    assert(self@.sessions[k] == s@);
                }
                return true;
            }
            i += 1;
        }
        proof {
            if exists|k: Seq<char>|
                #![trigger self@.sessions[k]]
                self@.sessions.contains_key(k) && self@.sessions[k].peer_id == peer_id@ {
                let k = choose|k: Seq<char>|
                    #![trigger self@.sessions[k]]
                    self@.sessions.contains_key(k) && self@.sessions[k].peer_id == peer_id@;
                self.sessions.lemma_key_visited(k);
                let j = choose|j: int| 0 <= j < self.sessions.spec_len() && self.sessions.key_at_spec(j) == k;
                assert(self.sessions@[self.sessions.key_at_spec(j)].peer_id@ == peer_id@);
            }
        }
        false
    }

    pub fn insert_new_session(&mut self, realtime_id: String, session: RealtimeSession)
        requires
            old(self).wf(),
        ensures
            final(self).wf(),
            final(self)@ == insert_new_spec(old(self)@, realtime_id@, session@),
    {
        let ghost m = self@;
        let ghost sv = session@;
        let g = self.next_generation;
        self.generations.insert(realtime_id.clone(), g);
        self.sessions.insert(realtime_id, session);
        self.next_generation = g.wrapping_add(1);
        assert(self@.sessions =~= m.sessions.insert(realtime_id@, sv));
        assert(self.sessions@.dom() =~= self.generations@.dom());
    }

    pub fn insert_existing_session(&mut self, realtime_id: String, session: RealtimeSession)
        requires
            old(self).wf(),
        ensures
            final(self).wf(),
            final(self)@ == insert_existing_spec(old(self)@, realtime_id@, session@),
    {
        if self.generations.contains_key(realtime_id.as_str()) {
            let ghost m = self@;
            let ghost sv = session@;
            self.sessions.insert(realtime_id, session);
            assert(self@.sessions =~= m.sessions.insert(realtime_id@, sv));
            assert(self.sessions@.dom() =~= self.generations@.dom());
        } else {
            self.insert_new_session(realtime_id, session);
        }
    }

    pub fn remove_session(&mut self, realtime_id: &str) -> (r: Option<RealtimeSession>)
        requires
            old(self).wf(),
        ensures
            final(self).wf(),
            final(self)@ == remove_spec(old(self)@, realtime_id@),
            r.is_some() == old(self)@.sessions.contains_key(realtime_id@),
            r matches Some(s) ==> s@ == old(self)@.sessions[realtime_id@],
    {
        let ghost m = self@;
        let removed = self.sessions.remove(realtime_id);
        let _ = self.generations.remove(realtime_id);
        assert(self@.sessions =~= m.sessions.remove(realtime_id@));
        assert(self.sessions@.dom() =~= self.generations@.dom());
        removed
    }

    /// Resolves the driver and generation for a media endpoint.
    pub fn media_endpoint_driver(&self, realtime_id: &str, peer_id: &str) -> (r: Result<
        (u64, u64),
        RealtimeMediaError,
    >)
        requires
            self.wf(),
        ensures
            r == media_driver_spec(self@, realtime_id@, peer_id@),
    {
        let session = match self.sessions.get(realtime_id) {
            Some(s) => s,
            None => return Err(RealtimeMediaError::UnknownRealtimeSession),
        };
        if !str_eq(session.peer_id.as_str(), peer_id) {
            return Err(RealtimeMediaError::PeerMismatch);
        }
        let generation = match self.generations.get(realtime_id) {
            Some(g) => *g,
            None => return Err(RealtimeMediaError::StaleGeneration),
        };
        match session.driver {
            Some(d) => Ok((d, generation)),
            None => Err(RealtimeMediaError::DriverUnavailable),
        }
    }

    /// The checks `apply` makes of an inbound Offer, Answer, ICE candidate or
    /// ICE restart before any WebRTC work.
    pub fn admit_inbound_signal(
        &self,
        realtime_id: &str,
        peer_id: &str,
        shared_session_instance_id: &str,
        kind: RealtimeSignalKind,
        revision: u64,
        payload: &[u8],
    ) -> (r: Result<(), RealtimeRejection>)
        requires
            self.wf(),
        ensures
            r == admit_inbound_spec(
                self@,
                realtime_id@,
                peer_id@,
                shared_session_instance_id@,
                kind,
                revision,
                payload@,
            ),
    {
        validate_shared_session_instance_id(shared_session_instance_id)?;
        match self.sessions.get(realtime_id) {
            Some(session) => {
                if !str_eq(session.peer_id.as_str(), peer_id) {
                    return Err(RealtimeRejection::SignalPeerMismatch);
                }
                if !str_eq(session.shared_session_instance_id.as_str(), shared_session_instance_id) {
                    return Err(RealtimeRejection::SignalSessionInstanceMismatch);
                }
                if kind == RealtimeSignalKind::IceCandidate {
                    if revision != session.ice_revision {
                        return Err(RealtimeRejection::StaleIceGeneration);
                    }
                    if contains_bytes(&session.seen_candidates, payload) {
                        return Err(RealtimeRejection::ReplayedIceCandidate);
                    }
                } else if revision <= session.remote_revision {
                    return Err(RealtimeRejection::StaleSignalingRevision);
                }
            },
            None => {},
        }
        match kind {
            RealtimeSignalKind::ScreenShareConsent => Err(RealtimeRejection::ConsentIsNotWebRtc),
            RealtimeSignalKind::Unspecified | RealtimeSignalKind::WebRtcClose => Err(
                RealtimeRejection::UnsupportedSignalKind,
            ),
            RealtimeSignalKind::WebRtcOffer => Ok(()),
            _ => {
                if self.sessions.contains_key(realtime_id) {
                    Ok(())
                } else {
                    Err(RealtimeRejection::SessionDoesNotExist)
                }
            },
        }
    }

    /// Records an accepted remote Offer after the peer produced its Answer
    /// with signaling revision `peer_signaling_revision`. Returns the Answer's
    /// revision and the session generation.
    pub fn commit_remote_offer(
        &mut self,
        realtime_id: &str,
        peer_id: &str,
        shared_session_instance_id: &str,
        revision: u64,
        peer_signaling_revision: u64,
        pending_driver: Option<u64>,
        connection_session_id: Option<u64>,
    ) -> (r: (u64, u64))
        requires
            old(self).wf(),
        ensures
            final(self).wf(),
            ({
                let s = offered_session(
                    old(self)@,
                    realtime_id@,
                    peer_id@,
                    shared_session_instance_id@,
                    revision,
                    peer_signaling_revision,
                    pending_driver,
                    connection_session_id,
                );
                &&& final(self)@ == insert_existing_spec(old(self)@, realtime_id@, s)
                &&& r.0 == s.revision
                &&& r.1 == final(self)@.generations[realtime_id@]
            }),
    {
        let ghost m = self@;
        let existing = self.sessions.remove(realtime_id);
        let base = match existing {
            Some(s) => s,
            None => RealtimeSession {
                peer_id: peer_id.to_owned(),
                shared_session_instance_id: shared_session_instance_id.to_owned(),
                connection_session_id,
                driver: pending_driver,
                revision: 0,
                remote_revision: 0,
                ice_revision: 0,
                seen_candidates: Vec::new(),
            },
        };
        let answer_revision = if peer_signaling_revision >= revision {
            peer_signaling_revision
        } else {
            revision
        };
        let session = RealtimeSession {
            peer_id: base.peer_id,
            shared_session_instance_id: base.shared_session_instance_id,
            connection_session_id: base.connection_session_id,
            driver: base.driver,
            revision: answer_revision,
            remote_revision: revision,
            ice_revision: revision,
            seen_candidates: Vec::new(),
        };
        proof {
            assert(session@.seen_candidates =~= Seq::<Seq<u8>>::empty());
            let s = offered_session(
                m,
                realtime_id@,
                peer_id@,
                shared_session_instance_id@,
                revision,
                peer_signaling_revision,
                pending_driver,
                connection_session_id,
            );
            assert(session@ == s);
            // the session map without the entry still pairs with the generations
            assert(self.sessions@.dom() =~= m.sessions.dom().remove(realtime_id@));
        }
        let ghost mid_gen = self.generations@;
        let had_generation = self.generations.contains_key(realtime_id);
        if had_generation {
            let ghost sv = session@;
            self.sessions.insert(realtime_id.to_owned(), session);
            proof {
                assert(self@.sessions =~= m.sessions.insert(realtime_id@, sv));
                assert(self.sessions@.dom() =~= self.generations@.dom());
            }
        } else {
            let ghost sv = session@;
            let g = self.next_generation;
            self.generations.insert(realtime_id.to_owned(), g);
            self.sessions.insert(realtime_id.to_owned(), session);
            self.next_generation = g.wrapping_add(1);
            proof {
                assert(self@.sessions =~= m.sessions.insert(realtime_id@, sv));
                assert(self.sessions@.dom() =~= self.generations@.dom());
            }
        }
        let generation = match self.generations.get(realtime_id) {
            Some(g) => *g,
            None => 0,
        };
        (answer_revision, generation)
    }

    /// Records an accepted remote Answer; the local revision becomes the
    /// larger of the peer's signaling revision and the Answer's. Returns the
    /// new local revision and the generation.
    pub fn commit_remote_answer(&mut self, realtime_id: &str, revision: u64, peer_signaling_revision: u64) -> (r: (
        u64,
        u64,
    ))
        requires
            old(self).wf(),
            old(self)@.sessions.contains_key(realtime_id@),
        ensures
            final(self).wf(),
            final(self)@ == (SessionsModel {
                sessions: old(self)@.sessions.insert(
                    realtime_id@,
                    SessionModel {
                        revision: max_u64(peer_signaling_revision, revision),
                        remote_revision: revision,
                        ..old(self)@.sessions[realtime_id@]
                    },
                ),
                ..old(self)@
            }),
            r == (max_u64(peer_signaling_revision, revision), old(self)@.generations[realtime_id@]),
    {
        let ghost m = self@;
        let mut s = self.sessions.remove(realtime_id).unwrap();
        let new_revision = if peer_signaling_revision >= revision { peer_signaling_revision } else { revision };
        s.revision = new_revision;
        s.remote_revision = revision;
        let ghost sv = s@;
        self.sessions.insert(realtime_id.to_owned(), s);
        proof {
            assert(self@.sessions =~= m.sessions.insert(realtime_id@, sv));
            assert(self.sessions@.dom() =~= self.generations@.dom());
        }
        let generation = match self.generations.get(realtime_id) {
            Some(g) => *g,
            None => 0,
        };
        (new_revision, generation)
    }

    /// Records a remote ICE candidate that the peer accepted. Returns the
    /// session's revision and generation.
    pub fn record_remote_candidate(&mut self, realtime_id: &str, payload: Vec<u8>) -> (r: (u64, u64))
        requires
            old(self).wf(),
            old(self)@.sessions.contains_key(realtime_id@),
        ensures
            final(self).wf(),
            final(self)@ == (SessionsModel {
                sessions: old(self)@.sessions.insert(
                    realtime_id@,
                    SessionModel {
                        seen_candidates: old(self)@.sessions[realtime_id@].seen_candidates.push(payload@),
                        ..old(self)@.sessions[realtime_id@]
                    },
                ),
                ..old(self)@
            }),
            r == (old(self)@.sessions[realtime_id@].revision, old(self)@.generations[realtime_id@]),
    {
        let ghost m = self@;
        let mut s = self.sessions.remove(realtime_id).unwrap();
        let ghost old_seen = s@.seen_candidates;
        let ghost pv = payload@;
        s.seen_candidates.push(payload);
        proof {
            assert(s@.seen_candidates =~= old_seen.push(pv));
        }
        let revision = s.revision;
        let ghost sv = s@;
        self.sessions.insert(realtime_id.to_owned(), s);
        proof {
            assert(self@.sessions =~= m.sessions.insert(realtime_id@, sv));
            assert(self.sessions@.dom() =~= self.generations@.dom());
        }
        let generation = match self.generations.get(realtime_id) {
            Some(g) => *g,
            None => 0,
        };
        (revision, generation)
    }

    /// Records a remote ICE restart after the peer created the restart Offer:
    /// the local revision becomes the larger of the peer's signaling revision
    /// and the request's, the ICE generation follows it, and the seen ICE
    /// candidates are forgotten. Returns the new revision and the generation.
    pub fn commit_ice_restart(&mut self, realtime_id: &str, revision: u64, peer_signaling_revision: u64) -> (r: (
        u64,
        u64,
    ))
        requires
            old(self).wf(),
            old(self)@.sessions.contains_key(realtime_id@),
        ensures
            final(self).wf(),
            final(self)@ == (SessionsModel {
                sessions: old(self)@.sessions.insert(
                    realtime_id@,
                    SessionModel {
                        revision: max_u64(peer_signaling_revision, revision),
                        remote_revision: revision,
                        ice_revision: max_u64(peer_signaling_revision, revision),
                        seen_candidates: Seq::empty(),
                        ..old(self)@.sessions[realtime_id@]
                    },
                ),
                ..old(self)@
            }),
            r == (max_u64(peer_signaling_revision, revision), old(self)@.generations[realtime_id@]),
    {
        let ghost m = self@;
        let mut s = self.sessions.remove(realtime_id).unwrap();
        let new_revision = if peer_signaling_revision >= revision { peer_signaling_revision } else { revision };
        s.revision = new_revision;
        s.remote_revision = revision;
        s.ice_revision = new_revision;
        s.seen_candidates = Vec::new();
        proof {
            assert(s@.seen_candidates =~= Seq::<Seq<u8>>::empty());
        }
        let ghost sv = s@;
        self.sessions.insert(realtime_id.to_owned(), s);
        proof {
            assert(self@.sessions =~= m.sessions.insert(realtime_id@, sv));
            assert(self.sessions@.dom() =~= self.generations@.dom());
        }
        let generation = match self.generations.get(realtime_id) {
            Some(g) => *g,
            None => 0,
        };
        (new_revision, generation)
    }

    /// Removes a remotely closed session after its binding and revision were
    /// checked; hands back the session and the generation it had.
    pub fn take_remote_closed_session(
        &mut self,
        realtime_id: &str,
        peer_id: &str,
        revision: u64,
        shared_session_instance_id: &str,
    ) -> (r: Result<(RealtimeSession, u64), RealtimeRejection>)
        requires
            old(self).wf(),
        ensures
            final(self).wf(),
            ({
                let m = old(self)@;
                let s = m.sessions[realtime_id@];
                let expected: Result<(), RealtimeRejection> = if !m.sessions.contains_key(realtime_id@) {
                    Err(RealtimeRejection::SessionDoesNotExist)
                } else if s.peer_id != peer_id@ {
                    Err(RealtimeRejection::SignalPeerMismatch)
                } else if s.shared_session_instance_id != shared_session_instance_id@ {
                    Err(RealtimeRejection::SignalSessionInstanceMismatch)
                } else if revision <= s.remote_revision {
                    Err(RealtimeRejection::StaleSignalingRevision)
                } else {
                    Ok(())
                };
                &&& r.is_ok() == expected.is_ok()
                &&& r matches Err(e) ==> expected == Err::<(), RealtimeRejection>(e) && final(self)@ == m
                &&& r matches Ok(t) ==> t.0@ == s && t.1 == m.generations[realtime_id@] && final(self)@
                    == remove_spec(m, realtime_id@)
            }),
    {
        let (generation, ok) = match self.sessions.get(realtime_id) {
            None => return Err(RealtimeRejection::SessionDoesNotExist),
            Some(session) => {
                if !str_eq(session.peer_id.as_str(), peer_id) {
                    return Err(RealtimeRejection::SignalPeerMismatch);
                }
                if !str_eq(session.shared_session_instance_id.as_str(), shared_session_instance_id) {
                    return Err(RealtimeRejection::SignalSessionInstanceMismatch);
                }
                if revision <= session.remote_revision {
                    return Err(RealtimeRejection::StaleSignalingRevision);
                }
                match self.generations.get(realtime_id) {
                    Some(g) => (*g, true),
                    None => (0, false),
                }
            },
        };
        if !ok {
            return Err(RealtimeRejection::GenerationMissing);
        }
        match self.remove_session(realtime_id) {
            Some(s) => Ok((s, generation)),
            None => Err(RealtimeRejection::SessionDoesNotExist),
        }
    }

    /// The checks of a locally commanded outbound signal: the session exists
    /// and is bound to the peer, and the revision is fresh (ICE: equal to the
    /// ICE generation; consent: positive; other kinds: above the local
    /// revision). Hands back the session's shared instance ID.
    pub fn check_outbound_signal(
        &self,
        realtime_id: &str,
        peer_id: &str,
        kind: RealtimeSignalKind,
        revision: u64,
    ) -> (r: Result<String, RealtimeRejection>)
        requires
            self.wf(),
        ensures
            ({
                let m = self@;
                let s = m.sessions[realtime_id@];
                let fresh = if kind == RealtimeSignalKind::ScreenShareConsent {
                    revision > 0
                } else if kind == RealtimeSignalKind::IceCandidate {
                    revision == s.ice_revision
                } else {
                    revision > s.revision
                };
                &&& !m.sessions.contains_key(realtime_id@) ==> r == Err::<String, RealtimeRejection>(
                    RealtimeRejection::SessionDoesNotExist,
                )
                &&& m.sessions.contains_key(realtime_id@) && (s.peer_id != peer_id@ || !fresh) ==> r
                    == Err::<String, RealtimeRejection>(RealtimeRejection::StaleOrMismatchedRevision)
                &&& m.sessions.contains_key(realtime_id@) && s.peer_id == peer_id@ && fresh ==> (r
                    matches Ok(id) && id@ == s.shared_session_instance_id)
            }),
    {
        let session = match self.sessions.get(realtime_id) {
            Some(s) => s,
            None => return Err(RealtimeRejection::SessionDoesNotExist),
        };
        let fresh = if kind == RealtimeSignalKind::ScreenShareConsent {
            revision > 0
        } else if kind == RealtimeSignalKind::IceCandidate {
            revision == session.ice_revision
        } else {
            revision > session.revision
        };
        if !str_eq(session.peer_id.as_str(), peer_id) || !fresh {
            return Err(RealtimeRejection::StaleOrMismatchedRevision);
        }
        Ok(session.shared_session_instance_id.clone())
    }

    /// The shared instance and ICE generation to stamp on a locally gathered
    /// ICE candidate; `None` when the session is gone or bound to another peer.
    pub fn local_candidate_stamp(&self, realtime_id: &str, peer_id: &str) -> (r: Option<(String, u64)>)
        requires
            self.wf(),
        ensures
            r.is_some() == (self@.sessions.contains_key(realtime_id@) && self@.sessions[realtime_id@].peer_id
                == peer_id@),
            r matches Some(t) ==> t.0@ == self@.sessions[realtime_id@].shared_session_instance_id && t.1
                == self@.sessions[realtime_id@].ice_revision,
    {
        match self.sessions.get(realtime_id) {
            Some(s) => {
                if str_eq(s.peer_id.as_str(), peer_id) {
                    Some((s.shared_session_instance_id.clone(), s.ice_revision))
                } else {
                    None
                }
            },
            None => None,
        }
    }

    /// Whether the session is bound to the peer and owned by `driver`.
    pub fn owns_driver(&self, realtime_id: &str, peer_id: &str, driver: u64) -> (b: bool)
        requires
            self.wf(),
        ensures
            b == (self@.sessions.contains_key(realtime_id@) && self@.sessions[realtime_id@].peer_id == peer_id@
                && self@.sessions[realtime_id@].driver == Some(driver)),
    {
        match self.sessions.get(realtime_id) {
            Some(s) => str_eq(s.peer_id.as_str(), peer_id) && s.driver == Some(driver),
            None => false,
        }
    }

    /// Removes the session only when it is bound to the peer and owned by
    /// `driver`, so a late event from an older driver cannot remove a
    /// replacement generation.
    pub fn take_session_if_owned(&mut self, realtime_id: &str, peer_id: &str, driver: u64) -> (r: Option<
        RealtimeSession,
    >)
        requires
            old(self).wf(),
        ensures
            final(self).wf(),
            ({
                let m = old(self)@;
                let owned = m.sessions.contains_key(realtime_id@) && m.sessions[realtime_id@].peer_id == peer_id@
                    && m.sessions[realtime_id@].driver == Some(driver);
                &&& owned ==> final(self)@ == remove_spec(m, realtime_id@) && (r matches Some(s) && s@
                    == m.sessions[realtime_id@])
                &&& !owned ==> final(self)@ == m && r is None
            }),
    {
        if self.owns_driver(realtime_id, peer_id, driver) {
            self.remove_session(realtime_id)
        } else {
            None
        }
    }

    /// Whether the exact responder generation still owns the session.
    pub fn exact_claim_responder(
        &self,
        realtime_id: &str,
        peer_id: &str,
        shared_session_instance_id: &str,
        generation: u64,
        driver: u64,
    ) -> (b: bool)
        requires
            self.wf(),
        ensures
            b == (self@.generations.contains_key(realtime_id@) && self@.generations[realtime_id@] == generation
                && self@.sessions.contains_key(realtime_id@) && self@.sessions[realtime_id@].peer_id == peer_id@
                && self@.sessions[realtime_id@].shared_session_instance_id == shared_session_instance_id@
                && self@.sessions[realtime_id@].driver == Some(driver)),
    {
        if self.session_generation(realtime_id) != Some(generation) {
            return false;
        }
        match self.sessions.get(realtime_id) {
            Some(s) => str_eq(s.peer_id.as_str(), peer_id) && str_eq(
                s.shared_session_instance_id.as_str(),
                shared_session_instance_id,
            ) && s.driver == Some(driver),
            None => false,
        }
    }

    /// After a failed claim commit, the Close to send to the peer: its
    /// revision is one above the larger of the session revision and the
    /// Answer's, and the session records it. `None` when the responder no
    /// longer owns the session or the revision would overflow.
    pub fn next_claim_close_signal(
        &mut self,
        realtime_id: &str,
        peer_id: &str,
        shared_session_instance_id: &str,
        answer_revision: u64,
        generation: u64,
        driver: u64,
    ) -> (r: Option<OutboundSignal>)
        requires
            old(self).wf(),
        ensures
            final(self).wf(),
            ({
                let m = old(self)@;
                let owns = m.generations.contains_key(realtime_id@) && m.generations[realtime_id@] == generation
                    && m.sessions.contains_key(realtime_id@) && m.sessions[realtime_id@].peer_id == peer_id@
                    && m.sessions[realtime_id@].shared_session_instance_id == shared_session_instance_id@
                    && m.sessions[realtime_id@].driver == Some(driver);
                let top = max_u64(m.sessions[realtime_id@].revision, answer_revision);
                &&& (!owns || top == u64::MAX) ==> r is None && final(self)@ == m
                &&& (owns && top < u64::MAX) ==> (r matches Some(sig) && sig.realtime_id@ == realtime_id@
                    && sig.peer_id@ == peer_id@ && sig.shared_session_instance_id@ == shared_session_instance_id@
                    && sig.kind == RealtimeSignalKind::WebRtcClose && sig.revision == (top + 1) as u64
                    && sig.payload@ == close_payload()) && final(self)@ == (SessionsModel {
                    sessions: m.sessions.insert(
                        realtime_id@,
                        SessionModel { revision: (top + 1) as u64, ..m.sessions[realtime_id@] },
                    ),
                    ..m
                })
            }),
    {
        if !self.exact_claim_responder(realtime_id, peer_id, shared_session_instance_id, generation, driver) {
            return None;
        }
        let ghost m = self@;
        let current = match self.sessions.get(realtime_id) {
            Some(s) => s.revision,
            None => return None,
        };
        let top = if current >= answer_revision { current } else { answer_revision };
        if top == u64::MAX {
            return None;
        }
        let close_revision = top + 1;
        let mut s = self.sessions.remove(realtime_id).unwrap();
        s.revision = close_revision;
        let ghost sv = s@;
        self.sessions.insert(realtime_id.to_owned(), s);
        proof {
            assert(self@.sessions =~= m.sessions.insert(realtime_id@, sv));
            assert(self.sessions@.dom() =~= self.generations@.dom());
        }
        Some(
            OutboundSignal {
                realtime_id: realtime_id.to_owned(),
                peer_id: peer_id.to_owned(),
                shared_session_instance_id: shared_session_instance_id.to_owned(),
                kind: RealtimeSignalKind::WebRtcClose,
                revision: close_revision,
                payload: vec![99u8, 108, 111, 115, 101],
            },
        )
    }

    /// Removes every session and its generation; the generation counter stays.
    pub fn clear(&mut self)
        requires
            old(self).wf(),
        ensures
            final(self).wf(),
            final(self)@ == (SessionsModel {
                sessions: Map::empty(),
                generations: Map::empty(),
                ..old(self)@
            }),
    {
        self.sessions.clear();
        self.generations.clear();
        assert(self@.sessions =~= Map::empty());
    }
}

impl View for RealtimeSessions {
    type V = SessionsModel;

    open spec fn view(&self) -> SessionsModel {
        self.model()
    }
}

/// A session inserted under a fresh generation is found under it, and the
/// next insertion uses a different generation unless the counter wrapped.
pub proof fn lemma_insert_new_generation(m: SessionsModel, realtime_id: Seq<char>, s: SessionModel)
    ensures
        insert_new_spec(m, realtime_id, s).sessions[realtime_id] == s,
        insert_new_spec(m, realtime_id, s).generations[realtime_id] == m.next_generation,
        m.next_generation < u64::MAX ==> insert_new_spec(m, realtime_id, s).next_generation
            == m.next_generation + 1,
{
}

/// A remote signal is admitted only when it moves the session forward: an
/// admitted ICE candidate belongs to the current ICE generation and was not
/// seen before, and any other admitted kind is newer than every remote
/// revision already accepted.
pub proof fn lemma_admitted_signal_is_fresh(
    m: SessionsModel,
    realtime_id: Seq<char>,
    peer_id: Seq<char>,
    shared_session_instance_id: Seq<char>,
    kind: RealtimeSignalKind,
    revision: u64,
    payload: Seq<u8>,
)
    requires
        m.sessions.contains_key(realtime_id),
        admit_inbound_spec(m, realtime_id, peer_id, shared_session_instance_id, kind, revision, payload) is Ok,
    ensures
        m.sessions[realtime_id].peer_id == peer_id,
        m.sessions[realtime_id].shared_session_instance_id == shared_session_instance_id,
        kind == RealtimeSignalKind::IceCandidate ==> revision == m.sessions[realtime_id].ice_revision
            && !m.sessions[realtime_id].seen_candidates.contains(payload),
        kind != RealtimeSignalKind::IceCandidate ==> revision > m.sessions[realtime_id].remote_revision,
{
}

/// Replaying an accepted Answer or Offer is refused: once the session has
/// accepted remote revision `revision`, the same revision is stale.
pub proof fn lemma_replayed_offer_is_stale(
    m: SessionsModel,
    realtime_id: Seq<char>,
    peer_id: Seq<char>,
    shared_session_instance_id: Seq<char>,
    revision: u64,
    peer_signaling_revision: u64,
    pending_driver: Option<u64>,
    connection_session_id: Option<u64>,
    payload: Seq<u8>,
)
    requires
        admit_inbound_spec(m, realtime_id, peer_id, shared_session_instance_id, RealtimeSignalKind::WebRtcOffer, revision, payload) is Ok,
    ensures
        ({
            let s = offered_session(
                m,
                realtime_id,
                peer_id,
                shared_session_instance_id,
                revision,
                peer_signaling_revision,
                pending_driver,
                connection_session_id,
            );
            let post = insert_existing_spec(m, realtime_id, s);
            &&& admit_inbound_spec(post, realtime_id, peer_id, shared_session_instance_id, RealtimeSignalKind::WebRtcOffer, revision, payload)
                == Err::<(), RealtimeRejection>(RealtimeRejection::StaleSignalingRevision)
            &&& admit_inbound_spec(post, realtime_id, peer_id, shared_session_instance_id, RealtimeSignalKind::WebRtcAnswer, revision, payload)
                == Err::<(), RealtimeRejection>(RealtimeRejection::StaleSignalingRevision)
        }),
{
}

/// A recorded ICE candidate is refused when it arrives again.
pub proof fn lemma_replayed_candidate_is_refused(
    m: SessionsModel,
    realtime_id: Seq<char>,
    peer_id: Seq<char>,
    shared_session_instance_id: Seq<char>,
    revision: u64,
    payload: Seq<u8>,
)
    requires
        m.sessions.contains_key(realtime_id),
        admit_inbound_spec(m, realtime_id, peer_id, shared_session_instance_id, RealtimeSignalKind::IceCandidate, revision, payload) is Ok,
    ensures
        ({
            let post = SessionsModel {
                sessions: m.sessions.insert(
                    realtime_id,
                    SessionModel {
                        seen_candidates: m.sessions[realtime_id].seen_candidates.push(payload),
                        ..m.sessions[realtime_id]
                    },
                ),
                ..m
            };
            admit_inbound_spec(post, realtime_id, peer_id, shared_session_instance_id, RealtimeSignalKind::IceCandidate, revision, payload)
                == Err::<(), RealtimeRejection>(RealtimeRejection::ReplayedIceCandidate)
        }),
{
    let seen = m.sessions[realtime_id].seen_candidates.push(payload);
    assert(seen[seen.len() - 1] == payload);
}

/// A session bound to `peer_id` and created over connection session
/// `session_id`.
pub open spec fn closes_with(s: SessionModel, peer_id: Seq<char>, session_id: u64) -> bool {
    s.peer_id == peer_id && s.connection_session_id == Some(session_id)
}

/// What a caller needs to report a session closed with its connection.
pub struct ClosedSession {
    pub realtime_id: String,
    pub peer_id: String,
    pub close_revision: u64,
    pub generation: u64,
    pub shared_session_instance_id: String,
}

/// A session removed by a local stop, with the revision of its Close.
pub struct StoppedSession {
    pub session: RealtimeSession,
    pub generation: u64,
    pub close_revision: u64,
}

pub open spec fn sat_inc(v: u64) -> u64 {
    if v == u64::MAX {
        v
    } else {
        (v + 1) as u64
    }
}

/// The checks of a local signal command, in order; `Ok` carries nothing,
/// the caller then sends with the session's shared instance.
pub open spec fn signal_command_spec(
    m: SessionsModel,
    realtime_id: Seq<char>,
    realtime_id_bytes: Seq<u8>,
    peer_id: Seq<char>,
    peer_id_bytes: Seq<u8>,
    peer_registered: bool,
    kind_number: i32,
    revision: u64,
    payload_len: nat,
    decoded: Option<ScreenShareConsent>,
    now_ms: u64,
) -> Result<(), RealtimeRejection> {
    let kind = signal_kind_of(kind_number);
    let s = m.sessions[realtime_id];
    if !valid_realtime_id(realtime_id_bytes) {
        Err(RealtimeRejection::InvalidRealtimeId)
    } else if !valid_peer_binding(peer_id_bytes, peer_registered) {
        Err(RealtimeRejection::PeerNotRegistered)
    } else if kind is None {
        Err(RealtimeRejection::InvalidSignalKind)
    } else if validate_signal_spec(kind->Some_0, revision, payload_len) is Err {
        validate_signal_spec(kind->Some_0, revision, payload_len)
    } else if !m.sessions.contains_key(realtime_id) {
        Err(RealtimeRejection::SessionDoesNotExist)
    } else if kind == Some(RealtimeSignalKind::ScreenShareConsent) && consent_check_spec(
        payload_len,
        decoded,
        realtime_id,
        None,
        Some(s.shared_session_instance_id),
        now_ms,
    ) is Err {
        consent_check_spec(payload_len, decoded, realtime_id, None, Some(s.shared_session_instance_id), now_ms)
    } else if s.peer_id != peer_id || !(if kind == Some(RealtimeSignalKind::ScreenShareConsent) {
        revision > 0
    } else if kind == Some(RealtimeSignalKind::IceCandidate) {
        revision == s.ice_revision
    } else {
        revision > s.revision
    }) {
        Err(RealtimeRejection::StaleOrMismatchedRevision)
    } else {
        Ok(())
    }
}

impl RealtimeSessions {
    /// The checks before a local session is started: a valid realtime ID, a
    /// registered peer, and no session under that ID yet.
    pub fn check_start(&self, realtime_id: &str, peer_id: &str, peer_registered: bool) -> (r: Result<
        (),
        RealtimeRejection,
    >)
        requires
            self.wf(),
        ensures
            r == (if !valid_realtime_id(realtime_id.spec_bytes()) {
                Err(RealtimeRejection::InvalidRealtimeId)
            } else if !valid_peer_binding(peer_id.spec_bytes(), peer_registered) {
                Err(RealtimeRejection::PeerNotRegistered)
            } else if self@.sessions.contains_key(realtime_id@) {
                Err(RealtimeRejection::SessionAlreadyExists)
            } else {
                Ok(())
            }),
    {
        validate_realtime_id(realtime_id)?;
        validate_peer(peer_id, peer_registered)?;
        if self.contains(realtime_id) {
            return Err(RealtimeRejection::SessionAlreadyExists);
        }
        Ok(())
    }

    /// Registers a locally started session (the initiator) once its Offer
    /// exists, under a fresh generation, which is returned. Refused when a
    /// concurrent start took the ID meanwhile.
    pub fn register_local_session(
        &mut self,
        realtime_id: String,
        peer_id: String,
        shared_session_instance_id: String,
        connection_session_id: Option<u64>,
        driver: u64,
        revision: u64,
    ) -> (r: Result<u64, RealtimeRejection>)
        requires
            old(self).wf(),
        ensures
            final(self).wf(),
            old(self)@.sessions.contains_key(realtime_id@) ==> r == Err::<u64, RealtimeRejection>(
                RealtimeRejection::SessionAlreadyExists,
            ) && final(self)@ == old(self)@,
            !old(self)@.sessions.contains_key(realtime_id@) ==> r == Ok::<u64, RealtimeRejection>(
                old(self)@.next_generation,
            ) && final(self)@ == insert_new_spec(
                old(self)@,
                realtime_id@,
                SessionModel {
                    peer_id: peer_id@,
                    shared_session_instance_id: shared_session_instance_id@,
                    connection_session_id,
                    driver: Some(driver),
                    revision,
                    remote_revision: 0,
                    ice_revision: revision,
                    seen_candidates: Seq::empty(),
                },
            ),
    {
        if self.contains(realtime_id.as_str()) {
            return Err(RealtimeRejection::SessionAlreadyExists);
        }
        let g = self.next_generation;
        let session = RealtimeSession {
            peer_id,
            shared_session_instance_id,
            connection_session_id,
            driver: Some(driver),
            revision,
            remote_revision: 0,
            ice_revision: revision,
            seen_candidates: Vec::new(),
        };
        proof {
            assert(session@.seen_candidates =~= Seq::<Seq<u8>>::empty());
        }
        self.insert_new_session(realtime_id, session);
        Ok(g)
    }

    /// Stops a session locally: it leaves the table with its generation
    /// (0 when it had none) and the revision of the Close to send, one above
    /// its local revision (saturating).
    pub fn stop_session(&mut self, realtime_id: &str) -> (r: Result<StoppedSession, RealtimeRejection>)
        requires
            old(self).wf(),
        ensures
            final(self).wf(),
            !valid_realtime_id(realtime_id.spec_bytes()) ==> r == Err::<StoppedSession, RealtimeRejection>(
                RealtimeRejection::InvalidRealtimeId,
            ) && final(self)@ == old(self)@,
            valid_realtime_id(realtime_id.spec_bytes()) && !old(self)@.sessions.contains_key(realtime_id@) ==> r
                == Err::<StoppedSession, RealtimeRejection>(RealtimeRejection::SessionDoesNotExist) && final(self)@
                == old(self)@,
            valid_realtime_id(realtime_id.spec_bytes()) && old(self)@.sessions.contains_key(realtime_id@) ==> (
            r matches Ok(s) && s.session@ == old(self)@.sessions[realtime_id@] && s.generation
                == old(self)@.generations[realtime_id@] && s.close_revision == sat_inc(
                old(self)@.sessions[realtime_id@].revision,
            )) && final(self)@ == remove_spec(old(self)@, realtime_id@),
    {
        validate_realtime_id(realtime_id)?;
        proof {
            self.lemma_generations();
        }
        let generation = match self.session_generation(realtime_id) {
            Some(g) => g,
            None => 0,
        };
        let session = match self.remove_session(realtime_id) {
            Some(s) => s,
            None => {
                proof {
                    assert(self@.sessions =~= old(self)@.sessions);
                    assert(self@.generations =~= old(self)@.generations);
                }
                return Err(RealtimeRejection::SessionDoesNotExist);
            },
        };
        let close_revision = session.revision.saturating_add(1);
        Ok(StoppedSession { session, generation, close_revision })
    }

    fn matching_keys(&self, peer_id: &str, session_id: u64) -> (r: Vec<String>)
        requires
            self.wf(),
        ensures
            key_views(r@).no_duplicates(),
            forall|k: Seq<char>| #[trigger]
                key_views(r@).contains(k) <==> (self@.sessions.contains_key(k) && closes_with(
                    self@.sessions[k],
                    peer_id@,
                    session_id,
                )),
    {
        let keys = self.sessions.keys();
        let ghost kv = key_views(keys@);
        let mut out: Vec<String> = Vec::new();
        let mut t: usize = 0;
        while t < keys.len()
            invariant
                self.wf(),
                kv == key_views(keys@),
                kv.no_duplicates(),
                forall|k: Seq<char>| self.sessions@.dom().contains(k) <==> kv.contains(k),
                t <= keys@.len(),
                key_views(out@).no_duplicates(),
                forall|k: Seq<char>| #[trigger]
                    key_views(out@).contains(k) <==> (kv.take(t as int).contains(k) && self@.sessions.contains_key(k)
                        && closes_with(self@.sessions[k], peer_id@, session_id)),
            decreases keys@.len() - t,
        {
            let ghost k = kv[t as int];
            proof {
                assert(kv.take(t + 1) =~= kv.take(t as int).push(k));
                assert forall|x: Seq<char>| #[trigger] kv.take(t + 1).contains(x) <==> (kv.take(t as int).contains(x)
                    || x == k) by {
                    if kv.take(t + 1).contains(x) {
                        let j = choose|j: int| 0 <= j < t + 1 && #[trigger] kv.take(t + 1)[j] == x;
                        if j < t {
                            assert(kv.take(t as int)[j] == x);
                        }
                    }
                    if kv.take(t as int).contains(x) {
                        let j = choose|j: int| 0 <= j < t && #[trigger] kv.take(t as int)[j] == x;
                        assert(kv.take(t + 1)[j] == x);
                    }
                    if x == k {
                        assert(kv.take(t + 1)[t as int] == x);
                    }
                }
                assert(!kv.take(t as int).contains(k)) by {
                    if kv.take(t as int).contains(k) {
                        let j = choose|j: int| 0 <= j < t && #[trigger] kv.take(t as int)[j] == k;
                        assert(kv[j] == k);
                    }
                }
                assert(kv.contains(k));
            }
            let hit = match self.sessions.get(keys[t].as_str()) {
                Some(s) => str_eq(s.peer_id.as_str(), peer_id) && s.connection_session_id == Some(session_id),
                None => false,
            };
            if hit {
                let ghost before = key_views(out@);
                out.push(keys[t].clone());
                proof {
                    assert(key_views(out@) =~= before.push(k));
                    assert forall|x: Seq<char>| #[trigger] key_views(out@).contains(x) <==> (before.contains(x)
                        || x == k) by {
                        if key_views(out@).contains(x) {
                            let j = choose|j: int| 0 <= j < key_views(out@).len() && #[trigger] key_views(out@)[j]
                                == x;
                            if j < before.len() {
                                assert(before[j] == x);
                            }
                        }
                        if before.contains(x) {
                            let j = choose|j: int| 0 <= j < before.len() && #[trigger] before[j] == x;
                            assert(key_views(out@)[j] == x);
                        }
                        if x == k {
                            assert(key_views(out@)[before.len() as int] == x);
                        }
                    }
                    assert forall|a: int, b: int|
                        0 <= a < key_views(out@).len() && 0 <= b < key_views(out@).len() && a != b implies key_views(
                        out@,
                    )[a] != key_views(out@)[b] by {
                        if a < before.len() && b < before.len() {
                            assert(before[a] != before[b]);
                        } else if a < before.len() {
                            assert(before.contains(key_views(out@)[a]));
                        } else {
                            assert(before.contains(key_views(out@)[b]));
                        }
                    }
                }
            }
            t += 1;
        }
        proof {
            assert(kv.take(kv.len() as int) =~= kv);
        }
        out
    }

    /// When a connection session is destroyed, every realtime session of the
    /// peer created over it closes: each leaves the table, and is reported
    /// with its Close revision (one above its local revision, saturating),
    /// its generation and its shared instance.
    pub fn close_for_connection_session(&mut self, peer_id: &str, session_id: u64) -> (r: Vec<ClosedSession>)
        requires
            old(self).wf(),
        ensures
            final(self).wf(),
            ({
                let m = old(self)@;
                let ids = r@.map_values(|c: ClosedSession| c.realtime_id@);
                &&& ids.no_duplicates()
                &&& forall|k: Seq<char>| #[trigger]
                    ids.contains(k) <==> (m.sessions.contains_key(k) && closes_with(m.sessions[k], peer_id@, session_id))
                &&& forall|i: int|
                    0 <= i < r@.len() ==> ({
                        let c = #[trigger] r@[i];
                        let s = m.sessions[c.realtime_id@];
                        &&& c.peer_id@ == s.peer_id
                        &&& c.close_revision == sat_inc(s.revision)
                        &&& c.generation == m.generations[c.realtime_id@]
                        &&& c.shared_session_instance_id@ == s.shared_session_instance_id
                    })
                &&& final(self)@.next_generation == m.next_generation
                &&& forall|k: Seq<char>| #[trigger]
                    final(self)@.sessions.contains_key(k) <==> (m.sessions.contains_key(k) && !closes_with(
                        m.sessions[k],
                        peer_id@,
                        session_id,
                    ))
                &&& forall|k: Seq<char>| #[trigger]
                    final(self)@.sessions.contains_key(k) ==> final(self)@.sessions[k] == m.sessions[k]
                        && final(self)@.generations[k] == m.generations[k]
            }),
    {
        let ghost m = self@;
        let keys = self.matching_keys(peer_id, session_id);
        let ghost kv = key_views(keys@);
        proof {
            self.lemma_generations();
        }
        let mut closed: Vec<ClosedSession> = Vec::new();
        let mut t: usize = 0;
        while t < keys.len()
            invariant
                self.wf(),
                kv == key_views(keys@),
                kv.no_duplicates(),
                forall|k: Seq<char>| #[trigger]
                    kv.contains(k) <==> (m.sessions.contains_key(k) && closes_with(m.sessions[k], peer_id@, session_id)),
                forall|k: Seq<char>| #[trigger] m.sessions.contains_key(k) <==> m.generations.contains_key(k),
                t <= keys@.len(),
                self@.next_generation == m.next_generation,
                closed@.map_values(|c: ClosedSession| c.realtime_id@) == kv.take(t as int),
                forall|i: int|
                    0 <= i < closed@.len() ==> ({
                        let c = #[trigger] closed@[i];
                        let s = m.sessions[c.realtime_id@];
                        &&& c.peer_id@ == s.peer_id
                        &&& c.close_revision == sat_inc(s.revision)
                        &&& c.generation == m.generations[c.realtime_id@]
                        &&& c.shared_session_instance_id@ == s.shared_session_instance_id
                    }),
                forall|k: Seq<char>| #[trigger]
                    self@.sessions.contains_key(k) <==> (m.sessions.contains_key(k) && !kv.take(t as int).contains(k)),
                forall|k: Seq<char>| #[trigger]
                    self@.sessions.contains_key(k) ==> self@.sessions[k] == m.sessions[k] && self@.generations[k]
                        == m.generations[k],
            decreases keys@.len() - t,
        {
            let ghost k = kv[t as int];
            proof {
                assert(kv.take(t + 1) =~= kv.take(t as int).push(k));
                assert forall|x: Seq<char>| #[trigger] kv.take(t + 1).contains(x) <==> (kv.take(t as int).contains(x)
                    || x == k) by {
                    if kv.take(t + 1).contains(x) {
                        let j = choose|j: int| 0 <= j < t + 1 && #[trigger] kv.take(t + 1)[j] == x;
                        if j < t {
                            assert(kv.take(t as int)[j] == x);
                        }
                    }
                    if kv.take(t as int).contains(x) {
                        let j = choose|j: int| 0 <= j < t && #[trigger] kv.take(t as int)[j] == x;
                        assert(kv.take(t + 1)[j] == x);
                    }
                    if x == k {
                        assert(kv.take(t + 1)[t as int] == x);
                    }
                }
                assert(!kv.take(t as int).contains(k)) by {
                    if kv.take(t as int).contains(k) {
                        let j = choose|j: int| 0 <= j < t && #[trigger] kv.take(t as int)[j] == k;
                        assert(kv[j] == k);
                    }
                }
                assert(kv.contains(k));
                assert(self@.sessions.contains_key(k));
                self.lemma_generations();
            }
            let generation = match self.session_generation(keys[t].as_str()) {
                Some(g) => g,
                None => 0,
            };
            let ghost before = self@;
            match self.remove_session(keys[t].as_str()) {
                Some(session) => {
                    let ghost cl = closed@;
                    closed.push(
                        ClosedSession {
                            realtime_id: keys[t].clone(),
                            peer_id: session.peer_id.clone(),
                            close_revision: session.revision.saturating_add(1),
                            generation,
                            shared_session_instance_id: session.shared_session_instance_id.clone(),
                        },
                    );
                    proof {
                        assert(closed@.map_values(|c: ClosedSession| c.realtime_id@) =~= cl.map_values(
                            |c: ClosedSession| c.realtime_id@,
                        ).push(k));
                        assert forall|i: int| 0 <= i < closed@.len() implies ({
                            let c = #[trigger] closed@[i];
                            let s = m.sessions[c.realtime_id@];
                            &&& c.peer_id@ == s.peer_id
                            &&& c.close_revision == sat_inc(s.revision)
                            &&& c.generation == m.generations[c.realtime_id@]
                            &&& c.shared_session_instance_id@ == s.shared_session_instance_id
                        }) by {
                            if i < cl.len() {
                                assert(closed@[i] == cl[i]);
                            }
                        }
                    }
                },
                None => {
                    proof {
                        assert(false);
                    }
                },
            }
            t += 1;
        }
        proof {
            assert(kv.take(kv.len() as int) =~= kv);
        }
        closed
    }

    /// Checks a local signal command (see `signal_command_spec`) and hands
    /// back the shared instance the signal is sent with. A consent is checked
    /// against the session's instance; its sender is not.
    pub fn check_signal_command(
        &self,
        realtime_id: &str,
        peer_id: &str,
        peer_registered: bool,
        kind_number: i32,
        revision: u64,
        payload: &[u8],
        decoded: Option<ScreenShareConsent>,
        now_ms: u64,
    ) -> (r: Result<(RealtimeSignalKind, String), RealtimeRejection>)
        requires
            self.wf(),
        ensures
            ({
                let res = signal_command_spec(
                    self@,
                    realtime_id@,
                    realtime_id.spec_bytes(),
                    peer_id@,
                    peer_id.spec_bytes(),
                    peer_registered,
                    kind_number,
                    revision,
                    payload@.len(),
                    decoded,
                    now_ms,
                );
                &&& r is Ok <==> res is Ok
                &&& r matches Err(e) ==> res == Err::<(), RealtimeRejection>(e)
                &&& r matches Ok(v) ==> Some(v.0) == signal_kind_of(kind_number) && v.1@
                    == self@.sessions[realtime_id@].shared_session_instance_id
            }),
    {
        validate_realtime_id(realtime_id)?;
        validate_peer(peer_id, peer_registered)?;
        let kind = match RealtimeSignalKind::from_wire(kind_number) {
            Some(k) => k,
            None => return Err(RealtimeRejection::InvalidSignalKind),
        };
        validate_signal(kind, revision, payload)?;
        let (bound_peer, shared) = match self.binding(realtime_id) {
            Some(b) => b,
            None => return Err(RealtimeRejection::SessionDoesNotExist),
        };
        if kind == RealtimeSignalKind::ScreenShareConsent {
            validate_screen_share_consent_at(payload.len(), decoded, realtime_id, None, Some(shared.as_str()), now_ms)?;
        }
        let fresh = if kind == RealtimeSignalKind::ScreenShareConsent {
            revision > 0
        } else if kind == RealtimeSignalKind::IceCandidate {
            revision == self.ice_revision_of(realtime_id)
        } else {
            revision > self.session_revision(realtime_id)
        };
        if !str_eq(bound_peer.as_str(), peer_id) || !fresh {
            return Err(RealtimeRejection::StaleOrMismatchedRevision);
        }
        Ok((kind, shared))
    }

    fn ice_revision_of(&self, realtime_id: &str) -> (r: u64)
        requires
            self.wf(),
            self@.sessions.contains_key(realtime_id@),
        ensures
            r == self@.sessions[realtime_id@].ice_revision,
    {
        match self.sessions.get(realtime_id) {
            Some(s) => s.ice_revision,
            None => 0,
        }
    }

    /// Checks an inbound consent for a bound session: the sender is the
    /// authenticated peer, and the instance is the session's when there is
    /// one. The consent is handed back to be forwarded unchanged.
    pub fn check_inbound_consent(
        &self,
        realtime_id: &str,
        peer_id: &str,
        payload_len: usize,
        decoded: Option<ScreenShareConsent>,
        now_ms: u64,
    ) -> (r: Result<ScreenShareConsent, RealtimeRejection>)
        requires
            self.wf(),
        ensures
            ({
                let expected = if self@.sessions.contains_key(realtime_id@) {
                    Some(self@.sessions[realtime_id@].shared_session_instance_id)
                } else {
                    None
                };
                let res = consent_check_spec(payload_len as nat, decoded, realtime_id@, Some(peer_id@), expected, now_ms);
                &&& r is Ok <==> res is Ok
                &&& r matches Err(e) ==> res == Err::<(), RealtimeRejection>(e)
                &&& r matches Ok(c) ==> decoded == Some(c)
            }),
    {
        match self.binding(realtime_id) {
            Some((_, shared)) => validate_screen_share_consent_at(
                payload_len,
                decoded,
                realtime_id,
                Some(peer_id),
                Some(shared.as_str()),
                now_ms,
            ),
            None => validate_screen_share_consent_at(payload_len, decoded, realtime_id, Some(peer_id), None, now_ms),
        }
    }
}

/// The checks every inbound signal passes first, in order: the realtime and
/// shared session instance IDs, the peer, and the signal's bounds.
pub open spec fn signal_entry_check(
    realtime_id: Seq<u8>,
    shared: Seq<u8>,
    peer_id: Seq<u8>,
    peer_registered: bool,
    kind: RealtimeSignalKind,
    revision: u64,
    payload_len: nat,
) -> Result<(), RealtimeRejection> {
    if !valid_realtime_id(realtime_id) {
        Err(RealtimeRejection::InvalidRealtimeId)
    } else if !valid_shared_session_instance_id(shared) {
        Err(RealtimeRejection::InvalidSharedSessionInstanceId)
    } else if !valid_peer_binding(peer_id, peer_registered) {
        Err(RealtimeRejection::PeerNotRegistered)
    } else {
        validate_signal_spec(kind, revision, payload_len)
    }
}

/// Where an inbound signal goes once its entry checks passed.
pub enum InboundRoute {
    /// A screen-share consent, checked and forwarded unchanged; no WebRTC
    /// state is touched.
    Consent(ScreenShareConsent),
    /// A remote close: `take_remote_closed_session` checks and applies it.
    Close,
    /// A WebRTC signal for the session's peer connection; an Offer for a
    /// realtime ID without a session needs a new I/O driver first.
    Apply { needs_driver: bool },
}

impl RealtimeSessions {
    /// Routes an inbound realtime signal: the entry checks (see
    /// `signal_entry_check`), then a consent is checked against the bound
    /// session (see `check_inbound_consent`), a close goes to the close path,
    /// and any other kind to the WebRTC path.
    pub fn route_inbound_signal(
        &self,
        kind: RealtimeSignalKind,
        realtime_id: &str,
        peer_id: &str,
        peer_registered: bool,
        revision: u64,
        shared: &str,
        payload: &[u8],
        decoded: Option<ScreenShareConsent>,
        now_ms: u64,
    ) -> (r: Result<InboundRoute, RealtimeRejection>)
        requires
            self.wf(),
        ensures
            ({
                let entry = signal_entry_check(
                    realtime_id.spec_bytes(),
                    shared.spec_bytes(),
                    peer_id.spec_bytes(),
                    peer_registered,
                    kind,
                    revision,
                    payload@.len(),
                );
                let expected = if self@.sessions.contains_key(realtime_id@) {
                    Some(self@.sessions[realtime_id@].shared_session_instance_id)
                } else {
                    None
                };
                let consent = consent_check_spec(
                    payload@.len(),
                    decoded,
                    realtime_id@,
                    Some(peer_id@),
                    expected,
                    now_ms,
                );
                &&& entry is Err ==> r == Err::<InboundRoute, RealtimeRejection>(entry->Err_0)
                &&& entry is Ok && kind == RealtimeSignalKind::ScreenShareConsent ==> {
                    &&& r is Ok <==> consent is Ok
                    &&& r matches Err(e) ==> consent == Err::<(), RealtimeRejection>(e)
                    &&& r matches Ok(v) ==> (v matches InboundRoute::Consent(c) && decoded == Some(c))
                }
                &&& entry is Ok && kind == RealtimeSignalKind::WebRtcClose ==> (r matches Ok(InboundRoute::Close))
                &&& entry is Ok && kind != RealtimeSignalKind::ScreenShareConsent && kind
                    != RealtimeSignalKind::WebRtcClose ==> (r matches Ok(InboundRoute::Apply { needs_driver })
                    && needs_driver == (kind == RealtimeSignalKind::WebRtcOffer && !self@.sessions.contains_key(
                    realtime_id@)))
            }),
    {
        validate_realtime_id(realtime_id)?;
        validate_shared_session_instance_id(shared)?;
        validate_peer(peer_id, peer_registered)?;
        validate_signal(kind, revision, payload)?;
        if kind == RealtimeSignalKind::ScreenShareConsent {
            let c = self.check_inbound_consent(realtime_id, peer_id, payload.len(), decoded, now_ms)?;
            return Ok(InboundRoute::Consent(c));
        }
        if kind == RealtimeSignalKind::WebRtcClose {
            return Ok(InboundRoute::Close);
        }
        let needs_driver = kind == RealtimeSignalKind::WebRtcOffer && !self.contains(realtime_id);
        Ok(InboundRoute::Apply { needs_driver })
    }
}

/// The events a realtime I/O driver reports.
#[derive(Debug, Clone, Copy, PartialEq, Eq, Structural)]
pub enum RealtimeIoEventKind {
    LocalIceCandidate,
    PeerConnected,
    PeerDisconnected,
    PeerFailed,
    IceFailed,
    DataChannelMessage,
    IceConnected,
    DataChannelOpened,
    DataChannelClosed,
}

/// What the runtime does with an I/O event: forward a gathered candidate,
/// report a state (with a full snapshot after Connected), and whether the
/// session's I/O loop ends.
#[derive(Debug, Clone, Copy, PartialEq, Eq, Structural)]
pub struct IoEventAction {
    pub forward_candidate: bool,
    pub state: Option<RealtimeSessionState>,
    pub snapshot: bool,
    pub stop: bool,
}

pub open spec fn io_event_spec(e: RealtimeIoEventKind) -> IoEventAction {
    match e {
        RealtimeIoEventKind::LocalIceCandidate => IoEventAction {
            forward_candidate: true,
            state: None,
            snapshot: false,
            stop: false,
        },
        RealtimeIoEventKind::PeerConnected => IoEventAction {
            forward_candidate: false,
            state: Some(RealtimeSessionState::Connected),
            snapshot: true,
            stop: false,
        },
        RealtimeIoEventKind::PeerDisconnected => IoEventAction {
            forward_candidate: false,
            state: Some(RealtimeSessionState::Failed),
            snapshot: false,
            stop: true,
        },
        RealtimeIoEventKind::PeerFailed => IoEventAction {
            forward_candidate: false,
            state: Some(RealtimeSessionState::Failed),
            snapshot: false,
            stop: true,
        },
        RealtimeIoEventKind::IceFailed => IoEventAction {
            forward_candidate: false,
            state: Some(RealtimeSessionState::Failed),
            snapshot: false,
            stop: true,
        },
        _ => IoEventAction { forward_candidate: false, state: None, snapshot: false, stop: false },
    }
}

/// The events after which the peer connection is gone: it disconnected or
/// failed, or its ICE failed.
pub open spec fn peer_connection_dead(e: RealtimeIoEventKind) -> bool {
    ||| e == RealtimeIoEventKind::PeerDisconnected
    ||| e == RealtimeIoEventKind::PeerFailed
    ||| e == RealtimeIoEventKind::IceFailed
}

/// Only a dead peer connection reports Failed and ends the I/O loop; ICE
/// connecting and data-channel events report no state and let it run on;
/// Connected is reported with a snapshot, and only gathered candidates are
/// forwarded.
pub proof fn lemma_io_event_stops_only_on_dead_peer(e: RealtimeIoEventKind)
    ensures
        io_event_spec(e).stop <==> peer_connection_dead(e),
        io_event_spec(e).state == Some(RealtimeSessionState::Failed) <==> peer_connection_dead(e),
        io_event_spec(e).state == Some(RealtimeSessionState::Connected) <==> e == RealtimeIoEventKind::PeerConnected,
        (e == RealtimeIoEventKind::IceConnected || e == RealtimeIoEventKind::DataChannelOpened || e
            == RealtimeIoEventKind::DataChannelClosed || e == RealtimeIoEventKind::DataChannelMessage) ==> (
        io_event_spec(e).state is None && !io_event_spec(e).stop && !io_event_spec(e).forward_candidate
            && !io_event_spec(e).snapshot),
        io_event_spec(e).forward_candidate <==> e == RealtimeIoEventKind::LocalIceCandidate,
{
}

/// A terminated peer connection reports Failed and ends the loop; Connected
/// is reported with a snapshot; the other events change no state.
pub fn io_event_action(e: RealtimeIoEventKind) -> (a: IoEventAction)
    ensures
        a == io_event_spec(e),
        a.stop <==> (e == RealtimeIoEventKind::PeerDisconnected || e == RealtimeIoEventKind::PeerFailed || e
            == RealtimeIoEventKind::IceFailed),
        a.state == Some(RealtimeSessionState::Failed) <==> (e == RealtimeIoEventKind::PeerDisconnected || e
            == RealtimeIoEventKind::PeerFailed || e == RealtimeIoEventKind::IceFailed),
        a.state == Some(RealtimeSessionState::Connected) <==> e == RealtimeIoEventKind::PeerConnected,
        (e == RealtimeIoEventKind::IceConnected || e == RealtimeIoEventKind::DataChannelOpened || e
            == RealtimeIoEventKind::DataChannelClosed || e == RealtimeIoEventKind::DataChannelMessage) ==> (a.state
            is None && !a.stop),
        a.snapshot <==> e == RealtimeIoEventKind::PeerConnected,
        a.forward_candidate <==> e == RealtimeIoEventKind::LocalIceCandidate,
{
    match e {
        RealtimeIoEventKind::LocalIceCandidate => IoEventAction {
            forward_candidate: true,
            state: None,
            snapshot: false,
            stop: false,
        },
        RealtimeIoEventKind::PeerConnected => IoEventAction {
            forward_candidate: false,
            state: Some(RealtimeSessionState::Connected),
            snapshot: true,
            stop: false,
        },
        RealtimeIoEventKind::PeerDisconnected | RealtimeIoEventKind::PeerFailed | RealtimeIoEventKind::IceFailed => {
            IoEventAction { forward_candidate: false, state: Some(RealtimeSessionState::Failed), snapshot: false, stop: true }
        },
        _ => IoEventAction { forward_candidate: false, state: None, snapshot: false, stop: false },
    }
}

} // verus!
