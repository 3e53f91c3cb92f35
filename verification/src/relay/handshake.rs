//! The Relay E2EE handshake book: which handshakes are in flight, by the key
//! `peer/token`, on the initiator side (waiters) and the responder side
//! (responders awaiting the final message, confirmers awaiting the root
//! confirmation). The handshake state objects themselves are opaque here.

use crate::realtime::wire::{is_lower_hex_id, is_lower_hex_text, text_bytes};
use crate::relay::envelope::relay_crypto_key;
use crate::strmap::{has_prefix, str_eq, StrMap};
use vstd::prelude::*;
use vstd::string::StringSliceAdditionalSpecFns;

verus! {

/// At most this many responder (and confirmer) handshakes are in flight.
pub const MAX_PENDING_RELAY_CRYPTO_HANDSHAKES: usize = 64;

/// The steps of the Relay E2EE handshake.
#[derive(Debug, Clone, Copy, PartialEq, Eq, Structural)]
pub enum RelayCryptoStep {
    Hello,
    Response,
    Final,
    RootSeed,
    RootConfirm,
    Accept,
    Unsupported,
}

/// Why a Relay E2EE handshake frame was refused.
#[derive(Debug, Clone, Copy, PartialEq, Eq, Structural)]
pub enum RelayCryptoError {
    NotBoundToPeer,
    E2eeNotRequired,
    NoInitiator,
    ResponderQueueFull,
    NoResponder,
    IdentityMismatch,
    ConfirmerQueueFull,
    NoConfirmer,
    UnsupportedStep,
}

/// What a frame's step asks of the local side.
#[derive(Debug, Clone, Copy, PartialEq, Eq, Structural)]
pub enum RelayCryptoRoute {
    /// A response for a local initiator: forward it to its waiter.
    ToInitiator,
    /// A peer starts a handshake: answer as responder.
    AcceptHello,
    /// The initiator's final message: authenticate it.
    AcceptFinal,
    /// The initiator confirmed the root seed: admit the session.
    AcceptRootConfirm,
}

/// A handshake frame is taken only under a 32-character lowercase
/// hexadecimal token, from a registered peer on an authorized Relay route,
/// and only where E2EE is required; its key is `peer/token`.
pub fn check_relay_crypto_binding(
    session_token: &str,
    peer_id: &str,
    peer_registered: bool,
    route_authorized: bool,
    e2ee_required: bool,
) -> (r: Result<String, RelayCryptoError>)
    ensures
        !(is_lower_hex_text(session_token.spec_bytes(), 32) && peer_id@.len() > 0 && peer_registered
            && route_authorized) ==> r == Err::<String, RelayCryptoError>(RelayCryptoError::NotBoundToPeer),
        is_lower_hex_text(session_token.spec_bytes(), 32) && peer_id@.len() > 0 && peer_registered && route_authorized
            && !e2ee_required ==> r == Err::<String, RelayCryptoError>(RelayCryptoError::E2eeNotRequired),
        is_lower_hex_text(session_token.spec_bytes(), 32) && peer_id@.len() > 0 && peer_registered && route_authorized
            && e2ee_required ==> (r matches Ok(k) && k@ == peer_id@ + "/"@ + session_token@),
{
    proof {
        vstd::utf8::encode_utf8_decode_utf8(peer_id@);
        if peer_id.spec_bytes().len() == 0 {
            assert(peer_id.spec_bytes() =~= Seq::<u8>::empty());
            assert(vstd::utf8::decode_utf8(Seq::<u8>::empty()) =~= Seq::<char>::empty());
        }
    }
    if !is_lower_hex_id(session_token, 16) || peer_id.as_bytes().len() == 0 || !peer_registered || !route_authorized {
        return Err(RelayCryptoError::NotBoundToPeer);
    }
    if !e2ee_required {
        return Err(RelayCryptoError::E2eeNotRequired);
    }
    Ok(relay_crypto_key(peer_id, session_token))
}

pub open spec fn route_spec(step: RelayCryptoStep) -> Result<RelayCryptoRoute, RelayCryptoError> {
    match step {
        RelayCryptoStep::Response => Ok(RelayCryptoRoute::ToInitiator),
        RelayCryptoStep::RootSeed => Ok(RelayCryptoRoute::ToInitiator),
        RelayCryptoStep::Accept => Ok(RelayCryptoRoute::ToInitiator),
        RelayCryptoStep::Hello => Ok(RelayCryptoRoute::AcceptHello),
        RelayCryptoStep::Final => Ok(RelayCryptoRoute::AcceptFinal),
        RelayCryptoStep::RootConfirm => Ok(RelayCryptoRoute::AcceptRootConfirm),
        RelayCryptoStep::Unsupported => Err(RelayCryptoError::UnsupportedStep),
    }
}

/// Where a frame of each step goes.
pub fn route_relay_crypto_step(step: RelayCryptoStep) -> (r: Result<RelayCryptoRoute, RelayCryptoError>)
    ensures
        r == route_spec(step),
{
    match step {
        RelayCryptoStep::Response => Ok(RelayCryptoRoute::ToInitiator),
        RelayCryptoStep::RootSeed => Ok(RelayCryptoRoute::ToInitiator),
        RelayCryptoStep::Accept => Ok(RelayCryptoRoute::ToInitiator),
        RelayCryptoStep::Hello => Ok(RelayCryptoRoute::AcceptHello),
        RelayCryptoStep::Final => Ok(RelayCryptoRoute::AcceptFinal),
        RelayCryptoStep::RootConfirm => Ok(RelayCryptoRoute::AcceptRootConfirm),
        RelayCryptoStep::Unsupported => Err(RelayCryptoError::UnsupportedStep),
    }
}

/// The identity a handshake authenticated must be the peer the frame was
/// routed from.
pub fn check_handshake_identity(authenticated_peer_id: &str, peer_id: &str) -> (r: Result<(), RelayCryptoError>)
    ensures
        r == if authenticated_peer_id@ == peer_id@ {
            Ok::<(), RelayCryptoError>(())
        } else {
            Err(RelayCryptoError::IdentityMismatch)
        },
{
    if str_eq(authenticated_peer_id, peer_id) {
        Ok(())
    } else {
        Err(RelayCryptoError::IdentityMismatch)
    }
}

/// Why an authenticated Relay session was not admitted.
#[derive(Debug, Clone, Copy, PartialEq, Eq, Structural)]
pub enum RelayAdmissionError {
    PolicyNotRequired,
    BindingInvalid,
}

/// The admission of an authenticated Relay session: E2EE must be required
/// by the peer's policy and by the negotiated material, and the material
/// must bind the local session key and the Relay token.
pub fn check_relay_admission(
    policy_required: bool,
    material_policy_required: bool,
    local_session_binding: &str,
    session_wire_key: &str,
    remote_session_binding: &str,
    session_token: &str,
) -> (r: Result<(), RelayAdmissionError>)
    ensures
        !(policy_required && material_policy_required) ==> r == Err::<(), RelayAdmissionError>(
            RelayAdmissionError::PolicyNotRequired,
        ),
        policy_required && material_policy_required && (local_session_binding@ != session_wire_key@
            || remote_session_binding@ != session_token@) ==> r == Err::<(), RelayAdmissionError>(
            RelayAdmissionError::BindingInvalid,
        ),
        policy_required && material_policy_required && local_session_binding@ == session_wire_key@
            && remote_session_binding@ == session_token@ ==> r is Ok,
{
    if !(policy_required && material_policy_required) {
        return Err(RelayAdmissionError::PolicyNotRequired);
    }
    if !str_eq(local_session_binding, session_wire_key) || !str_eq(remote_session_binding, session_token) {
        return Err(RelayAdmissionError::BindingInvalid);
    }
    Ok(())
}

pub struct HandshakeModel<W, R, C> {
    pub waiters: Map<Seq<char>, W>,
    pub responders: Map<Seq<char>, R>,
    pub confirmers: Map<Seq<char>, C>,
}

/// The in-flight handshakes. `W` is what reaches a waiting initiator, `R` a
/// responder awaiting the final message, `C` a responder awaiting the root
/// confirmation.
pub struct RelayHandshakeBook<W, R, C> {
    waiters: StrMap<W>,
    responders: StrMap<R>,
    confirmers: StrMap<C>,
}

/// The key of a handshake of `peer_id`.
pub open spec fn of_peer(key: Seq<char>, peer_id: Seq<char>) -> bool {
    has_prefix(key, peer_id + "/"@)
}

/// A map without the keys of one peer.
pub open spec fn without_peer_keys<V>(m: Map<Seq<char>, V>, peer_id: Seq<char>) -> Map<Seq<char>, V> {
    Map::new(|k: Seq<char>| m.dom().contains(k) && !of_peer(k, peer_id), |k: Seq<char>| m[k])
}

impl<W, R, C> RelayHandshakeBook<W, R, C> {
    pub closed spec fn model(&self) -> HandshakeModel<W, R, C> {
        HandshakeModel { waiters: self.waiters@, responders: self.responders@, confirmers: self.confirmers@ }
    }

    /// The maps are well formed and at most `MAX_PENDING_RELAY_CRYPTO_HANDSHAKES`
    /// responders and confirmers are in flight.
    pub closed spec fn wf(&self) -> bool {
        &&& self.waiters.wf()
        &&& self.responders.wf()
        &&& self.confirmers.wf()
        &&& self.responders.spec_len() <= MAX_PENDING_RELAY_CRYPTO_HANDSHAKES
        &&& self.confirmers.spec_len() <= MAX_PENDING_RELAY_CRYPTO_HANDSHAKES
    }

    /// The number of in-flight responders and confirmers.
    pub proof fn lemma_bounds(&self)
        requires
            self.wf(),
        ensures
            self@.responders.dom().finite(),
            self@.confirmers.dom().finite(),
            self@.responders.dom().len() <= MAX_PENDING_RELAY_CRYPTO_HANDSHAKES,
            self@.confirmers.dom().len() <= MAX_PENDING_RELAY_CRYPTO_HANDSHAKES,
    {
        self.responders.lemma_len();
        self.confirmers.lemma_len();
    }

    pub fn new() -> (r: Self)
        ensures
            r.wf(),
            r@.waiters.is_empty(),
            r@.responders.is_empty(),
            r@.confirmers.is_empty(),
    {
        RelayHandshakeBook { waiters: StrMap::new(), responders: StrMap::new(), confirmers: StrMap::new() }
    }

    /// The waiter of a local initiator's handshake.
    pub fn waiter(&self, key: &str) -> (r: Option<&W>)
        requires
            self.wf(),
        ensures
            r.is_some() == self@.waiters.dom().contains(key@),
            r matches Some(w) ==> *w == self@.waiters[key@],
    {
        self.waiters.get(key)
    }

    /// A local initiator waits for responses under `key`.
    pub fn insert_waiter(&mut self, key: String, w: W)
        requires
            old(self).wf(),
        ensures
            final(self).wf(),
            final(self)@ == (HandshakeModel { waiters: old(self)@.waiters.insert(key@, w), ..old(self)@ }),
    {
        self.waiters.insert(key, w);
    }

    pub fn remove_waiter(&mut self, key: &str) -> (r: Option<W>)
        requires
            old(self).wf(),
        ensures
            final(self).wf(),
            final(self)@ == (HandshakeModel { waiters: old(self)@.waiters.remove(key@), ..old(self)@ }),
            r.is_some() == old(self)@.waiters.dom().contains(key@),
    {
        self.waiters.remove(key)
    }

    /// A peer (re)starts a handshake: a confirmer left from an earlier
    /// attempt under the same key is dropped.
    pub fn restart_responder_side(&mut self, key: &str)
        requires
            old(self).wf(),
        ensures
            final(self).wf(),
            final(self)@ == (HandshakeModel { confirmers: old(self)@.confirmers.remove(key@), ..old(self)@ }),
    {
        proof {
            self.confirmers.lemma_len();
        }
        let _ = self.confirmers.remove(key);
        proof {
            self.confirmers.lemma_len();
            assert(self.confirmers@.dom().subset_of(old(self).confirmers@.dom()));
            vstd::set_lib::lemma_len_subset(self.confirmers@.dom(), old(self).confirmers@.dom());
        }
    }

    /// Keeps a responder awaiting the final message; refused when the queue
    /// is full and the key is new.
    pub fn insert_responder(&mut self, key: String, r: R) -> (res: Result<(), RelayCryptoError>)
        requires
            old(self).wf(),
        ensures
            final(self).wf(),
            ({
                let m = old(self)@;
                let full = m.responders.dom().len() >= MAX_PENDING_RELAY_CRYPTO_HANDSHAKES
                    && !m.responders.dom().contains(key@);
                &&& full ==> res == Err::<(), RelayCryptoError>(RelayCryptoError::ResponderQueueFull)
                    && final(self)@ == m
                &&& !full ==> res is Ok && final(self)@ == (HandshakeModel {
                    responders: m.responders.insert(key@, r),
                    ..m
                })
            }),
    {
        proof {
            self.responders.lemma_len();
        }
        if self.responders.len() >= MAX_PENDING_RELAY_CRYPTO_HANDSHAKES && !self.responders.contains_key(
            key.as_str(),
        ) {
            return Err(RelayCryptoError::ResponderQueueFull);
        }
        let ghost old_len = self.responders.spec_len();
        let ghost had = self.responders@.dom().contains(key@);
        self.responders.insert(key, r);
        proof {
            self.responders.lemma_len();
            if had {
                assert(self.responders@.dom() =~= old(self).responders@.dom());
            } else {
                assert(self.responders@.dom() =~= old(self).responders@.dom().insert(key@));
            }
        }
        Ok(())
    }

    /// Takes the responder awaiting the final message.
    pub fn take_responder(&mut self, key: &str) -> (r: Result<R, RelayCryptoError>)
        requires
            old(self).wf(),
        ensures
            final(self).wf(),
            final(self)@ == (HandshakeModel { responders: old(self)@.responders.remove(key@), ..old(self)@ }),
            !old(self)@.responders.dom().contains(key@) ==> r == Err::<R, RelayCryptoError>(
                RelayCryptoError::NoResponder,
            ),
            old(self)@.responders.dom().contains(key@) ==> r == Ok::<R, RelayCryptoError>(
                old(self)@.responders[key@],
            ),
    {
        proof {
            self.responders.lemma_len();
        }
        let r = self.responders.remove(key);
        proof {
            self.responders.lemma_len();
            if old(self).responders@.dom().contains(key@) {
                assert(self.responders@.dom() =~= old(self).responders@.dom().remove(key@));
            } else {
                assert(self.responders@.dom() =~= old(self).responders@.dom());
            }
        }
        match r {
            Some(v) => Ok(v),
            None => Err(RelayCryptoError::NoResponder),
        }
    }

    /// Keeps an authenticated responder awaiting the root confirmation;
    /// refused when the queue is full and the key is new.
    pub fn insert_confirmer(&mut self, key: String, c: C) -> (res: Result<(), RelayCryptoError>)
        requires
            old(self).wf(),
        ensures
            final(self).wf(),
            ({
                let m = old(self)@;
                let full = m.confirmers.dom().len() >= MAX_PENDING_RELAY_CRYPTO_HANDSHAKES
                    && !m.confirmers.dom().contains(key@);
                &&& full ==> res == Err::<(), RelayCryptoError>(RelayCryptoError::ConfirmerQueueFull)
                    && final(self)@ == m
                &&& !full ==> res is Ok && final(self)@ == (HandshakeModel {
                    confirmers: m.confirmers.insert(key@, c),
                    ..m
                })
            }),
    {
        proof {
            self.confirmers.lemma_len();
        }
        if self.confirmers.len() >= MAX_PENDING_RELAY_CRYPTO_HANDSHAKES && !self.confirmers.contains_key(
            key.as_str(),
        ) {
            return Err(RelayCryptoError::ConfirmerQueueFull);
        }
        let ghost had = self.confirmers@.dom().contains(key@);
        self.confirmers.insert(key, c);
        proof {
            self.confirmers.lemma_len();
            if had {
                assert(self.confirmers@.dom() =~= old(self).confirmers@.dom());
            } else {
                assert(self.confirmers@.dom() =~= old(self).confirmers@.dom().insert(key@));
            }
        }
        Ok(())
    }

    /// Takes the responder awaiting the root confirmation.
    pub fn take_confirmer(&mut self, key: &str) -> (r: Result<C, RelayCryptoError>)
        requires
            old(self).wf(),
        ensures
            final(self).wf(),
            final(self)@ == (HandshakeModel { confirmers: old(self)@.confirmers.remove(key@), ..old(self)@ }),
            !old(self)@.confirmers.dom().contains(key@) ==> r == Err::<C, RelayCryptoError>(
                RelayCryptoError::NoConfirmer,
            ),
            old(self)@.confirmers.dom().contains(key@) ==> r == Ok::<C, RelayCryptoError>(
                old(self)@.confirmers[key@],
            ),
    {
        proof {
            self.confirmers.lemma_len();
        }
        let r = self.confirmers.remove(key);
        proof {
            self.confirmers.lemma_len();
            if old(self).confirmers@.dom().contains(key@) {
                assert(self.confirmers@.dom() =~= old(self).confirmers@.dom().remove(key@));
            } else {
                assert(self.confirmers@.dom() =~= old(self).confirmers@.dom());
            }
        }
        match r {
            Some(v) => Ok(v),
            None => Err(RelayCryptoError::NoConfirmer),
        }
    }

    /// Drops every handshake of every peer.
    pub fn clear(&mut self)
        requires
            old(self).wf(),
        ensures
            final(self).wf(),
            final(self)@.waiters.is_empty(),
            final(self)@.responders.is_empty(),
            final(self)@.confirmers.is_empty(),
    {
        self.waiters.clear();
        self.responders.clear();
        self.confirmers.clear();
        proof {
            self.responders.lemma_len();
            self.confirmers.lemma_len();
            assert(self.responders@.dom() =~= Set::<Seq<char>>::empty());
            assert(self.confirmers@.dom() =~= Set::<Seq<char>>::empty());
        }
    }
}

impl<W, R, C> View for RelayHandshakeBook<W, R, C> {
    type V = HandshakeModel<W, R, C>;

    open spec fn view(&self) -> HandshakeModel<W, R, C> {
        self.model()
    }
}

impl<W, R, C> RelayHandshakeBook<W, R, C> {
    /// A peer's data plane went away: its handshakes (keys `peer/…`) are
    /// dropped.
    pub fn remove_peer(&mut self, peer_id: &str)
        requires
            old(self).wf(),
        ensures
            final(self).wf(),
            final(self)@.waiters == without_peer_keys(old(self)@.waiters, peer_id@),
            final(self)@.responders == without_peer_keys(old(self)@.responders, peer_id@),
            final(self)@.confirmers == without_peer_keys(old(self)@.confirmers, peer_id@),
    {
        let prefix = peer_id.to_owned().concat("/");
        proof {
            self.responders.lemma_len();
            self.confirmers.lemma_len();
        }
        self.waiters.remove_prefixed(prefix.as_str());
        self.responders.remove_prefixed(prefix.as_str());
        self.confirmers.remove_prefixed(prefix.as_str());
        proof {
            self.responders.lemma_len();
            self.confirmers.lemma_len();
            assert(self.responders@.dom().subset_of(old(self).responders@.dom()));
            assert(self.confirmers@.dom().subset_of(old(self).confirmers@.dom()));
            vstd::set_lib::lemma_len_subset(self.responders@.dom(), old(self).responders@.dom());
            vstd::set_lib::lemma_len_subset(self.confirmers@.dom(), old(self).confirmers@.dom());
            assert(self@.waiters =~= without_peer_keys(old(self)@.waiters, peer_id@));
            assert(self@.responders =~= without_peer_keys(old(self)@.responders, peer_id@));
            assert(self@.confirmers =~= without_peer_keys(old(self)@.confirmers, peer_id@));
        }
    }
}

} // verus!
