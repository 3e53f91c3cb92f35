//! Incoming Relay transfers: offers awaiting approval and accepted
//! transfers receiving chunks, keyed by transfer ID. File handles and the
//! running content hash stay with the caller; the book holds the ordering
//! state that decides what is accepted.

use crate::relay::offer::{PendingRelayIncoming, PendingView, RelayOfferError};
use crate::relay::transfer::{valid_offset_spec, ManifestView, RELAY_FILE_CHUNK_BYTES};
use crate::strmap::{key_views, str_eq, StrMap};
use vstd::prelude::*;

verus! {

/// At most this many offers wait for approval.
pub const MAX_PENDING_INCOMING_TRANSFERS: usize = 64;

/// An accepted incoming transfer.
pub struct ActiveRelayIncoming {
    pub offer: PendingRelayIncoming,
    /// Sequence number the next chunk must carry.
    pub next_sequence: u64,
    pub received_bytes: u64,
    /// The complete file already existed; no chunk is expected.
    pub already_completed: bool,
    /// A partial file is open for writing.
    pub has_file: bool,
}

pub struct ActiveView {
    pub offer: PendingView,
    pub next_sequence: u64,
    pub received_bytes: u64,
    pub already_completed: bool,
    pub has_file: bool,
}

impl View for ActiveRelayIncoming {
    type V = ActiveView;

    open spec fn view(&self) -> ActiveView {
        ActiveView {
            offer: self.offer@,
            next_sequence: self.next_sequence,
            received_bytes: self.received_bytes,
            already_completed: self.already_completed,
            has_file: self.has_file,
        }
    }
}

/// Why a chunk or completion was refused.
#[derive(Debug, Clone, Copy, PartialEq, Eq, Structural)]
pub enum RelayChunkError {
    NotAccepted,
    ReplayedOrReordered,
    ExceedsDeclaredSize,
    SequenceExhausted,
    /// A completion before all bytes arrived, or from another sender.
    Incomplete,
}

pub struct BookModel {
    pub pending: Map<Seq<char>, PendingView>,
    pub active: Map<Seq<char>, ActiveView>,
}

/// Offers and transfers are stored under their own transfer ID, and a
/// transfer never received more than its declared size.
pub open spec fn book_wf(m: BookModel) -> bool {
    &&& forall|k: Seq<char>| #[trigger] m.pending.dom().contains(k) ==> m.pending[k].transfer_id == k
    &&& forall|k: Seq<char>| #[trigger] m.active.dom().contains(k) ==> m.active[k].offer.transfer_id == k
        && m.active[k].received_bytes <= m.active[k].offer.manifest.file_size
}

/// Recording an offer: refused while the transfer is being received, when
/// too many offers wait (for a new transfer ID), or when the transfer ID is
/// bound to another sender or manifest; otherwise stored (an identical resend
/// replaces the waiting one). `Ok(true)` for a new offer.
pub open spec fn record_offer_spec(m: BookModel, p: PendingView) -> (BookModel, Result<bool, RelayOfferError>) {
    let t = p.transfer_id;
    if m.active.dom().contains(t) {
        (m, Err(RelayOfferError::AlreadyReceiving))
    } else if !m.pending.dom().contains(t) && m.pending.dom().len() >= MAX_PENDING_INCOMING_TRANSFERS {
        (m, Err(RelayOfferError::TooManyPending))
    } else if m.pending.dom().contains(t) && (m.pending[t].sender_id != p.sender_id || m.pending[t].manifest
        != p.manifest || m.pending[t].manifest_hash != p.manifest_hash) {
        (m, Err(RelayOfferError::DifferentManifest))
    } else {
        (BookModel { pending: m.pending.insert(t, p), ..m }, Ok(!m.pending.dom().contains(t)))
    }
}

/// The state an accepted transfer starts in at `offset`.
pub open spec fn activated(p: PendingView, offset: u64, already_completed: bool, has_file: bool) -> ActiveView {
    ActiveView {
        offer: p,
        next_sequence: (offset / RELAY_FILE_CHUNK_BYTES) as u64,
        received_bytes: offset,
        already_completed,
        has_file,
    }
}

/// A chunk is taken in order: not after a completed file, with the next
/// sequence number, at least a GCM tag of ciphertext, into an open file.
pub open spec fn chunk_acceptable(a: ActiveView, sequence: u64, ciphertext_len: nat) -> bool {
    !a.already_completed && sequence == a.next_sequence && ciphertext_len >= 16 && a.has_file
}

/// A chunk, once taken, cannot be taken again: the next sequence number
/// moved past it.
pub proof fn lemma_chunk_replay_refused(a: ActiveView, sequence: u64, ciphertext_len: nat, clear_len: u64)
    requires
        chunk_acceptable(a, sequence, ciphertext_len),
        a.next_sequence < u64::MAX,
    ensures
        !chunk_acceptable(
            ActiveView {
                received_bytes: (a.received_bytes + clear_len) as u64,
                next_sequence: (a.next_sequence + 1) as u64,
                ..a
            },
            sequence,
            ciphertext_len,
        ),
{
}

/// A resume offset short of the end is a whole number of chunks, so it maps
/// to exactly one sequence number.
pub proof fn lemma_offset_maps_to_sequence(offset: u64, total_bytes: u64)
    requires
        valid_offset_spec(offset, total_bytes),
        offset != total_bytes,
    ensures
        (offset / RELAY_FILE_CHUNK_BYTES) * RELAY_FILE_CHUNK_BYTES == offset,
{
    vstd::arithmetic::div_mod::lemma_fundamental_div_mod(offset as int, RELAY_FILE_CHUNK_BYTES as int);
}

/// An offer resent unchanged while it waits is accepted again, as an old
/// offer, and changes nothing.
pub proof fn lemma_offer_resend_idempotent(m: BookModel, p: PendingView)
    requires
        record_offer_spec(m, p).1 == Ok::<bool, RelayOfferError>(true),
    ensures
        record_offer_spec(record_offer_spec(m, p).0, p) == (record_offer_spec(m, p).0, Ok::<bool, RelayOfferError>(
            false,
        )),
{
    let m1 = record_offer_spec(m, p).0;
    assert(m1.pending.insert(p.transfer_id, p) =~= m1.pending);
}

pub struct RelayIncomingBook {
    pending: StrMap<PendingRelayIncoming>,
    active: StrMap<ActiveRelayIncoming>,
}

impl RelayIncomingBook {
    pub closed spec fn model(&self) -> BookModel {
        BookModel {
            pending: self.pending@.map_values(|p: PendingRelayIncoming| p@),
            active: self.active@.map_values(|a: ActiveRelayIncoming| a@),
        }
    }

    pub closed spec fn wf(&self) -> bool {
        self.pending.wf() && self.active.wf() && book_wf(self.model())
    }

    pub fn new() -> (r: Self)
        ensures
            r.wf(),
            r@.pending.is_empty(),
            r@.active.is_empty(),
    {
        let r = RelayIncomingBook { pending: StrMap::new(), active: StrMap::new() };
        assert(r@.pending =~= Map::<Seq<char>, PendingView>::empty());
        assert(r@.active =~= Map::<Seq<char>, ActiveView>::empty());
        r
    }

    /// Records a checked offer (see `record_offer_spec`).
    pub fn record_offer(&mut self, p: PendingRelayIncoming) -> (r: Result<bool, RelayOfferError>)
        requires
            old(self).wf(),
        ensures
            final(self).wf(),
            (final(self)@, r) == record_offer_spec(old(self)@, p@),
    {
        let ghost m = self@;
        let ghost pv = p@;
        if self.active.contains_key(p.transfer_id.as_str()) {
            return Err(RelayOfferError::AlreadyReceiving);
        }
        let exists = match self.pending.get(p.transfer_id.as_str()) {
            Some(prev) => {
                if !str_eq(prev.sender_id.as_str(), p.sender_id.as_str()) || !prev.manifest.same_as(&p.manifest)
                    || !str_eq(prev.manifest_hash.as_str(), p.manifest_hash.as_str()) {
                    return Err(RelayOfferError::DifferentManifest);
                }
                true
            },
            None => false,
        };
        proof {
            self.pending.lemma_len();
            assert(m.pending.dom() =~= self.pending@.dom());
        }
        if !exists && self.pending.len() >= MAX_PENDING_INCOMING_TRANSFERS {
            return Err(RelayOfferError::TooManyPending);
        }
        let k = p.transfer_id.clone();
        self.pending.insert(k, p);
        proof {
            assert(self@.pending =~= m.pending.insert(pv.transfer_id, pv));
            assert(self@.active =~= m.active);
        }
        Ok(!exists)
    }

    /// The offer awaiting approval for a transfer.
    pub fn pending(&self, transfer_id: &str) -> (r: Option<&PendingRelayIncoming>)
        requires
            self.wf(),
        ensures
            r.is_some() == self@.pending.dom().contains(transfer_id@),
            r matches Some(p) ==> p@ == self@.pending[transfer_id@],
    {
        self.pending.get(transfer_id)
    }

    /// Takes an offer out of the approval queue (to accept or refuse it).
    pub fn take_pending(&mut self, transfer_id: &str) -> (r: Option<PendingRelayIncoming>)
        requires
            old(self).wf(),
        ensures
            final(self).wf(),
            final(self)@ == (BookModel { pending: old(self)@.pending.remove(transfer_id@), ..old(self)@ }),
            r.is_some() == old(self)@.pending.dom().contains(transfer_id@),
            r matches Some(p) ==> p@ == old(self)@.pending[transfer_id@],
    {
        let ghost m = self@;
        let r = self.pending.remove(transfer_id);
        proof {
            assert(self@.pending =~= m.pending.remove(transfer_id@));
            assert(self@.active =~= m.active);
        }
        r
    }

    /// Puts an offer back in the approval queue after its acceptance could
    /// not proceed.
    pub fn restore_pending(&mut self, p: PendingRelayIncoming)
        requires
            old(self).wf(),
        ensures
            final(self).wf(),
            final(self)@ == (BookModel { pending: old(self)@.pending.insert(p@.transfer_id, p@), ..old(self)@ }),
    {
        let ghost m = self@;
        let ghost pv = p@;
        let k = p.transfer_id.clone();
        self.pending.insert(k, p);
        proof {
            assert(self@.pending =~= m.pending.insert(pv.transfer_id, pv));
            assert(self@.active =~= m.active);
        }
    }

    /// Starts receiving an accepted transfer at a chunk-aligned `offset`:
    /// the next chunk carries the sequence number of that boundary.
    pub fn activate(&mut self, p: PendingRelayIncoming, offset: u64, already_completed: bool, has_file: bool)
        requires
            old(self).wf(),
            valid_offset_spec(offset, p@.manifest.file_size),
        ensures
            final(self).wf(),
            final(self)@ == (BookModel {
                active: old(self)@.active.insert(p@.transfer_id, activated(p@, offset, already_completed, has_file)),
                ..old(self)@
            }),
    {
        let ghost m = self@;
        let ghost pv = p@;
        let k = p.transfer_id.clone();
        let a = ActiveRelayIncoming {
            offer: p,
            next_sequence: offset / RELAY_FILE_CHUNK_BYTES,
            received_bytes: offset,
            already_completed,
            has_file,
        };
        self.active.insert(k, a);
        proof {
            assert(self@.active =~= m.active.insert(pv.transfer_id, activated(pv, offset, already_completed, has_file)));
            assert(self@.pending =~= m.pending);
        }
    }

    /// The accepted transfer of an ID.
    pub fn active(&self, transfer_id: &str) -> (r: Option<&ActiveRelayIncoming>)
        requires
            self.wf(),
        ensures
            r.is_some() == self@.active.dom().contains(transfer_id@),
            r matches Some(a) ==> a@ == self@.active[transfer_id@],
    {
        self.active.get(transfer_id)
    }

    /// Finds an accepted transfer by its Relay session ID (or, when
    /// `by_transfer_id`, by its transfer ID as well), in walk order.
    fn find_active(&self, id: &str, by_transfer_id: bool) -> (r: Option<String>)
        requires
            self.wf(),
        ensures
            r is None <==> !exists|k: Seq<char>|
                #![trigger self@.active[k]]
                self@.active.dom().contains(k) && ((by_transfer_id && k == id@) || self@.active[k].offer.session_id
                    == id@),
            r matches Some(k) ==> self@.active.dom().contains(k@) && ((by_transfer_id && k@ == id@)
                || self@.active[k@].offer.session_id == id@),
    {
        let n = self.active.len();
        let mut i: usize = 0;
        while i < n
            invariant
                self.wf(),
                n == self.active.spec_len(),
                i <= n,
                forall|j: int|
                    0 <= j < i ==> !((by_transfer_id && #[trigger] self.active.key_at_spec(j) == id@)
                        || self@.active[self.active.key_at_spec(j)].offer.session_id == id@),
            decreases n - i,
        {
            let k = self.active.key_at(i);
            let a = self.active.value_at(i);
            proof {
                self.active.lemma_key_at(i as int);
            }
            if (by_transfer_id && str_eq(k.as_str(), id)) || str_eq(a.offer.session_id.as_str(), id) {
                proof {
                    let kk = self.active.key_at_spec(i as int);
                    assert(self@.active.dom().contains(kk));
                    assert(self@.active[kk] == a@);
                }
                return Some(k.clone());
            }
            i += 1;
        }
        proof {
            if exists|k: Seq<char>|
                #![trigger self@.active[k]]
                self@.active.dom().contains(k) && ((by_transfer_id && k == id@) || self@.active[k].offer.session_id
                    == id@) {
                let k = choose|k: Seq<char>|
                    #![trigger self@.active[k]]
                    self@.active.dom().contains(k) && ((by_transfer_id && k == id@) || self@.active[k].offer.session_id
                        == id@);
                self.active.lemma_key_visited(k);
                let j = choose|j: int| 0 <= j < n && self.active.key_at_spec(j) == k;
                assert(!((by_transfer_id && self.active.key_at_spec(j) == id@)
                    || self@.active[self.active.key_at_spec(j)].offer.session_id == id@));
            }
        }
        None
    }

    /// Checks a chunk of a Relay session before it is decrypted: some
    /// accepted transfer of that session must take it in order (see
    /// `chunk_acceptable`). Hands back the transfer ID.
    pub fn check_chunk(&self, session_id: &str, sequence: u64, ciphertext_len: usize) -> (r: Result<
        String,
        RelayChunkError,
    >)
        requires
            self.wf(),
        ensures
            (r == Err::<String, RelayChunkError>(RelayChunkError::NotAccepted)) <==> !exists|k: Seq<char>|
                #![trigger self@.active[k]]
                self@.active.dom().contains(k) && self@.active[k].offer.session_id == session_id@,
            r matches Ok(t) ==> self@.active.dom().contains(t@) && self@.active[t@].offer.session_id == session_id@
                && chunk_acceptable(self@.active[t@], sequence, ciphertext_len as nat),
            r == Err::<String, RelayChunkError>(RelayChunkError::ReplayedOrReordered) ==> exists|k: Seq<char>|
                #![trigger self@.active[k]]
                self@.active.dom().contains(k) && self@.active[k].offer.session_id == session_id@ && !chunk_acceptable(
                    self@.active[k],
                    sequence,
                    ciphertext_len as nat,
                ),
            r is Ok || r == Err::<String, RelayChunkError>(RelayChunkError::NotAccepted) || r == Err::<
                String,
                RelayChunkError,
            >(RelayChunkError::ReplayedOrReordered),
    {
        let k = match self.find_active(session_id, false) {
            Some(k) => k,
            None => return Err(RelayChunkError::NotAccepted),
        };
        let a = match self.active.get(k.as_str()) {
            Some(a) => a,
            None => return Err(RelayChunkError::NotAccepted),
        };
        if a.already_completed || sequence != a.next_sequence || ciphertext_len < 16 || !a.has_file {
            assert(self@.active[k@] == a@);
            return Err(RelayChunkError::ReplayedOrReordered);
        }
        Ok(k)
    }

    /// Records a decrypted chunk of `clear_len` bytes: refused when empty or
    /// beyond the declared size; the next sequence number follows.
    pub fn commit_chunk(&mut self, transfer_id: &str, clear_len: usize) -> (r: Result<u64, RelayChunkError>)
        requires
            old(self).wf(),
        ensures
            final(self).wf(),
            ({
                let m = old(self)@;
                let a = m.active[transfer_id@];
                &&& !m.active.dom().contains(transfer_id@) ==> r == Err::<u64, RelayChunkError>(
                    RelayChunkError::NotAccepted,
                ) && final(self)@ == m
                &&& m.active.dom().contains(transfer_id@) && (clear_len == 0 || a.received_bytes + clear_len
                    > a.offer.manifest.file_size) ==> r == Err::<u64, RelayChunkError>(
                    RelayChunkError::ExceedsDeclaredSize,
                ) && final(self)@ == m
                &&& m.active.dom().contains(transfer_id@) && clear_len > 0 && a.received_bytes + clear_len
                    <= a.offer.manifest.file_size && a.next_sequence == u64::MAX ==> r == Err::<u64, RelayChunkError>(
                    RelayChunkError::SequenceExhausted,
                ) && final(self)@ == m
                &&& m.active.dom().contains(transfer_id@) && clear_len > 0 && a.received_bytes + clear_len
                    <= a.offer.manifest.file_size && a.next_sequence < u64::MAX ==> r == Ok::<u64, RelayChunkError>(
                    (a.received_bytes + clear_len) as u64,
                ) && final(self)@ == (BookModel {
                    active: m.active.insert(
                        transfer_id@,
                        ActiveView {
                            received_bytes: (a.received_bytes + clear_len) as u64,
                            next_sequence: (a.next_sequence + 1) as u64,
                            ..a
                        },
                    ),
                    ..m
                })
            }),
    {
        let ghost m = self@;
        let (received, size, next) = match self.active.get(transfer_id) {
            Some(a) => {
                proof {
                    assert(self@.active.dom().contains(transfer_id@));
                    assert(self@.active[transfer_id@] == a@);
                }
                (a.received_bytes, a.offer.manifest.file_size, a.next_sequence)
            },
            None => return Err(RelayChunkError::NotAccepted),
        };
        if clear_len == 0 || clear_len as u64 > size - received {
            return Err(RelayChunkError::ExceedsDeclaredSize);
        }
        if next == u64::MAX {
            return Err(RelayChunkError::SequenceExhausted);
        }
        let mut a = match self.active.remove(transfer_id) {
            Some(a) => a,
            None => return Err(RelayChunkError::NotAccepted),
        };
        proof {
            assert(a@ == m.active[transfer_id@]);
            assert(a@.offer.transfer_id == transfer_id@);
        }
        a.received_bytes = received + clear_len as u64;
        a.next_sequence = next + 1;
        let ghost av = a@;
        let k = a.offer.transfer_id.clone();
        self.active.insert(k, a);
        proof {
            assert(self@.active =~= m.active.insert(transfer_id@, av));
            assert(self@.pending =~= m.pending);
        }
        Ok(received + clear_len as u64)
    }

    /// Takes the accepted transfer a completion names (by transfer ID or
    /// Relay session ID) out of the book. It must come from the offer's
    /// sender after every declared byte; `Ok` hands the transfer back with
    /// its ID.
    pub fn take_for_completion(&mut self, session_or_transfer_id: &str, sender_id: Option<&str>) -> (r: Result<
        (String, ActiveRelayIncoming),
        (RelayChunkError, Option<String>),
    >)
        requires
            old(self).wf(),
        ensures
            final(self).wf(),
            ({
                let m = old(self)@;
                let found = exists|k: Seq<char>|
                    #![trigger m.active[k]]
                    m.active.dom().contains(k) && (k == session_or_transfer_id@ || m.active[k].offer.session_id
                        == session_or_transfer_id@);
                &&& !found ==> r == Err::<(String, ActiveRelayIncoming), (RelayChunkError, Option<String>)>(
                    (RelayChunkError::NotAccepted, None),
                ) && final(self)@ == m
                &&& r matches Ok(v) ==> m.active.dom().contains(v.0@) && (v.0@ == session_or_transfer_id@
                    || m.active[v.0@].offer.session_id == session_or_transfer_id@) && v.1@ == m.active[v.0@]
                    && sender_id is Some && sender_id->Some_0@ == v.1@.offer.sender_id && v.1@.received_bytes
                    == v.1@.offer.manifest.file_size && final(self)@ == (BookModel {
                    active: m.active.remove(v.0@),
                    ..m
                })
                &&& r matches Err((e, Some(k))) ==> e == RelayChunkError::Incomplete && m.active.dom().contains(k@) && (
                k@ == session_or_transfer_id@ || m.active[k@].offer.session_id == session_or_transfer_id@) && (
                sender_id.is_none() || sender_id->Some_0@ != m.active[k@].offer.sender_id
                    || m.active[k@].received_bytes != m.active[k@].offer.manifest.file_size) && final(self)@
                    == (BookModel { active: m.active.remove(k@), ..m })
                &&& r matches Err((_, None)) ==> !found
            }),
    {
        let ghost m = self@;
        let k = match self.find_active(session_or_transfer_id, true) {
            Some(k) => k,
            None => return Err((RelayChunkError::NotAccepted, None)),
        };
        let a = match self.active.remove(k.as_str()) {
            Some(a) => a,
            None => return Err((RelayChunkError::NotAccepted, None)),
        };
        proof {
            assert(self@.active =~= m.active.remove(k@));
            assert(self@.pending =~= m.pending);
        }
        let from_sender = match sender_id {
            Some(s) => str_eq(s, a.offer.sender_id.as_str()),
            None => false,
        };
        if !from_sender || a.received_bytes != a.offer.manifest.file_size {
            return Err((RelayChunkError::Incomplete, Some(k)));
        }
        Ok((k, a))
    }

    /// Drops what a cancellation names: the waiting offer under that
    /// transfer ID, and the accepted transfer under that transfer ID or, if
    /// none, the first one of that Relay session. Hands back the transfer ID
    /// concerned and the dropped transfer.
    pub fn cancel(&mut self, session_or_transfer_id: &str) -> (r: (String, Option<ActiveRelayIncoming>))
        requires
            old(self).wf(),
        ensures
            final(self).wf(),
            ({
                let m = old(self)@;
                let id = session_or_transfer_id@;
                &&& final(self)@.pending == m.pending.remove(id)
                &&& m.active.dom().contains(id) ==> (r.1 matches Some(a) && a@ == m.active[id]) && r.0@ == id
                    && final(self)@.active == m.active.remove(id)
                &&& !m.active.dom().contains(id) && r.1 is Some ==> m.active.dom().contains(r.0@)
                    && m.active[r.0@].offer.session_id == id && r.1->Some_0@ == m.active[r.0@] && final(self)@.active
                    == m.active.remove(r.0@)
                &&& r.1 is None ==> r.0@ == id && final(self)@.active == m.active && !exists|k: Seq<char>|
                    #![trigger m.active[k]]
                    m.active.dom().contains(k) && (k == id || m.active[k].offer.session_id == id)
            }),
    {
        let ghost m = self@;
        let _ = self.pending.remove(session_or_transfer_id);
        let ghost m1 = self@;
        proof {
            assert(m1.pending =~= m.pending.remove(session_or_transfer_id@));
            assert(m1.active =~= m.active);
        }
        match self.active.remove(session_or_transfer_id) {
            Some(a) => {
                proof {
                    assert(self@.active =~= m.active.remove(session_or_transfer_id@));
                    assert(self@.pending =~= m1.pending);
                }
                return (session_or_transfer_id.to_owned(), Some(a));
            },
            None => {},
        }
        proof {
            assert(self@.active =~= m.active);
            assert(self@.pending =~= m1.pending);
        }
        match self.find_active(session_or_transfer_id, false) {
            Some(k) => {
                let removed = self.active.remove(k.as_str());
                proof {
                    assert(self@.active =~= m.active.remove(k@));
                    assert(self@.pending =~= m1.pending);
                }
                match removed {
                    Some(a) => (k, Some(a)),
                    None => (session_or_transfer_id.to_owned(), None),
                }
            },
            None => (session_or_transfer_id.to_owned(), None),
        }
    }

    /// A peer's data plane went away: its accepted transfers leave the book
    /// (their checkpoints stay with the transfer manager). Hands back their
    /// transfer IDs.
    pub fn drop_peer(&mut self, peer_id: &str) -> (r: Vec<String>)
        requires
            old(self).wf(),
        ensures
            final(self).wf(),
            final(self)@.pending == old(self)@.pending,
            forall|k: Seq<char>| #[trigger]
                final(self)@.active.dom().contains(k) <==> (old(self)@.active.dom().contains(k)
                    && old(self)@.active[k].offer.sender_id != peer_id@),
            forall|k: Seq<char>| #[trigger]
                final(self)@.active.dom().contains(k) ==> final(self)@.active[k] == old(self)@.active[k],
            forall|k: Seq<char>| #[trigger]
                key_views(r@).contains(k) <==> (old(self)@.active.dom().contains(k) && old(self)@.active[k].offer.sender_id
                    == peer_id@),
    {
        let ghost m = self@;
        let keys = self.active.keys();
        let ghost kv = key_views(keys@);
        proof {
            assert forall|k: Seq<char>| m.active.dom().contains(k) <==> kv.contains(k) by {
                assert(m.active.dom().contains(k) == self.active@.dom().contains(k));
            }
        }
        let mut dropped: Vec<String> = Vec::new();
        let mut t: usize = 0;
        while t < keys.len()
            invariant
                self.wf(),
                kv == key_views(keys@),
                kv.no_duplicates(),
                forall|k: Seq<char>| m.active.dom().contains(k) <==> kv.contains(k),
                t <= keys@.len(),
                self@.pending == m.pending,
                forall|k: Seq<char>| #[trigger]
                    self@.active.dom().contains(k) <==> (m.active.dom().contains(k) && (m.active[k].offer.sender_id
                        != peer_id@ || !kv.take(t as int).contains(k))),
                forall|k: Seq<char>| #[trigger] self@.active.dom().contains(k) ==> self@.active[k] == m.active[k],
                forall|k: Seq<char>| #[trigger]
                    key_views(dropped@).contains(k) <==> (kv.take(t as int).contains(k) && m.active.dom().contains(k)
                        && m.active[k].offer.sender_id == peer_id@),
            decreases keys@.len() - t,
        {
            let ghost k = kv[t as int];
            proof {
                assert(kv.take(t + 1) =~= kv.take(t as int).push(k));
                assert forall|x: Seq<char>| #[trigger] kv.take(t + 1).contains(x) <==> (kv.take(t as int).contains(x)
                    || x == k) by {
                    if kv.take(t + 1).contains(x) {
                        let j = choose|j: int| 0 <= j < t + 1 && #[trigger] kv.take(t + 1)[j] == x;
                        if j < t {
                            assert(kv.take(t as int)[j] == x);
                        }
                    }
                    if kv.take(t as int).contains(x) {
                        let j = choose|j: int| 0 <= j < t && #[trigger] kv.take(t as int)[j] == x;
                        assert(kv.take(t + 1)[j] == x);
                    }
                    if x == k {
                        assert(kv.take(t + 1)[t as int] == x);
                    }
                }
                assert(kv.contains(k));
                assert(!kv.take(t as int).contains(k)) by {
                    if kv.take(t as int).contains(k) {
                        let j = choose|j: int| 0 <= j < t && #[trigger] kv.take(t as int)[j] == k;
                        assert(kv[j] == k);
                    }
                }
                assert(self@.active.dom().contains(k));
            }
            let hit = match self.active.get(keys[t].as_str()) {
                Some(a) => {
                    proof {
                        assert(self@.active[k] == a@);
                    }
                    str_eq(a.offer.sender_id.as_str(), peer_id)
                },
                None => false,
            };
            if hit {
                let ghost before = self@;
                let ghost dv = key_views(dropped@);
                self.active.remove(keys[t].as_str());
                dropped.push(keys[t].clone());
                proof {
                    assert(self@.active =~= before.active.remove(k));
                    assert(self@.pending =~= before.pending);
                    assert(key_views(dropped@) =~= dv.push(k));
                    assert forall|x: Seq<char>| #[trigger] key_views(dropped@).contains(x) <==> (dv.contains(x) || x
                        == k) by {
                        if key_views(dropped@).contains(x) {
                            let j = choose|j: int| 0 <= j < key_views(dropped@).len() && #[trigger] key_views(
                                dropped@,
                            )[j] == x;
                            if j < dv.len() {
                                assert(dv[j] == x);
                            }
                        }
                        if dv.contains(x) {
                            let j = choose|j: int| 0 <= j < dv.len() && #[trigger] dv[j] == x;
                            assert(key_views(dropped@)[j] == x);
                        }
                        if x == k {
                            assert(key_views(dropped@)[dv.len() as int] == x);
                        }
                    }
                }
            }
            t += 1;
        }
        proof {
            assert(kv.take(kv.len() as int) =~= kv);
        }
        dropped
    }
}

impl View for RelayIncomingBook {
    type V = BookModel;

    open spec fn view(&self) -> BookModel {
        self.model()
    }
}

} // verus!
