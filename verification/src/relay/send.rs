//! The sender's side of a Relay file transfer once the receiver accepted:
//! read a chunk, send it under the next sequence number, repeat until the
//! declared size was sent, then send the completion and wait for its
//! acknowledgement. Each outside step reports an event; the next state and
//! action follow from it.

use crate::relay::transfer::{
    acceptance_ok, check_relay_acceptance, manifest_preimage, valid_offset_spec, FileManifest, RelayAcceptance,
    RelayChunkCursor, RELAY_FILE_CHUNK_BYTES,
};
use crate::outside::{hex_lower, sha256};
use crate::realtime::wire::text_bytes;
use vstd::prelude::*;

verus! {

/// Why sending stopped.
#[derive(Debug, Clone, Copy, PartialEq, Eq)]
pub enum SendFailure {
    /// The transfer was cancelled before the next read.
    Cancelled,
    /// The source ended before its declared size.
    SourceShrunk,
    /// No sequence number is left for another chunk.
    SequenceExhausted,
    /// Reading, encrypting or sending failed.
    Io { transient: bool },
    /// The receiver did not acknowledge the completion.
    CompletionNotAcknowledged,
}

/// A failure is transient (the transfer may pause for a new connection)
/// when it was a lost connection, an early end of the source or a missing
/// acknowledgement.
pub open spec fn failure_transient(f: SendFailure) -> bool {
    match f {
        SendFailure::Cancelled => false,
        SendFailure::SourceShrunk => true,
        SendFailure::SequenceExhausted => false,
        SendFailure::Io { transient } => transient,
        SendFailure::CompletionNotAcknowledged => true,
    }
}

#[derive(Debug, Clone, Copy, PartialEq, Eq)]
pub enum SendStage {
    /// The next chunk is to be read.
    Reading,
    /// A chunk of this many bytes is being sent.
    AwaitChunkSent(u64),
    /// Every byte was sent; the completion awaits its acknowledgement.
    AwaitCompletion,
    /// The receiver acknowledged the completion.
    Done,
    Failed(SendFailure),
}

/// A file being sent: the stage and the chunk cursor.
#[derive(Debug, Clone, Copy, PartialEq, Eq)]
pub struct RelaySend {
    pub stage: SendStage,
    pub cursor: RelayChunkCursor,
}

/// What an outside step reported.
#[derive(Debug, Clone, Copy, PartialEq, Eq)]
pub enum SendEvent {
    /// The transfer's cancellation was observed before reading.
    Cancelled,
    /// A read returned this many bytes (0 at the end of the source).
    Read(u64),
    /// The chunk went out.
    ChunkSent,
    /// Reading, encrypting or sending failed.
    StepFailed { transient: bool },
    /// The completion was acknowledged (`true`) or not (`false`, also on a
    /// timeout).
    CompletionAck(bool),
}

/// What to do next.
#[derive(Debug, Clone, Copy, PartialEq, Eq)]
pub enum SendAction {
    /// Check for cancellation, then read at most `max` bytes.
    ReadChunk { max: u64 },
    /// Encrypt the bytes read and send them as chunk `sequence`.
    SendChunk { sequence: u64, len: u64 },
    /// Send the completion and wait for its acknowledgement.
    SendComplete,
    /// Mark the transfer verified and completed.
    MarkCompleted,
    /// Stop; tell the receiver to cancel when `notify_peer`.
    Fail { failure: SendFailure, notify_peer: bool },
    /// The event does not belong to this stage: nothing changes.
    Ignore,
}

/// The next read asks for a chunk, or for what is left.
pub open spec fn read_len(c: RelayChunkCursor) -> u64 {
    if c.total - c.transferred < RELAY_FILE_CHUNK_BYTES {
        (c.total - c.transferred) as u64
    } else {
        RELAY_FILE_CHUNK_BYTES
    }
}

pub open spec fn send_wf(m: RelaySend) -> bool {
    &&& m.cursor.wf()
    &&& m.stage matches SendStage::AwaitChunkSent(n) ==> 0 < n <= read_len(m.cursor)
    &&& (m.stage is AwaitCompletion || m.stage is Done) ==> m.cursor.transferred == m.cursor.total
}

/// The sender right after an acceptance at `offset` of a file of `total`
/// bytes: reading from the chunk that holds the offset.
pub open spec fn send_start(offset: u64, total: u64) -> RelaySend {
    RelaySend {
        stage: SendStage::Reading,
        cursor: RelayChunkCursor { sequence: offset / RELAY_FILE_CHUNK_BYTES, transferred: offset, total },
    }
}

pub open spec fn fail_send(m: RelaySend, f: SendFailure) -> (RelaySend, SendAction) {
    (
        RelaySend { stage: SendStage::Failed(f), ..m },
        SendAction::Fail { failure: f, notify_peer: !failure_transient(f) },
    )
}

/// One step of the sender.
pub open spec fn send_step_spec(m: RelaySend, e: SendEvent) -> (RelaySend, SendAction) {
    let c = m.cursor;
    let ignore = (m, SendAction::Ignore);
    match m.stage {
        SendStage::Reading => match e {
            SendEvent::Cancelled => fail_send(m, SendFailure::Cancelled),
            SendEvent::Read(n) => if n > read_len(c) {
                ignore
            } else if n == 0 {
                if c.transferred == c.total {
                    (RelaySend { stage: SendStage::AwaitCompletion, ..m }, SendAction::SendComplete)
                } else {
                    fail_send(m, SendFailure::SourceShrunk)
                }
            } else {
                (
                    RelaySend { stage: SendStage::AwaitChunkSent(n), ..m },
                    SendAction::SendChunk { sequence: c.sequence, len: n },
                )
            },
            SendEvent::StepFailed { transient } => fail_send(m, SendFailure::Io { transient }),
            _ => ignore,
        },
        SendStage::AwaitChunkSent(n) => match e {
            SendEvent::ChunkSent => if c.sequence == u64::MAX {
                fail_send(m, SendFailure::SequenceExhausted)
            } else {
                let c2 = RelayChunkCursor {
                    sequence: (c.sequence + 1) as u64,
                    transferred: (c.transferred + n) as u64,
                    total: c.total,
                };
                (RelaySend { stage: SendStage::Reading, cursor: c2 }, SendAction::ReadChunk { max: read_len(c2) })
            },
            SendEvent::StepFailed { transient } => fail_send(m, SendFailure::Io { transient }),
            _ => ignore,
        },
        SendStage::AwaitCompletion => match e {
            SendEvent::CompletionAck(ok) => if ok {
                (RelaySend { stage: SendStage::Done, ..m }, SendAction::MarkCompleted)
            } else {
                fail_send(m, SendFailure::CompletionNotAcknowledged)
            },
            SendEvent::StepFailed { transient } => fail_send(m, SendFailure::Io { transient }),
            _ => ignore,
        },
        _ => ignore,
    }
}

impl RelaySend {
    /// Starts sending once the receiver's acceptance checks out against the
    /// manifest and the sender's own checkpoint; `None` (the acceptance does
    /// not match the transfer) otherwise.
    pub fn begin(acceptance: &RelayAcceptance, manifest: &FileManifest, transfer_offset: u64) -> (r: Option<
        (Self, SendAction),
    >)
        ensures
            ({
                let ok = acceptance_ok(
                    acceptance.v,
                    acceptance.transfer_id@,
                    acceptance.manifest_hash@,
                    text_bytes(acceptance.file_hash@),
                    acceptance.offset,
                    manifest@,
                    text_bytes(manifest.content_hash@),
                    hex_lower(sha256(manifest_preimage(manifest@))),
                    transfer_offset,
                );
                &&& !ok ==> r is None
                &&& ok ==> r == Some(
                    (
                        send_start(acceptance.offset, manifest.file_size),
                        SendAction::ReadChunk { max: read_len(send_start(acceptance.offset, manifest.file_size).cursor) },
                    ),
                )
            }),
    {
        if !check_relay_acceptance(acceptance, manifest, transfer_offset) {
            return None;
        }
        let cursor = RelayChunkCursor::start(acceptance.offset, manifest.file_size);
        let max = cursor.next_read_len() as u64;
        Some((RelaySend { stage: SendStage::Reading, cursor }, SendAction::ReadChunk { max }))
    }

    /// The next state and action after `event`. A read returns at most what
    /// the last `ReadChunk` asked for.
    pub fn step(self, event: SendEvent) -> (r: (Self, SendAction))
        requires
            send_wf(self),
            self.stage is Reading ==> (event matches SendEvent::Read(n) ==> n <= read_len(self.cursor)),
        ensures
            r == send_step_spec(self, event),
            send_wf(r.0),
    {
        let m = self;
        let ignore = (m, SendAction::Ignore);
        match m.stage {
            SendStage::Reading => match event {
                SendEvent::Cancelled => (
                    RelaySend { stage: SendStage::Failed(SendFailure::Cancelled), ..m },
                    SendAction::Fail { failure: SendFailure::Cancelled, notify_peer: true },
                ),
                SendEvent::Read(n) => if n == 0 {
                    if m.cursor.finished() {
                        (RelaySend { stage: SendStage::AwaitCompletion, ..m }, SendAction::SendComplete)
                    } else {
                        (
                            RelaySend { stage: SendStage::Failed(SendFailure::SourceShrunk), ..m },
                            SendAction::Fail { failure: SendFailure::SourceShrunk, notify_peer: false },
                        )
                    }
                } else {
                    (
                        RelaySend { stage: SendStage::AwaitChunkSent(n), ..m },
                        SendAction::SendChunk { sequence: m.cursor.sequence, len: n },
                    )
                },
                SendEvent::StepFailed { transient } => (
                    RelaySend { stage: SendStage::Failed(SendFailure::Io { transient }), ..m },
                    SendAction::Fail { failure: SendFailure::Io { transient }, notify_peer: !transient },
                ),
                _ => ignore,
            },
            SendStage::AwaitChunkSent(n) => match event {
                SendEvent::ChunkSent => {
                    let mut cursor = m.cursor;
                    if !cursor.advance(n as usize) {
                        return (
                            RelaySend { stage: SendStage::Failed(SendFailure::SequenceExhausted), ..m },
                            SendAction::Fail { failure: SendFailure::SequenceExhausted, notify_peer: true },
                        );
                    }
                    let max = cursor.next_read_len() as u64;
                    (RelaySend { stage: SendStage::Reading, cursor }, SendAction::ReadChunk { max })
                },
                SendEvent::StepFailed { transient } => (
                    RelaySend { stage: SendStage::Failed(SendFailure::Io { transient }), ..m },
                    SendAction::Fail { failure: SendFailure::Io { transient }, notify_peer: !transient },
                ),
                _ => ignore,
            },
            SendStage::AwaitCompletion => match event {
                SendEvent::CompletionAck(ok) => if ok {
                    (RelaySend { stage: SendStage::Done, ..m }, SendAction::MarkCompleted)
                } else {
                    (
                        RelaySend { stage: SendStage::Failed(SendFailure::CompletionNotAcknowledged), ..m },
                        SendAction::Fail { failure: SendFailure::CompletionNotAcknowledged, notify_peer: false },
                    )
                },
                SendEvent::StepFailed { transient } => (
                    RelaySend { stage: SendStage::Failed(SendFailure::Io { transient }), ..m },
                    SendAction::Fail { failure: SendFailure::Io { transient }, notify_peer: !transient },
                ),
                _ => ignore,
            },
            _ => ignore,
        }
    }
}

/// One step of the sender: a chunk goes out under the cursor's sequence
/// number and the next one follows under the next number with the bytes
/// added up; the completion is sent only once every declared byte was, and
/// the transfer is marked completed only on an acknowledged completion.
pub proof fn lemma_send_step(m: RelaySend, e: SendEvent)
    requires
        send_wf(m),
    ensures
        ({
            let (q, a) = send_step_spec(m, e);
            &&& send_wf(q)
            &&& q.cursor.total == m.cursor.total
            &&& (a matches SendAction::SendChunk { sequence, len } ==> m.stage is Reading && sequence
                == m.cursor.sequence && 0 < len <= read_len(m.cursor))
            &&& a is SendComplete ==> m.stage is Reading && m.cursor.transferred == m.cursor.total
            &&& a is MarkCompleted ==> m.stage is AwaitCompletion && e == SendEvent::CompletionAck(true)
            &&& (m.stage matches SendStage::AwaitChunkSent(n) ==> (e is ChunkSent ==> (m.cursor.sequence
                < u64::MAX ==> q.stage is Reading && q.cursor.sequence == m.cursor.sequence + 1
                && q.cursor.transferred == m.cursor.transferred + n)))
            &&& m.stage is AwaitChunkSent && e is ChunkSent && m.cursor.sequence == u64::MAX ==> q.stage
                == SendStage::Failed(SendFailure::SequenceExhausted)
            &&& (a matches SendAction::Fail { failure, notify_peer } ==> q.stage == SendStage::Failed(failure)
                && notify_peer == !failure_transient(failure))
            &&& (m.stage is Done || m.stage is Failed) ==> q == m && a is Ignore
        }),
{
}

/// The sender after a run of events from `m`, with the actions taken.
pub open spec fn send_run(m: RelaySend, events: Seq<SendEvent>) -> (RelaySend, Seq<SendAction>)
    decreases events.len(),
{
    if events.len() == 0 {
        (m, Seq::empty())
    } else {
        let (q, acts) = send_run(m, events.drop_last());
        let (r, a) = send_step_spec(q, events.last());
        (r, acts.push(a))
    }
}

/// How many chunks a run of actions sent.
pub open spec fn chunk_count(acts: Seq<SendAction>) -> nat
    decreases acts.len(),
{
    if acts.len() == 0 {
        0
    } else {
        chunk_count(acts.drop_last()) + if acts.last() is SendChunk {
            1nat
        } else {
            0nat
        }
    }
}

/// How many bytes the chunks of a run of actions carried.
pub open spec fn chunk_bytes(acts: Seq<SendAction>) -> nat
    decreases acts.len(),
{
    if acts.len() == 0 {
        0
    } else {
        chunk_bytes(acts.drop_last()) + match acts.last() {
            SendAction::SendChunk { len, .. } => len as nat,
            _ => 0nat,
        }
    }
}

/// How many completions a run of actions sent.
pub open spec fn complete_count(acts: Seq<SendAction>) -> nat
    decreases acts.len(),
{
    if acts.len() == 0 {
        0
    } else {
        complete_count(acts.drop_last()) + if acts.last() is SendComplete {
            1nat
        } else {
            0nat
        }
    }
}

/// The chunk at position `i` of a run carries the sequence number of the
/// resume chunk plus the number of chunks sent before it.
pub open spec fn chunk_numbered(acts: Seq<SendAction>, i: int, first: int) -> bool {
    acts[i] matches SendAction::SendChunk { sequence, .. } ==> sequence == first + chunk_count(acts.take(i))
}

/// Over any run after an acceptance at a chunk-aligned `offset`: the chunks
/// carry consecutive sequence numbers starting at the offset's chunk, the
/// completion is sent at most once, and a transfer that ends done sent every
/// declared byte after the offset in its chunks, and exactly one completion.
pub proof fn lemma_send_run(offset: u64, total: u64, events: Seq<SendEvent>)
    requires
        valid_offset_spec(offset, total),
    ensures
        ({
            let (q, acts) = send_run(send_start(offset, total), events);
            &&& send_wf(q)
            &&& q.cursor.total == total
            &&& forall|i: int| 0 <= i < acts.len() ==> #[trigger] chunk_numbered(acts, i, (offset / RELAY_FILE_CHUNK_BYTES) as int)
            &&& complete_count(acts) <= 1
            &&& q.stage is Done ==> q.cursor.transferred == total && offset + chunk_bytes(acts) == total
                && complete_count(acts) == 1
        }),
{
    lemma_send_run_inv(offset, total, events);
}

proof fn lemma_send_run_inv(offset: u64, total: u64, events: Seq<SendEvent>)
    requires
        valid_offset_spec(offset, total),
    ensures
        ({
            let (q, acts) = send_run(send_start(offset, total), events);
            let first = offset / RELAY_FILE_CHUNK_BYTES;
            &&& send_wf(q)
            &&& q.cursor.total == total
            &&& forall|i: int| 0 <= i < acts.len() ==> #[trigger] chunk_numbered(acts, i, first as int)
            &&& q.stage is AwaitChunkSent ==> q.cursor.sequence + 1 == first + chunk_count(acts)
            &&& (q.stage is Reading || q.stage is AwaitCompletion || q.stage is Done) ==> q.cursor.sequence == first
                + chunk_count(acts)
            &&& (q.stage matches SendStage::AwaitChunkSent(n) ==> q.cursor.transferred + n == offset + chunk_bytes(
                acts))
            &&& (q.stage is Reading || q.stage is AwaitCompletion || q.stage is Done) ==> q.cursor.transferred
                == offset + chunk_bytes(acts)
            &&& (q.stage is Reading || q.stage is AwaitChunkSent) ==> complete_count(acts) == 0
            &&& (q.stage is AwaitCompletion || q.stage is Done) ==> complete_count(acts) == 1
            &&& complete_count(acts) <= 1
        }),
    decreases events.len(),
{
    if events.len() > 0 {
        let prev = events.drop_last();
        lemma_send_run_inv(offset, total, prev);
        let (q, acts) = send_run(send_start(offset, total), prev);
        let e = events.last();
        lemma_send_step(q, e);
        let (r, a) = send_step_spec(q, e);
        let acts2 = acts.push(a);
        assert(send_run(send_start(offset, total), events) == (r, acts2));
        assert(acts2.drop_last() =~= acts);
        assert(acts2.last() == a);
        let first = (offset / RELAY_FILE_CHUNK_BYTES) as int;
        assert forall|i: int| 0 <= i < acts2.len() implies #[trigger] chunk_numbered(acts2, i, first) by {
            if i < acts.len() {
                assert(acts2.take(i) =~= acts.take(i));
                assert(chunk_numbered(acts, i, first));
            } else {
                assert(acts2.take(i) =~= acts);
            }
        }
    }
}

} // verus!
