use network_core::relay::send::{RelaySend, SendAction, SendEvent, SendFailure, SendStage};
use network_core::relay::transfer::{relay_acceptance_for, relay_manifest_hash, FileManifest, RELAY_FILE_CHUNK_BYTES};

fn manifest(size: u64) -> FileManifest {
    FileManifest {
        transfer_id: "t1".to_string(),
        file_name: "a.txt".to_string(),
        file_size: size,
        modified_at: 1_700_000_000,
        content_hash: "ab".repeat(32),
        protocol_version: 1,
    }
}

fn begin(size: u64, offset: u64) -> (RelaySend, SendAction) {
    let m = manifest(size);
    let hash = relay_manifest_hash(&m);
    let acceptance = relay_acceptance_for("t1", &hash, &"AB".repeat(32), offset);
    RelaySend::begin(&acceptance, &m, 0).expect("acceptance matches")
}

/// Drives the sender over a source of `available` bytes and returns the
/// actions taken.
fn drive(mut m: RelaySend, mut action: SendAction, available: u64, ack: bool) -> (RelaySend, Vec<SendAction>) {
    let mut left = available;
    let mut actions = vec![action];
    loop {
        let event = match action {
            SendAction::ReadChunk { max } => {
                let n = max.min(left);
                left -= n;
                SendEvent::Read(n)
            }
            SendAction::SendChunk { .. } => SendEvent::ChunkSent,
            SendAction::SendComplete => SendEvent::CompletionAck(ack),
            _ => break,
        };
        let (next, a) = m.step(event);
        m = next;
        action = a;
        actions.push(a);
    }
    (m, actions)
}

#[test]
fn relay_send_from_start_numbers_chunks_from_zero() {
    let size = 2 * RELAY_FILE_CHUNK_BYTES + 10;
    let (m, a) = begin(size, 0);
    assert_eq!(a, SendAction::ReadChunk { max: RELAY_FILE_CHUNK_BYTES });
    let (end, actions) = drive(m, a, size, true);
    let chunks: Vec<(u64, u64)> = actions
        .iter()
        .filter_map(|a| match a {
            SendAction::SendChunk { sequence, len } => Some((*sequence, *len)),
            _ => None,
        })
        .collect();
    assert_eq!(chunks, vec![(0, RELAY_FILE_CHUNK_BYTES), (1, RELAY_FILE_CHUNK_BYTES), (2, 10)]);
    assert_eq!(actions.iter().filter(|a| **a == SendAction::SendComplete).count(), 1);
    assert_eq!(*actions.last().unwrap(), SendAction::MarkCompleted);
    assert_eq!(end.stage, SendStage::Done);
    assert_eq!(end.cursor.transferred, size);
}

#[test]
fn relay_send_resumes_at_offset_chunk() {
    let size = 3 * RELAY_FILE_CHUNK_BYTES;
    let (m, a) = begin(size, RELAY_FILE_CHUNK_BYTES);
    assert_eq!(m.cursor.sequence, 1);
    let (end, actions) = drive(m, a, 2 * RELAY_FILE_CHUNK_BYTES, true);
    let seqs: Vec<u64> = actions
        .iter()
        .filter_map(|a| match a {
            SendAction::SendChunk { sequence, .. } => Some(*sequence),
            _ => None,
        })
        .collect();
    assert_eq!(seqs, vec![1, 2]);
    assert_eq!(end.stage, SendStage::Done);
}

#[test]
fn relay_send_empty_remainder_completes_at_once() {
    let (m, a) = begin(100, 100);
    assert_eq!(a, SendAction::ReadChunk { max: 0 });
    let (m, a) = m.step(SendEvent::Read(0));
    assert_eq!(a, SendAction::SendComplete);
    assert_eq!(m.stage, SendStage::AwaitCompletion);
}

#[test]
fn relay_send_short_source_fails_transiently() {
    let size = RELAY_FILE_CHUNK_BYTES + 5;
    let (m, a) = begin(size, 0);
    let (end, actions) = drive(m, a, RELAY_FILE_CHUNK_BYTES, true);
    assert_eq!(end.stage, SendStage::Failed(SendFailure::SourceShrunk));
    assert_eq!(
        *actions.last().unwrap(),
        SendAction::Fail { failure: SendFailure::SourceShrunk, notify_peer: false }
    );
    assert!(!actions.contains(&SendAction::SendComplete));
}

#[test]
fn relay_send_unacknowledged_completion_fails() {
    let (m, a) = begin(10, 0);
    let (end, actions) = drive(m, a, 10, false);
    assert_eq!(end.stage, SendStage::Failed(SendFailure::CompletionNotAcknowledged));
    assert_eq!(
        *actions.last().unwrap(),
        SendAction::Fail { failure: SendFailure::CompletionNotAcknowledged, notify_peer: false }
    );
}

#[test]
fn relay_send_cancel_notifies_peer() {
    let (m, _) = begin(10, 0);
    let (m, a) = m.step(SendEvent::Cancelled);
    assert_eq!(a, SendAction::Fail { failure: SendFailure::Cancelled, notify_peer: true });
    let (m2, a2) = m.step(SendEvent::Read(3));
    assert_eq!(a2, SendAction::Ignore);
    assert_eq!(m2, m);
}

#[test]
fn relay_send_step_failure_notifies_only_when_not_transient() {
    let (m, _) = begin(10, 0);
    let (m, _) = m.step(SendEvent::Read(10));
    let (_, a) = m.step(SendEvent::StepFailed { transient: true });
    assert_eq!(a, SendAction::Fail { failure: SendFailure::Io { transient: true }, notify_peer: false });
    let (_, a) = m.step(SendEvent::StepFailed { transient: false });
    assert_eq!(a, SendAction::Fail { failure: SendFailure::Io { transient: false }, notify_peer: true });
}

#[test]
fn relay_send_rejects_mismatched_acceptance() {
    let m = manifest(10);
    let acceptance = relay_acceptance_for("t1", "wrong", &"ab".repeat(32), 0);
    assert!(RelaySend::begin(&acceptance, &m, 0).is_none());
    let hash = relay_manifest_hash(&m);
    let unaligned = relay_acceptance_for("t1", &hash, &"ab".repeat(32), 3);
    assert!(RelaySend::begin(&unaligned, &m, 0).is_none());
}

#[test]
fn relay_send_exhausted_sequence_fails() {
    let mut m = begin(10, 0).0;
    m.cursor.sequence = u64::MAX;
    let (m, _) = m.step(SendEvent::Read(10));
    let (m, a) = m.step(SendEvent::ChunkSent);
    assert_eq!(a, SendAction::Fail { failure: SendFailure::SequenceExhausted, notify_peer: true });
    assert_eq!(m.stage, SendStage::Failed(SendFailure::SequenceExhausted));
}
