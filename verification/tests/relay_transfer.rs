use network_core::relay::incoming::{RelayChunkError, RelayIncomingBook, MAX_PENDING_INCOMING_TRANSFERS};
use network_core::relay::offer::{
    check_relay_offer_fields, encode_offer_envelope, open_relay_offer, PendingRelayIncoming, RelayOfferError, RelayOfferFields,
};
use network_core::relay::transfer::{
    bytes_eq_ignore_ascii_case, check_relay_acceptance, relay_partial_file_name, fail_after_pause, is_safe_file_name,
    is_sha256_hash, is_transient_relay_error, relay_acceptance_for, relay_hash_matches,
    relay_manifest_hash, relay_send_end, send_cancel_on_failure, valid_relay_offset, FileManifest,
    RelayChunkCursor, RelayErrorTag, RelaySendEnd, DEFAULT_TRANSFER_BUFFER,
    RELAY_FILE_CHUNK_BYTES, RELAY_FILE_CHUNK_ENVELOPE_OVERHEAD_BYTES,
};

const SESSION: &str = "0123456789abcdef0123456789abcdef";
const SUITE: &str = "suite-1";
const MANIFEST_HASH_T1: &str = "dcb922820ebec8f2e5a4df8f722d7e10165b1c73ed1fa21d86176bf6f24c7031";

fn content_hash() -> String {
    "ab".repeat(32)
}

fn manifest(transfer_id: &str, size: u64) -> FileManifest {
    FileManifest {
        transfer_id: transfer_id.to_string(),
        file_name: "a.txt".to_string(),
        file_size: size,
        modified_at: 1_700_000_000,
        content_hash: content_hash(),
        protocol_version: 1,
    }
}

fn fields_for(m: &FileManifest, manifest_hash: &str) -> RelayOfferFields {
    RelayOfferFields {
        v: Some(1),
        crypto_suite: Some(SUITE.to_string()),
        session_id: Some(SESSION.to_string()),
        crypto_session_id: Some("00112233aabbccdd".to_string()),
        transfer_id: Some(m.transfer_id.clone()),
        manifest_hash: Some(manifest_hash.to_string()),
        sender_id: Some("sender".to_string()),
        receiver_id: Some("me".to_string()),
        file_name: Some(m.file_name.clone()),
        file_size: Some(m.file_size),
        modified_at: Some(m.modified_at),
        content_hash: Some(m.content_hash.clone()),
    }
}

fn pending(transfer_id: &str, size: u64) -> PendingRelayIncoming {
    let m = manifest(transfer_id, size);
    let h = relay_manifest_hash(&m);
    check_relay_offer_fields(fields_for(&m, &h), SESSION, "sender", "me", SUITE, 1).unwrap()
}

#[test]
fn chunk_size_leaves_room_for_envelope_overhead() {
    assert_eq!(RELAY_FILE_CHUNK_ENVELOPE_OVERHEAD_BYTES, 83);
    assert_eq!(
        RELAY_FILE_CHUNK_BYTES as usize + RELAY_FILE_CHUNK_ENVELOPE_OVERHEAD_BYTES,
        DEFAULT_TRANSFER_BUFFER
    );
}

#[test]
fn file_names_are_one_safe_component() {
    assert!(is_safe_file_name("a.txt"));
    assert!(is_safe_file_name("..."));
    assert!(!is_safe_file_name(""));
    assert!(!is_safe_file_name("."));
    assert!(!is_safe_file_name(".."));
    assert!(!is_safe_file_name("a/b"));
    assert!(!is_safe_file_name("a\\b"));
    assert!(!is_safe_file_name("a\0b"));
    assert!(is_safe_file_name(&"x".repeat(255)));
    assert!(!is_safe_file_name(&"x".repeat(256)));
}

#[test]
fn sha256_hashes_are_64_hex_digits() {
    assert!(is_sha256_hash(&"aB".repeat(32)));
    assert!(!is_sha256_hash(&"a".repeat(63)));
    assert!(!is_sha256_hash(&"g".repeat(64)));
}

#[test]
fn ascii_case_is_ignored() {
    assert!(bytes_eq_ignore_ascii_case(b"AbC", b"aBc"));
    assert!(!bytes_eq_ignore_ascii_case(b"abc", b"abd"));
    assert!(!bytes_eq_ignore_ascii_case(b"abc", b"ab"));
    assert!(!bytes_eq_ignore_ascii_case(b"[", b"{"));
}

#[test]
fn hash_match_uses_lowercase_hex_of_digest() {
    let digest = [0xabu8, 0x01, 0xff];
    assert!(relay_hash_matches(&digest, "ab01ff"));
    assert!(relay_hash_matches(&digest, "AB01FF"));
    assert!(!relay_hash_matches(&digest, "ab01fe"));
    assert!(!relay_hash_matches(&digest, "ab01"));
}

#[test]
fn offsets_lie_on_chunk_boundaries() {
    let c = RELAY_FILE_CHUNK_BYTES;
    assert!(valid_relay_offset(0, 10));
    assert!(valid_relay_offset(10, 10));
    assert!(!valid_relay_offset(11, 10));
    assert!(!valid_relay_offset(5, 10));
    assert!(valid_relay_offset(c, 3 * c + 7));
    assert!(valid_relay_offset(2 * c, 3 * c + 7));
    assert!(!valid_relay_offset(c + 1, 3 * c + 7));
}

#[test]
fn manifest_hash_is_exact() {
    assert_eq!(relay_manifest_hash(&manifest("t1", 10)), MANIFEST_HASH_T1);
    let mut m = manifest("t1", 10);
    m.modified_at = -5;
    m.protocol_version = 3;
    assert_eq!(
        relay_manifest_hash(&m),
        "7d7c3bb965b7c311c973d34c6d58761f9f0a6ded1b0a541cd8fb242ab265207f"
    );
}

#[test]
fn manifest_same_as_and_duplicate() {
    let a = manifest("t1", 10);
    let b = a.duplicate();
    assert!(a.same_as(&b));
    let c = manifest("t1", 11);
    assert!(!a.same_as(&c));
}

#[test]
fn acceptance_checks() {
    let m = manifest("t1", 3 * RELAY_FILE_CHUNK_BYTES);
    let h = relay_manifest_hash(&m);
    let a = relay_acceptance_for("t1", &h, &content_hash().to_uppercase(), RELAY_FILE_CHUNK_BYTES);
    assert_eq!(a.v, 1);
    assert_eq!(a.offset, RELAY_FILE_CHUNK_BYTES);
    assert!(check_relay_acceptance(&a, &m, 0));
    assert!(check_relay_acceptance(&a, &m, RELAY_FILE_CHUNK_BYTES));
    assert!(!check_relay_acceptance(&a, &m, RELAY_FILE_CHUNK_BYTES + 1));
    let wrong_id = relay_acceptance_for("t2", &h, &content_hash(), 0);
    assert!(!check_relay_acceptance(&wrong_id, &m, 0));
    let wrong_hash = relay_acceptance_for("t1", MANIFEST_HASH_T1, &content_hash(), 0);
    assert!(!check_relay_acceptance(&wrong_hash, &m, 0));
    let unaligned = relay_acceptance_for("t1", &h, &content_hash(), 5);
    assert!(!check_relay_acceptance(&unaligned, &m, 0));
    let mut v2 = relay_acceptance_for("t1", &h, &content_hash(), 0);
    v2.v = 2;
    assert!(!check_relay_acceptance(&v2, &m, 0));
}

#[test]
fn chunk_cursor_walks_the_file() {
    let total = 2 * RELAY_FILE_CHUNK_BYTES + 10;
    let mut c = RelayChunkCursor::start(RELAY_FILE_CHUNK_BYTES, total);
    assert_eq!(c.sequence, 1);
    assert_eq!(c.transferred, RELAY_FILE_CHUNK_BYTES);
    assert_eq!(c.next_read_len(), RELAY_FILE_CHUNK_BYTES as usize);
    assert!(c.advance(RELAY_FILE_CHUNK_BYTES as usize));
    assert_eq!(c.sequence, 2);
    assert_eq!(c.next_read_len(), 10);
    assert!(!c.finished());
    assert!(c.advance(10));
    assert!(c.finished());
    assert_eq!(c.next_read_len(), 0);
    let mut exhausted = RelayChunkCursor { sequence: u64::MAX, transferred: 0, total: 5 };
    assert!(!exhausted.advance(5));
    assert_eq!(exhausted.transferred, 0);
}

#[test]
fn transient_errors_anywhere_in_the_chain() {
    assert!(!is_transient_relay_error(&[]));
    assert!(!is_transient_relay_error(&[RelayErrorTag::Other, RelayErrorTag::InvalidData]));
    assert!(is_transient_relay_error(&[RelayErrorTag::Other, RelayErrorTag::ConnectionReset]));
    assert!(is_transient_relay_error(&[RelayErrorTag::RelayNotConnected]));
}

#[test]
fn send_end_decisions() {
    assert_eq!(relay_send_end(true, true, false, false, false), RelaySendEnd::Forgotten);
    assert_eq!(relay_send_end(false, false, false, true, false), RelaySendEnd::Remove);
    assert_eq!(relay_send_end(true, true, false, true, true), RelaySendEnd::Remove);
    assert_eq!(relay_send_end(true, true, false, true, false), RelaySendEnd::TryPause);
    assert_eq!(relay_send_end(true, false, true, true, false), RelaySendEnd::FailSourceChanged);
    assert_eq!(relay_send_end(true, false, false, true, false), RelaySendEnd::FailIo);
    assert_eq!(fail_after_pause(true), RelaySendEnd::FailSourceChanged);
    assert_eq!(fail_after_pause(false), RelaySendEnd::FailIo);
    assert!(send_cancel_on_failure(true, false));
    assert!(!send_cancel_on_failure(true, true));
    assert!(!send_cancel_on_failure(false, false));
}

#[test]
fn offer_envelope_is_opened() {
    let mut body = SESSION.as_bytes().to_vec();
    body.extend_from_slice(b"aGVsbG8");
    let opened = open_relay_offer(true, &body).unwrap();
    assert_eq!(opened.session_id, SESSION);
    assert_eq!(
        opened.session_bytes,
        vec![0x01, 0x23, 0x45, 0x67, 0x89, 0xab, 0xcd, 0xef, 0x01, 0x23, 0x45, 0x67, 0x89, 0xab, 0xcd, 0xef]
    );
    assert_eq!(opened.ciphertext, b"hello".to_vec());
}

#[test]
fn offer_envelope_errors() {
    let mut body = SESSION.as_bytes().to_vec();
    body.extend_from_slice(b"aGVsbG8");
    assert!(matches!(open_relay_offer(false, &body), Err(RelayOfferError::SenderNotRegistered)));
    assert!(matches!(open_relay_offer(true, &body[..31]), Err(RelayOfferError::Truncated)));
    let mut upper = SESSION.to_uppercase().into_bytes();
    upper.extend_from_slice(b"aGVsbG8");
    assert!(matches!(open_relay_offer(true, &upper), Err(RelayOfferError::InvalidSessionId)));
    let mut padded = SESSION.as_bytes().to_vec();
    padded.extend_from_slice(b"aGVsbG8=");
    assert!(matches!(open_relay_offer(true, &padded), Err(RelayOfferError::MalformedBase64)));
    let mut bad_utf8 = SESSION.as_bytes().to_vec();
    bad_utf8.push(0xff);
    assert!(matches!(open_relay_offer(true, &bad_utf8), Err(RelayOfferError::NotUtf8)));
    let mut bad_head = vec![0xffu8];
    bad_head.extend_from_slice(&SESSION.as_bytes()[1..]);
    assert!(matches!(open_relay_offer(true, &bad_head), Err(RelayOfferError::NotUtf8)));
}

#[test]
fn offer_fields_build_pending_transfer() {
    let m = manifest("t1", 10);
    let p = check_relay_offer_fields(fields_for(&m, MANIFEST_HASH_T1), SESSION, "sender", "me", SUITE, 1).unwrap();
    assert_eq!(p.transfer_id, "t1");
    assert_eq!(p.session_id, SESSION);
    assert_eq!(p.sender_id, "sender");
    assert_eq!(p.manifest_hash, MANIFEST_HASH_T1);
    assert_eq!(p.crypto_session_id, "00112233aabbccdd");
    assert!(p.manifest.same_as(&m));
}

#[test]
fn offer_field_errors_in_order() {
    let m = manifest("t1", 10);
    let check = |f: RelayOfferFields| match check_relay_offer_fields(f, SESSION, "sender", "me", SUITE, 1) {
        Err(e) => e,
        Ok(_) => panic!("offer unexpectedly accepted"),
    };
    let mut f = fields_for(&m, MANIFEST_HASH_T1);
    f.transfer_id = None;
    assert_eq!(check(f), RelayOfferError::MissingTransferId);
    let mut f = fields_for(&m, MANIFEST_HASH_T1);
    f.file_name = None;
    assert_eq!(check(f), RelayOfferError::MissingFileName);
    let mut f = fields_for(&m, MANIFEST_HASH_T1);
    f.file_size = None;
    assert_eq!(check(f), RelayOfferError::InvalidFileSize);
    let mut f = fields_for(&m, MANIFEST_HASH_T1);
    f.modified_at = None;
    assert_eq!(check(f), RelayOfferError::InvalidModifiedAt);
    let mut f = fields_for(&m, MANIFEST_HASH_T1);
    f.content_hash = None;
    assert_eq!(check(f), RelayOfferError::MissingContentHash);
    let mut f = fields_for(&m, MANIFEST_HASH_T1);
    f.manifest_hash = None;
    assert_eq!(check(f), RelayOfferError::MissingManifestHash);
    let mut f = fields_for(&m, MANIFEST_HASH_T1);
    f.v = Some(2);
    assert_eq!(check(f), RelayOfferError::InvalidMetadata);
    let mut f = fields_for(&m, MANIFEST_HASH_T1);
    f.receiver_id = Some("other".to_string());
    assert_eq!(check(f), RelayOfferError::InvalidMetadata);
    let mut f = fields_for(&m, MANIFEST_HASH_T1);
    f.file_name = Some("../x".to_string());
    assert_eq!(check(f), RelayOfferError::InvalidMetadata);
    let mut f = fields_for(&m, MANIFEST_HASH_T1);
    f.crypto_session_id = Some("xyz".to_string());
    assert_eq!(check(f), RelayOfferError::InvalidCryptoSessionId);
    let mut f = fields_for(&m, MANIFEST_HASH_T1);
    f.crypto_session_id = None;
    assert_eq!(check(f), RelayOfferError::InvalidCryptoSessionId);
    let f = fields_for(&m, &"0".repeat(64));
    assert_eq!(check(f), RelayOfferError::ManifestHashMismatch);
}

#[test]
fn offers_are_recorded_and_resent_idempotently() {
    let mut book = RelayIncomingBook::new();
    assert_eq!(book.record_offer(pending("t1", 10)), Ok(true));
    assert_eq!(book.record_offer(pending("t1", 10)), Ok(false));
    assert!(book.pending("t1").is_some());
    assert_eq!(book.record_offer(pending("t1", 11)), Err(RelayOfferError::DifferentManifest));
    let p = book.take_pending("t1").unwrap();
    assert!(book.pending("t1").is_none());
    book.restore_pending(p);
    assert!(book.pending("t1").is_some());
}

#[test]
fn pending_offers_are_capped() {
    let mut book = RelayIncomingBook::new();
    for i in 0..MAX_PENDING_INCOMING_TRANSFERS {
        assert_eq!(book.record_offer(pending(&format!("t{}", i), 10)), Ok(true));
    }
    assert_eq!(book.record_offer(pending("overflow", 10)), Err(RelayOfferError::TooManyPending));
    assert_eq!(book.record_offer(pending("t0", 10)), Ok(false));
}

#[test]
fn chunks_are_taken_in_order_and_replays_refused() {
    let mut book = RelayIncomingBook::new();
    let p = pending("t1", 10);
    book.activate(p, 0, false, true);
    assert_eq!(book.record_offer(pending("t1", 10)), Err(RelayOfferError::AlreadyReceiving));
    assert_eq!(book.check_chunk("nope", 0, 32), Err(RelayChunkError::NotAccepted));
    assert_eq!(book.check_chunk(SESSION, 0, 32), Ok("t1".to_string()));
    assert_eq!(book.check_chunk(SESSION, 1, 32), Err(RelayChunkError::ReplayedOrReordered));
    assert_eq!(book.check_chunk(SESSION, 0, 15), Err(RelayChunkError::ReplayedOrReordered));
    assert_eq!(book.commit_chunk("t1", 0), Err(RelayChunkError::ExceedsDeclaredSize));
    assert_eq!(book.commit_chunk("t1", 11), Err(RelayChunkError::ExceedsDeclaredSize));
    assert_eq!(book.commit_chunk("t1", 4), Ok(4));
    assert_eq!(book.check_chunk(SESSION, 0, 32), Err(RelayChunkError::ReplayedOrReordered));
    assert_eq!(book.check_chunk(SESSION, 1, 32), Ok("t1".to_string()));
    assert_eq!(book.commit_chunk("t1", 6), Ok(10));
    assert_eq!(book.active("t1").unwrap().next_sequence, 2);
    assert_eq!(book.commit_chunk("missing", 1), Err(RelayChunkError::NotAccepted));
}

#[test]
fn resumed_transfer_starts_at_boundary_sequence() {
    let mut book = RelayIncomingBook::new();
    let p = pending("t1", 3 * RELAY_FILE_CHUNK_BYTES);
    book.activate(p, 2 * RELAY_FILE_CHUNK_BYTES, false, true);
    let a = book.active("t1").unwrap();
    assert_eq!(a.next_sequence, 2);
    assert_eq!(a.received_bytes, 2 * RELAY_FILE_CHUNK_BYTES);
}

#[test]
fn completed_file_takes_no_chunk() {
    let mut book = RelayIncomingBook::new();
    book.activate(pending("t1", 10), 10, true, false);
    assert_eq!(book.check_chunk(SESSION, 0, 32), Err(RelayChunkError::ReplayedOrReordered));
}

#[test]
fn completion_needs_every_byte_from_the_sender() {
    let mut book = RelayIncomingBook::new();
    book.activate(pending("t1", 10), 0, false, true);
    book.activate(pending("t2", 10), 0, false, true);
    assert_eq!(book.commit_chunk("t2", 10), Ok(10));
    match book.take_for_completion("t1", Some("sender")) {
        Err((RelayChunkError::Incomplete, Some(k))) => assert_eq!(k, "t1"),
        _ => panic!("incomplete transfer should be refused"),
    }
    assert!(book.active("t1").is_none());
    match book.take_for_completion("t2", Some("intruder")) {
        Err((RelayChunkError::Incomplete, Some(k))) => assert_eq!(k, "t2"),
        _ => panic!("completion from another sender should be refused"),
    }
    book.activate(pending("t3", 10), 0, false, true);
    assert_eq!(book.commit_chunk("t3", 10), Ok(10));
    match book.take_for_completion(SESSION, Some("sender")) {
        Ok((k, a)) => {
            assert_eq!(k, "t3");
            assert_eq!(a.received_bytes, 10);
        }
        _ => panic!("complete transfer should be taken"),
    }
    assert!(matches!(
        book.take_for_completion("t3", Some("sender")),
        Err((RelayChunkError::NotAccepted, None))
    ));
}

#[test]
fn cancel_and_drop_peer() {
    let mut book = RelayIncomingBook::new();
    book.record_offer(pending("t0", 10)).unwrap();
    book.activate(pending("t1", 10), 0, false, true);
    let (k, a) = book.cancel("t0");
    assert_eq!(k, "t0");
    assert!(a.is_none());
    assert!(book.pending("t0").is_none());
    let (k, a) = book.cancel(SESSION);
    assert_eq!(k, "t1");
    assert!(a.is_some());
    book.activate(pending("t2", 10), 0, false, true);
    book.activate(pending("t3", 10), 0, false, true);
    let dropped = book.drop_peer("sender");
    assert_eq!(dropped.len(), 2);
    assert!(dropped.contains(&"t2".to_string()));
    assert!(dropped.contains(&"t3".to_string()));
    assert!(book.active("t2").is_none());
    assert!(book.drop_peer("sender").is_empty());
}

#[test]
fn partial_file_name_appends_part() {
    assert_eq!(relay_partial_file_name("t1"), "t1.part");
    assert_eq!(relay_partial_file_name(""), ".part");
}

#[test]
fn offer_envelope_round_trip() {
    let env = encode_offer_envelope(SESSION, b"hello").unwrap();
    let mut expected = SESSION.as_bytes().to_vec();
    expected.extend_from_slice(b"aGVsbG8");
    assert_eq!(env, expected);
    let opened = open_relay_offer(true, &env).unwrap();
    assert_eq!(opened.session_id, SESSION);
    assert_eq!(opened.ciphertext, b"hello".to_vec());
    let binary: Vec<u8> = (0u8..=255).collect();
    let env = encode_offer_envelope(SESSION, &binary).unwrap();
    assert_eq!(open_relay_offer(true, &env).unwrap().ciphertext, binary);
    let empty = encode_offer_envelope(SESSION, b"").unwrap();
    assert_eq!(empty, SESSION.as_bytes().to_vec());
    assert!(open_relay_offer(true, &empty).unwrap().ciphertext.is_empty());
    assert_eq!(
        encode_offer_envelope(&SESSION.to_uppercase(), b"x"),
        Err(RelayOfferError::InvalidSessionId)
    );
}
