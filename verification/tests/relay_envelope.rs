use network_core::relay::envelope::{
    decode_token_envelope, encode_chunk_body, encode_crypto_body, encode_data_envelope,
    encode_token_envelope, message_token_matches, parse_relay_data_envelope, read_be_u64, relay_crypto_key,
    write_be_u64, RelayDataEnvelope, RelayEnvelopeError, DATA_ENV_CHANNEL, DATA_ENV_CHANNEL_ACK,
    DATA_ENV_CRYPTO, DATA_ENV_FILE_ACCEPT, DATA_ENV_FILE_CANCEL, DATA_ENV_FILE_CHUNK,
    DATA_ENV_FILE_COMPLETE, DATA_ENV_FILE_COMPLETE_ACK, DATA_ENV_FILE_OFFER, DATA_ENV_STREAM,
};

const TOKEN: &str = "0123456789abcdef0123456789abcdef";

fn parse_err(bytes: &[u8], ready: bool) -> RelayEnvelopeError {
    match parse_relay_data_envelope(bytes, ready) {
        Err(e) => e,
        Ok(_) => panic!("envelope unexpectedly parsed"),
    }
}

#[test]
fn big_endian_round_trip() {
    for v in [0u64, 1, 255, 256, 0x0102_0304_0506_0708, u64::MAX] {
        let bytes = write_be_u64(v);
        assert_eq!(bytes.len(), 8);
        assert_eq!(read_be_u64(&bytes), v);
    }
    assert_eq!(write_be_u64(0x0102_0304_0506_0708), vec![1, 2, 3, 4, 5, 6, 7, 8]);
    assert_eq!(read_be_u64(&[0, 0, 0, 0, 0, 0, 1, 0]), 256);
}

#[test]
fn data_envelope_is_kind_then_body() {
    assert_eq!(encode_data_envelope(DATA_ENV_FILE_OFFER, b"abc"), vec![2, b'a', b'b', b'c']);
    assert_eq!(encode_data_envelope(9, b""), vec![9]);
}

#[test]
fn empty_envelope_is_refused() {
    assert_eq!(parse_err(&[], true), RelayEnvelopeError::Empty);
    assert_eq!(parse_err(&[], false), RelayEnvelopeError::Empty);
}

#[test]
fn business_envelope_needs_admission() {
    for kind in [
        DATA_ENV_FILE_OFFER,
        DATA_ENV_FILE_ACCEPT,
        DATA_ENV_FILE_COMPLETE,
        DATA_ENV_FILE_COMPLETE_ACK,
        DATA_ENV_FILE_CANCEL,
        DATA_ENV_FILE_CHUNK,
        DATA_ENV_CHANNEL,
        DATA_ENV_CHANNEL_ACK,
        DATA_ENV_STREAM,
        200,
    ] {
        assert_eq!(parse_err(&[kind, b'x', b'y'], false), RelayEnvelopeError::NotAdmitted);
    }
}

#[test]
fn crypto_envelope_round_trip_before_admission() {
    let body = encode_crypto_body(TOKEN, b"frame").unwrap();
    let env = encode_data_envelope(DATA_ENV_CRYPTO, &body);
    match parse_relay_data_envelope(&env, false).unwrap() {
        RelayDataEnvelope::Crypto { token, frame } => {
            assert_eq!(token, TOKEN);
            assert_eq!(frame, b"frame".to_vec());
        }
        _ => panic!("wrong envelope kind"),
    }
}

#[test]
fn crypto_token_must_be_lower_hex() {
    assert_eq!(
        encode_crypto_body("0123456789ABCDEF0123456789abcdef", b""),
        Err(RelayEnvelopeError::InvalidCryptoToken)
    );
    assert_eq!(encode_crypto_body("abc", b""), Err(RelayEnvelopeError::InvalidCryptoToken));
    let mut truncated = vec![DATA_ENV_CRYPTO];
    truncated.extend_from_slice(&[b'a'; 31]);
    assert_eq!(parse_err(&truncated, true), RelayEnvelopeError::CryptoTruncated);
    let mut bad = vec![DATA_ENV_CRYPTO, 0xff];
    bad.extend_from_slice(&[b'a'; 31]);
    assert_eq!(parse_err(&bad, true), RelayEnvelopeError::NotUtf8);
}

#[test]
fn chunk_envelope_round_trip() {
    let body = encode_chunk_body(TOKEN, 0x0a0b, b"cipher");
    assert_eq!(body.len(), 32 + 8 + 6);
    let env = encode_data_envelope(DATA_ENV_FILE_CHUNK, &body);
    match parse_relay_data_envelope(&env, true).unwrap() {
        RelayDataEnvelope::FileChunk { session_id, sequence, ciphertext } => {
            assert_eq!(session_id, TOKEN);
            assert_eq!(sequence, 0x0a0b);
            assert_eq!(ciphertext, b"cipher".to_vec());
        }
        _ => panic!("wrong envelope kind"),
    }
    let short = encode_data_envelope(DATA_ENV_FILE_CHUNK, &body[..39]);
    assert_eq!(parse_err(&short, true), RelayEnvelopeError::ChunkTruncated);
}

#[test]
fn text_envelopes_parse_when_admitted() {
    match parse_relay_data_envelope(&encode_data_envelope(DATA_ENV_FILE_ACCEPT, b"{}"), true).unwrap() {
        RelayDataEnvelope::FileAccept { text } => assert_eq!(text, "{}"),
        _ => panic!("wrong envelope kind"),
    }
    match parse_relay_data_envelope(&encode_data_envelope(DATA_ENV_FILE_COMPLETE, b"sid"), true).unwrap() {
        RelayDataEnvelope::FileComplete { session_or_transfer_id } => {
            assert_eq!(session_or_transfer_id, "sid")
        }
        _ => panic!("wrong envelope kind"),
    }
    match parse_relay_data_envelope(&encode_data_envelope(DATA_ENV_FILE_COMPLETE_ACK, b"t1"), true).unwrap() {
        RelayDataEnvelope::FileCompleteAck { transfer_id } => assert_eq!(transfer_id, "t1"),
        _ => panic!("wrong envelope kind"),
    }
    match parse_relay_data_envelope(&encode_data_envelope(DATA_ENV_FILE_CANCEL, b"t2"), true).unwrap() {
        RelayDataEnvelope::FileCancel { transfer_id } => assert_eq!(transfer_id, "t2"),
        _ => panic!("wrong envelope kind"),
    }
    match parse_relay_data_envelope(&encode_data_envelope(DATA_ENV_FILE_OFFER, &[0xff, 1]), true).unwrap() {
        RelayDataEnvelope::FileOffer { body } => assert_eq!(body, vec![0xff, 1]),
        _ => panic!("wrong envelope kind"),
    }
    assert_eq!(
        parse_err(&encode_data_envelope(DATA_ENV_FILE_ACCEPT, &[0xc3]), true),
        RelayEnvelopeError::NotUtf8
    );
}

#[test]
fn unknown_kind_is_reported() {
    assert_eq!(parse_err(&[0, 1], true), RelayEnvelopeError::UnknownKind(0));
    assert_eq!(parse_err(&[11], true), RelayEnvelopeError::UnknownKind(11));
}

#[test]
fn token_envelopes_round_trip() {
    for kind in [DATA_ENV_CHANNEL, DATA_ENV_CHANNEL_ACK, DATA_ENV_STREAM] {
        let env = encode_token_envelope(kind, "chan", b"payload").unwrap();
        assert_eq!(env[0], kind);
        assert_eq!(env[1], 4);
        let (token, payload) = match parse_relay_data_envelope(&env, true).unwrap() {
            RelayDataEnvelope::Channel { token, payload } if kind == DATA_ENV_CHANNEL => (token, payload),
            RelayDataEnvelope::ChannelAck { token, payload } if kind == DATA_ENV_CHANNEL_ACK => {
                (token, payload)
            }
            RelayDataEnvelope::Stream { token, payload } if kind == DATA_ENV_STREAM => (token, payload),
            _ => panic!("wrong envelope kind"),
        };
        assert_eq!(token, "chan");
        assert_eq!(payload, b"payload".to_vec());
    }
}

#[test]
fn token_envelope_errors() {
    assert_eq!(
        encode_token_envelope(DATA_ENV_CHANNEL, &"t".repeat(256), b""),
        Err(RelayEnvelopeError::TokenTooLong)
    );
    assert!(encode_token_envelope(DATA_ENV_CHANNEL, &"t".repeat(255), b"").is_ok());
    assert_eq!(decode_token_envelope(&[3]), Err(RelayEnvelopeError::TokenEnvelopeTruncated));
    assert_eq!(decode_token_envelope(&[5, b'a', b'b']), Err(RelayEnvelopeError::TokenTruncated));
    assert_eq!(decode_token_envelope(&[1, 0xff]), Err(RelayEnvelopeError::TokenNotUtf8));
    assert_eq!(decode_token_envelope(&[0, 7]), Ok((String::new(), vec![7])));
    assert_eq!(decode_token_envelope(&[2, b'a', b'b']), Ok(("ab".to_string(), vec![])));
}

#[test]
fn crypto_key_joins_peer_and_token() {
    assert_eq!(relay_crypto_key("peer", "tok"), "peer/tok");
    assert_eq!(relay_crypto_key("", ""), "/");
}

#[test]
fn message_token_is_hex_of_message_id() {
    assert!(message_token_matches(&[0x0a, 0xff], "0aff"));
    assert!(!message_token_matches(&[0x0a, 0xff], "0AFF"));
    assert!(!message_token_matches(&[0x0a, 0xff], "0afe"));
    assert!(message_token_matches(&[], ""));
}
