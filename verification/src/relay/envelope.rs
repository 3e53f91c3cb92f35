//! Relay data-plane envelopes.
//!
//! The data plane forwards opaque payloads. Their first byte tags the
//! envelope kind (transparent to the Relay); the rest is the kind's body.
//! Token-prefixed bodies carry a one-byte token length, the token, then the
//! payload. File chunks carry a 32-byte session ID and a big-endian sequence
//! number before the ciphertext.

use crate::outside::{hex_encode, hex_lower, str_from_utf8};
use crate::strmap::str_eq;
use crate::realtime::wire::{is_lower_hex_id, is_lower_hex_text, text_bytes};
use vstd::prelude::*;
use vstd::string::StringSliceAdditionalSpecFns;
use vstd::slice::{slice_subrange, slice_to_vec};
use vstd::utf8::valid_utf8;

verus! {

pub const DATA_ENV_CRYPTO: u8 = 1;
pub const DATA_ENV_FILE_OFFER: u8 = 2;
pub const DATA_ENV_FILE_ACCEPT: u8 = 3;
pub const DATA_ENV_FILE_COMPLETE: u8 = 4;
pub const DATA_ENV_FILE_COMPLETE_ACK: u8 = 5;
pub const DATA_ENV_FILE_CANCEL: u8 = 6;
pub const DATA_ENV_FILE_CHUNK: u8 = 7;
pub const DATA_ENV_CHANNEL: u8 = 8;
pub const DATA_ENV_CHANNEL_ACK: u8 = 9;
pub const DATA_ENV_STREAM: u8 = 10;

/// Why a data-plane envelope was refused.
#[derive(Debug, Clone, Copy, PartialEq, Eq, Structural)]
pub enum RelayEnvelopeError {
    Empty,
    /// A business envelope before the peer's Relay session was admitted.
    NotAdmitted,
    CryptoTruncated,
    NotUtf8,
    ChunkTruncated,
    TokenEnvelopeTruncated,
    TokenTruncated,
    TokenNotUtf8,
    TokenTooLong,
    InvalidCryptoToken,
    UnknownKind(u8),
}

/// A parsed data-plane envelope.
pub enum RelayDataEnvelope {
    /// A Relay E2EE handshake frame under its 32-character token.
    Crypto { token: String, frame: Vec<u8> },
    /// An encrypted file offer (session ID and encoded ciphertext).
    FileOffer { body: Vec<u8> },
    /// A receiver's acceptance, as JSON text.
    FileAccept { text: String },
    /// The sender finished sending a session's chunks.
    FileComplete { session_or_transfer_id: String },
    /// The receiver committed a transfer.
    FileCompleteAck { transfer_id: String },
    /// A transfer was cancelled.
    FileCancel { transfer_id: String },
    /// One encrypted chunk of a session.
    FileChunk { session_id: String, sequence: u64, ciphertext: Vec<u8> },
    Channel { token: String, payload: Vec<u8> },
    ChannelAck { token: String, payload: Vec<u8> },
    Stream { token: String, payload: Vec<u8> },
}

/// An envelope with its texts as their UTF-8 bytes.
pub enum EnvelopeView {
    Crypto { token: Seq<u8>, frame: Seq<u8> },
    FileOffer { body: Seq<u8> },
    FileAccept { text: Seq<u8> },
    FileComplete { id: Seq<u8> },
    FileCompleteAck { id: Seq<u8> },
    FileCancel { id: Seq<u8> },
    FileChunk { session_id: Seq<u8>, sequence: u64, ciphertext: Seq<u8> },
    Channel { token: Seq<u8>, payload: Seq<u8> },
    ChannelAck { token: Seq<u8>, payload: Seq<u8> },
    Stream { token: Seq<u8>, payload: Seq<u8> },
}

impl View for RelayDataEnvelope {
    type V = EnvelopeView;

    open spec fn view(&self) -> EnvelopeView {
        match self {
            RelayDataEnvelope::Crypto { token, frame } => EnvelopeView::Crypto {
                token: text_bytes(token@),
                frame: frame@,
            },
            RelayDataEnvelope::FileOffer { body } => EnvelopeView::FileOffer { body: body@ },
            RelayDataEnvelope::FileAccept { text } => EnvelopeView::FileAccept { text: text_bytes(text@) },
            RelayDataEnvelope::FileComplete { session_or_transfer_id } => EnvelopeView::FileComplete {
                id: text_bytes(session_or_transfer_id@),
            },
            RelayDataEnvelope::FileCompleteAck { transfer_id } => EnvelopeView::FileCompleteAck {
                id: text_bytes(transfer_id@),
            },
            RelayDataEnvelope::FileCancel { transfer_id } => EnvelopeView::FileCancel { id: text_bytes(transfer_id@) },
            RelayDataEnvelope::FileChunk { session_id, sequence, ciphertext } => EnvelopeView::FileChunk {
                session_id: text_bytes(session_id@),
                sequence: *sequence,
                ciphertext: ciphertext@,
            },
            RelayDataEnvelope::Channel { token, payload } => EnvelopeView::Channel {
                token: text_bytes(token@),
                payload: payload@,
            },
            RelayDataEnvelope::ChannelAck { token, payload } => EnvelopeView::ChannelAck {
                token: text_bytes(token@),
                payload: payload@,
            },
            RelayDataEnvelope::Stream { token, payload } => EnvelopeView::Stream {
                token: text_bytes(token@),
                payload: payload@,
            },
        }
    }
}

/// The big-endian value of a byte string.
pub open spec fn be_value(s: Seq<u8>) -> nat
    decreases s.len(),
{
    if s.len() == 0 {
        0
    } else {
        be_value(s.drop_last()) * 256 + s.last() as nat
    }
}

/// The eight big-endian bytes of `v`.
pub open spec fn be_bytes(v: u64) -> Seq<u8> {
    seq![
        ((v >> 56u64) & 0xffu64) as u8,
        ((v >> 48u64) & 0xffu64) as u8,
        ((v >> 40u64) & 0xffu64) as u8,
        ((v >> 32u64) & 0xffu64) as u8,
        ((v >> 24u64) & 0xffu64) as u8,
        ((v >> 16u64) & 0xffu64) as u8,
        ((v >> 8u64) & 0xffu64) as u8,
        (v & 0xffu64) as u8,
    ]
}

/// A token-prefixed body: length byte, token, payload.
pub open spec fn token_body(token: Seq<u8>, payload: Seq<u8>) -> Seq<u8> {
    seq![token.len() as u8] + token + payload
}

/// Splitting a token-prefixed body into token and payload.
pub open spec fn split_token_spec(body: Seq<u8>) -> Result<(Seq<u8>, Seq<u8>), RelayEnvelopeError> {
    if body.len() < 2 {
        Err(RelayEnvelopeError::TokenEnvelopeTruncated)
    } else if body.len() < 1 + body[0] {
        Err(RelayEnvelopeError::TokenTruncated)
    } else if !valid_utf8(body.subrange(1, 1 + body[0])) {
        Err(RelayEnvelopeError::TokenNotUtf8)
    } else {
        Ok((body.subrange(1, 1 + body[0]), body.subrange(1 + body[0], body.len() as int)))
    }
}

pub open spec fn text_or(body: Seq<u8>, ok: EnvelopeView) -> Result<EnvelopeView, RelayEnvelopeError> {
    if valid_utf8(body) {
        Ok(ok)
    } else {
        Err(RelayEnvelopeError::NotUtf8)
    }
}

/// What a data-plane envelope parses to. Before the peer's Relay session is
/// admitted (`ready`), only E2EE handshake envelopes are looked at.
pub open spec fn parse_spec(env: Seq<u8>, ready: bool) -> Result<EnvelopeView, RelayEnvelopeError> {
    if env.len() == 0 {
        Err(RelayEnvelopeError::Empty)
    } else {
        let kind = env[0];
        let body = env.subrange(1, env.len() as int);
        if kind != DATA_ENV_CRYPTO && !ready {
            Err(RelayEnvelopeError::NotAdmitted)
        } else if kind == DATA_ENV_CRYPTO {
            if body.len() < 32 {
                Err(RelayEnvelopeError::CryptoTruncated)
            } else {
                text_or(
                    body.subrange(0, 32),
                    EnvelopeView::Crypto { token: body.subrange(0, 32), frame: body.subrange(32, body.len() as int) },
                )
            }
        } else if kind == DATA_ENV_FILE_OFFER {
            Ok(EnvelopeView::FileOffer { body })
        } else if kind == DATA_ENV_FILE_ACCEPT {
            text_or(body, EnvelopeView::FileAccept { text: body })
        } else if kind == DATA_ENV_FILE_COMPLETE {
            text_or(body, EnvelopeView::FileComplete { id: body })
        } else if kind == DATA_ENV_FILE_COMPLETE_ACK {
            text_or(body, EnvelopeView::FileCompleteAck { id: body })
        } else if kind == DATA_ENV_FILE_CANCEL {
            text_or(body, EnvelopeView::FileCancel { id: body })
        } else if kind == DATA_ENV_FILE_CHUNK {
            if body.len() < 40 {
                Err(RelayEnvelopeError::ChunkTruncated)
            } else {
                text_or(
                    body.subrange(0, 32),
                    EnvelopeView::FileChunk {
                        session_id: body.subrange(0, 32),
                        sequence: be_value(body.subrange(32, 40)) as u64,
                        ciphertext: body.subrange(40, body.len() as int),
                    },
                )
            }
        } else if kind == DATA_ENV_CHANNEL || kind == DATA_ENV_CHANNEL_ACK || kind == DATA_ENV_STREAM {
            match split_token_spec(body) {
                Err(e) => Err(e),
                Ok((token, payload)) => Ok(
                    if kind == DATA_ENV_CHANNEL {
                        EnvelopeView::Channel { token, payload }
                    } else if kind == DATA_ENV_CHANNEL_ACK {
                        EnvelopeView::ChannelAck { token, payload }
                    } else {
                        EnvelopeView::Stream { token, payload }
                    },
                ),
            }
        } else {
            Err(RelayEnvelopeError::UnknownKind(kind))
        }
    }
}

pub open spec fn pow256(n: nat) -> nat
    decreases n,
{
    if n == 0 {
        1
    } else {
        256 * pow256((n - 1) as nat)
    }
}

proof fn lemma_be_value_bound(s: Seq<u8>)
    ensures
        be_value(s) < pow256(s.len()),
    decreases s.len(),
{
    if s.len() > 0 {
        lemma_be_value_bound(s.drop_last());
        let a = be_value(s.drop_last());
        let p = pow256(s.drop_last().len());
        let b = s.last();
        assert(a * 256 + b < 256 * p) by (nonlinear_arith)
            requires
                a < p,
                b < 256,
        ;
    }
}

/// The UTF-8 text of a byte string.
fn utf8_text(bytes: &[u8]) -> (r: Option<String>)
    ensures
        r is Some <==> valid_utf8(bytes@),
        r matches Some(s) ==> text_bytes(s@) == bytes@,
{
    match str_from_utf8(bytes) {
        Some(t) => Some(t.to_owned()),
        None => None,
    }
}

/// Reads a big-endian integer of eight bytes.
pub fn read_be_u64(bytes: &[u8]) -> (v: u64)
    requires
        bytes@.len() == 8,
    ensures
        v == be_value(bytes@),
{
    let mut acc: u64 = 0;
    let mut i: usize = 0;
    while i < 8
        invariant
            bytes@.len() == 8,
            i <= 8,
            acc == be_value(bytes@.take(i as int)),
        decreases 8 - i,
    {
        proof {
            assert(bytes@.take(i + 1).drop_last() =~= bytes@.take(i as int));
            lemma_be_value_bound(bytes@.take(i as int));
            assert(pow256(0) == 1);
            assert(pow256(1) == 256);
            assert(pow256(2) == 65536);
            assert(pow256(3) == 16777216);
            assert(pow256(4) == 4294967296);
            assert(pow256(5) == 1099511627776);
            assert(pow256(6) == 281474976710656);
            assert(pow256(7) == 72057594037927936);
            assert(acc < 72057594037927936);
        }
        acc = acc * 256 + bytes[i] as u64;
        i += 1;
    }
    proof {
        assert(bytes@.take(8) =~= bytes@);
    }
    acc
}

/// The eight big-endian bytes of `v`.
pub fn write_be_u64(v: u64) -> (r: Vec<u8>)
    ensures
        r@ == be_bytes(v),
{
    let mut r: Vec<u8> = Vec::new();
    r.push(((v >> 56u64) & 0xffu64) as u8);
    r.push(((v >> 48u64) & 0xffu64) as u8);
    r.push(((v >> 40u64) & 0xffu64) as u8);
    r.push(((v >> 32u64) & 0xffu64) as u8);
    r.push(((v >> 24u64) & 0xffu64) as u8);
    r.push(((v >> 16u64) & 0xffu64) as u8);
    r.push(((v >> 8u64) & 0xffu64) as u8);
    r.push((v & 0xffu64) as u8);
    proof {
        assert(r@ =~= be_bytes(v));
    }
    r
}

/// Reading back the bytes `write_be_u64` wrote gives the value.
pub proof fn lemma_be_round_trip(v: u64)
    ensures
        be_value(be_bytes(v)) == v,
{
    let s = be_bytes(v);
    let b0 = ((v >> 56u64) & 0xffu64) as u8;
    let b1 = ((v >> 48u64) & 0xffu64) as u8;
    let b2 = ((v >> 40u64) & 0xffu64) as u8;
    let b3 = ((v >> 32u64) & 0xffu64) as u8;
    let b4 = ((v >> 24u64) & 0xffu64) as u8;
    let b5 = ((v >> 16u64) & 0xffu64) as u8;
    let b6 = ((v >> 8u64) & 0xffu64) as u8;
    let b7 = (v & 0xffu64) as u8;
    assert(s.take(1).drop_last() =~= s.take(0));
    assert(s.take(2).drop_last() =~= s.take(1));
    assert(s.take(3).drop_last() =~= s.take(2));
    assert(s.take(4).drop_last() =~= s.take(3));
    assert(s.take(5).drop_last() =~= s.take(4));
    assert(s.take(6).drop_last() =~= s.take(5));
    assert(s.take(7).drop_last() =~= s.take(6));
    assert(s.drop_last() =~= s.take(7));
    assert(s.take(0).len() == 0);
    assert(be_value(s.take(0)) == 0);
    assert(s.take(1).last() == b0);
    assert(be_value(s.take(1)) == b0);
    assert(s.take(2).last() == b1);
    assert(be_value(s.take(2)) == b0 * 256 + b1);
    assert(s.take(3).last() == b2);
    assert(be_value(s.take(3)) == (b0 * 256 + b1) * 256 + b2);
    assert(s.take(4).last() == b3);
    assert(be_value(s.take(4)) == ((b0 * 256 + b1) * 256 + b2) * 256 + b3);
    assert(s.take(5).last() == b4);
    assert(be_value(s.take(5)) == (((b0 * 256 + b1) * 256 + b2) * 256 + b3) * 256 + b4);
    assert(s.take(6).last() == b5);
    assert(be_value(s.take(6)) == ((((b0 * 256 + b1) * 256 + b2) * 256 + b3) * 256 + b4) * 256 + b5);
    assert(s.take(7).last() == b6);
    assert(be_value(s.take(7)) == (((((b0 * 256 + b1) * 256 + b2) * 256 + b3) * 256 + b4) * 256 + b5) * 256
        + b6);
    assert((((((((b0 as u64) * 256 + b1 as u64) * 256 + b2 as u64) * 256 + b3 as u64) * 256 + b4 as u64) * 256
        + b5 as u64) * 256 + b6 as u64) * 256 + b7 as u64 == v) by (bit_vector)
        requires
            b0 == ((v >> 56u64) & 0xffu64) as u8,
            b1 == ((v >> 48u64) & 0xffu64) as u8,
            b2 == ((v >> 40u64) & 0xffu64) as u8,
            b3 == ((v >> 32u64) & 0xffu64) as u8,
            b4 == ((v >> 24u64) & 0xffu64) as u8,
            b5 == ((v >> 16u64) & 0xffu64) as u8,
            b6 == ((v >> 8u64) & 0xffu64) as u8,
            b7 == (v & 0xffu64) as u8,
    ;
}


/// Splits a token-prefixed body into its token and payload.
pub fn decode_token_envelope(body: &[u8]) -> (r: Result<(String, Vec<u8>), RelayEnvelopeError>)
    ensures
        match split_token_spec(body@) {
            Ok((t, p)) => r matches Ok(v) && text_bytes(v.0@) == t && v.1@ == p,
            Err(e) => r == Err::<(String, Vec<u8>), RelayEnvelopeError>(e),
        },
{
    if body.len() < 2 {
        return Err(RelayEnvelopeError::TokenEnvelopeTruncated);
    }
    let token_len = body[0] as usize;
    if body.len() < 1 + token_len {
        return Err(RelayEnvelopeError::TokenTruncated);
    }
    let token = match utf8_text(slice_subrange(body, 1, 1 + token_len)) {
        Some(t) => t,
        None => return Err(RelayEnvelopeError::TokenNotUtf8),
    };
    let payload = slice_to_vec(slice_subrange(body, 1 + token_len, body.len()));
    Ok((token, payload))
}

/// Parses one data-plane envelope (see `parse_spec`). `path_ready` is
/// whether the peer's Relay session has been admitted.
pub fn parse_relay_data_envelope(envelope: &[u8], path_ready: bool) -> (r: Result<
    RelayDataEnvelope,
    RelayEnvelopeError,
>)
    ensures
        match parse_spec(envelope@, path_ready) {
            Ok(v) => r matches Ok(e) && e@ == v,
            Err(err) => r == Err::<RelayDataEnvelope, RelayEnvelopeError>(err),
        },
{
    if envelope.len() == 0 {
        return Err(RelayEnvelopeError::Empty);
    }
    let kind = envelope[0];
    let body = slice_subrange(envelope, 1, envelope.len());
    if kind != DATA_ENV_CRYPTO && !path_ready {
        return Err(RelayEnvelopeError::NotAdmitted);
    }
    if kind == DATA_ENV_CRYPTO {
        if body.len() < 32 {
            return Err(RelayEnvelopeError::CryptoTruncated);
        }
        let token = match utf8_text(slice_subrange(body, 0, 32)) {
            Some(t) => t,
            None => return Err(RelayEnvelopeError::NotUtf8),
        };
        let frame = slice_to_vec(slice_subrange(body, 32, body.len()));
        return Ok(RelayDataEnvelope::Crypto { token, frame });
    }
    if kind == DATA_ENV_FILE_OFFER {
        return Ok(RelayDataEnvelope::FileOffer { body: slice_to_vec(body) });
    }
    if kind == DATA_ENV_FILE_ACCEPT || kind == DATA_ENV_FILE_COMPLETE || kind == DATA_ENV_FILE_COMPLETE_ACK || kind
        == DATA_ENV_FILE_CANCEL {
        let text = match utf8_text(body) {
            Some(t) => t,
            None => return Err(RelayEnvelopeError::NotUtf8),
        };
        return Ok(
            if kind == DATA_ENV_FILE_ACCEPT {
                RelayDataEnvelope::FileAccept { text }
            } else if kind == DATA_ENV_FILE_COMPLETE {
                RelayDataEnvelope::FileComplete { session_or_transfer_id: text }
            } else if kind == DATA_ENV_FILE_COMPLETE_ACK {
                RelayDataEnvelope::FileCompleteAck { transfer_id: text }
            } else {
                RelayDataEnvelope::FileCancel { transfer_id: text }
            },
        );
    }
    if kind == DATA_ENV_FILE_CHUNK {
        if body.len() < 40 {
            return Err(RelayEnvelopeError::ChunkTruncated);
        }
        let session_id = match utf8_text(slice_subrange(body, 0, 32)) {
            Some(t) => t,
            None => return Err(RelayEnvelopeError::NotUtf8),
        };
        let sequence = read_be_u64(slice_subrange(body, 32, 40));
        let ciphertext = slice_to_vec(slice_subrange(body, 40, body.len()));
        return Ok(RelayDataEnvelope::FileChunk { session_id, sequence, ciphertext });
    }
    if kind == DATA_ENV_CHANNEL || kind == DATA_ENV_CHANNEL_ACK || kind == DATA_ENV_STREAM {
        let (token, payload) = decode_token_envelope(body)?;
        return Ok(
            if kind == DATA_ENV_CHANNEL {
                RelayDataEnvelope::Channel { token, payload }
            } else if kind == DATA_ENV_CHANNEL_ACK {
                RelayDataEnvelope::ChannelAck { token, payload }
            } else {
                RelayDataEnvelope::Stream { token, payload }
            },
        );
    }
    Err(RelayEnvelopeError::UnknownKind(kind))
}

/// A data-plane envelope: the kind tag, then the body.
pub fn encode_data_envelope(kind: u8, body: &[u8]) -> (r: Vec<u8>)
    ensures
        r@ == seq![kind] + body@,
{
    let mut r: Vec<u8> = Vec::new();
    r.push(kind);
    let mut i: usize = 0;
    while i < body.len()
        invariant
            i <= body@.len(),
            r@ == seq![kind] + body@.take(i as int),
        decreases body@.len() - i,
    {
        r.push(body[i]);
        proof {
            assert(body@.take(i + 1) =~= body@.take(i as int).push(body@[i as int]));
        }
        i += 1;
        proof {
            assert(r@ =~= seq![kind] + body@.take(i as int));
        }
    }
    proof {
        assert(body@.take(body@.len() as int) =~= body@);
    }
    r
}

/// Appends `tail` to `r`.
pub(crate) fn append(r: &mut Vec<u8>, tail: &[u8])
    ensures
        final(r)@ == old(r)@ + tail@,
{
    let ghost start = r@;
    let mut i: usize = 0;
    while i < tail.len()
        invariant
            i <= tail@.len(),
            r@ == start + tail@.take(i as int),
        decreases tail@.len() - i,
    {
        r.push(tail[i]);
        proof {
            assert(tail@.take(i + 1) =~= tail@.take(i as int).push(tail@[i as int]));
        }
        i += 1;
        proof {
            assert(r@ =~= start + tail@.take(i as int));
        }
    }
    proof {
        assert(tail@.take(tail@.len() as int) =~= tail@);
    }
}

/// A token-prefixed envelope (channel, acknowledgement, stream): refused
/// when the token is longer than 255 bytes.
pub fn encode_token_envelope(kind: u8, token: &str, body: &[u8]) -> (r: Result<Vec<u8>, RelayEnvelopeError>)
    ensures
        token.spec_bytes().len() > 255 ==> r == Err::<Vec<u8>, RelayEnvelopeError>(
            RelayEnvelopeError::TokenTooLong,
        ),
        token.spec_bytes().len() <= 255 ==> (r matches Ok(v) && v@ == seq![kind] + token_body(
            token.spec_bytes(),
            body@,
        )),
{
    let t = token.as_bytes();
    if t.len() > 255 {
        return Err(RelayEnvelopeError::TokenTooLong);
    }
    let mut r: Vec<u8> = Vec::new();
    r.push(kind);
    r.push(t.len() as u8);
    append(&mut r, t);
    append(&mut r, body);
    proof {
        assert(r@ =~= seq![kind] + token_body(token.spec_bytes(), body@));
    }
    Ok(r)
}

/// The body of an E2EE handshake envelope: the token, then the encoded
/// frame. The token must be 32 lowercase hexadecimal characters.
pub fn encode_crypto_body(token: &str, frame: &[u8]) -> (r: Result<Vec<u8>, RelayEnvelopeError>)
    ensures
        !is_lower_hex_text(token.spec_bytes(), 32) ==> r == Err::<Vec<u8>, RelayEnvelopeError>(
            RelayEnvelopeError::InvalidCryptoToken,
        ),
        is_lower_hex_text(token.spec_bytes(), 32) ==> (r matches Ok(v) && v@ == token.spec_bytes() + frame@),
{
    if !is_lower_hex_id(token, 16) {
        return Err(RelayEnvelopeError::InvalidCryptoToken);
    }
    let mut r: Vec<u8> = Vec::new();
    append(&mut r, token.as_bytes());
    append(&mut r, frame);
    Ok(r)
}

/// The body of a file chunk envelope: session ID, big-endian sequence,
/// ciphertext.
pub fn encode_chunk_body(session_id: &str, sequence: u64, ciphertext: &[u8]) -> (r: Vec<u8>)
    ensures
        r@ == session_id.spec_bytes() + be_bytes(sequence) + ciphertext@,
{
    let mut r: Vec<u8> = Vec::new();
    append(&mut r, session_id.as_bytes());
    let seq_bytes = write_be_u64(sequence);
    append(&mut r, seq_bytes.as_slice());
    append(&mut r, ciphertext);
    proof {
        assert(r@ =~= session_id.spec_bytes() + be_bytes(sequence) + ciphertext@);
    }
    r
}

/// A channel message or delivery acknowledgement travels under the token
/// that is the lowercase hexadecimal text of its message ID.
pub fn message_token_matches(message_id: &[u8], session_token: &str) -> (r: bool)
    ensures
        r == (hex_lower(message_id@) == session_token@),
{
    let expected = hex_encode(message_id);
    str_eq(expected.as_str(), session_token)
}

/// The key under which a Relay E2EE handshake is tracked: peer, `/`, token.
pub fn relay_crypto_key(peer_id: &str, session_token: &str) -> (key: String)
    ensures
        key@ == peer_id@ + "/"@ + session_token@,
{
    let key = peer_id.to_owned().concat("/");
    key.concat(session_token)
}

/// A token envelope splits back into the token and payload it was built
/// from (unless both are empty: a one-byte body is refused as truncated).
pub proof fn lemma_token_envelope_round_trip(token: Seq<u8>, payload: Seq<u8>)
    requires
        token.len() <= 255,
        valid_utf8(token),
        token.len() + payload.len() > 0,
    ensures
        split_token_spec(token_body(token, payload)) == Ok::<(Seq<u8>, Seq<u8>), RelayEnvelopeError>(
            (token, payload),
        ),
{
    let b = token_body(token, payload);
    assert(b[0] == token.len() as u8);
    assert(b.subrange(1, 1 + token.len() as int) =~= token);
    assert(b.subrange(1 + token.len() as int, b.len() as int) =~= payload);
}

/// A chunk envelope parses back into its session ID, sequence and
/// ciphertext, once the peer's session is admitted.
pub proof fn lemma_chunk_envelope_round_trip(session_id: Seq<u8>, sequence: u64, ciphertext: Seq<u8>)
    requires
        session_id.len() == 32,
        valid_utf8(session_id),
    ensures
        parse_spec(seq![DATA_ENV_FILE_CHUNK] + (session_id + be_bytes(sequence) + ciphertext), true) == Ok::<
            EnvelopeView,
            RelayEnvelopeError,
        >(EnvelopeView::FileChunk { session_id, sequence, ciphertext }),
{
    let env = seq![DATA_ENV_FILE_CHUNK] + (session_id + be_bytes(sequence) + ciphertext);
    let body = env.subrange(1, env.len() as int);
    assert(body =~= session_id + be_bytes(sequence) + ciphertext);
    assert(body.subrange(0, 32) =~= session_id);
    assert(body.subrange(32, 40) =~= be_bytes(sequence));
    assert(body.subrange(40, body.len() as int) =~= ciphertext);
    lemma_be_round_trip(sequence);
}

/// Before the peer's Relay session is admitted, every envelope but an E2EE
/// handshake is refused.
pub proof fn lemma_business_envelope_needs_admission(env: Seq<u8>)
    requires
        env.len() > 0,
        env[0] != DATA_ENV_CRYPTO,
    ensures
        parse_spec(env, false) == Err::<EnvelopeView, RelayEnvelopeError>(RelayEnvelopeError::NotAdmitted),
{
}

} // verus!
