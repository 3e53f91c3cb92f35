//! Relay file offers: the envelope on both sides, then the decrypted metadata.

use crate::outside::{
    base64_url_decode, base64_url_decode_bytes, base64_url_encode, base64_url_encode_bytes, hex_decode, hex_decoded,
};
use crate::relay::envelope::append;
use crate::realtime::wire::{is_lower_hex_id, is_lower_hex_text, text_bytes};
use crate::relay::transfer::{
    is_safe_file_name, is_sha256_hash, manifest_preimage, relay_manifest_hash, safe_file_name,
    sha256_hex, FileManifest, ManifestView,
};
use crate::outside::{hex_lower, is_hex_byte, sha256, str_from_utf8};
use crate::strmap::str_eq;
use vstd::prelude::*;
use vstd::slice::{slice_subrange, slice_to_vec};
use vstd::string::StringSliceAdditionalSpecFns;
use vstd::utf8::valid_utf8;

verus! {

/// Why an incoming Relay offer was refused.
#[derive(Debug, Clone, Copy, PartialEq, Eq, Structural)]
pub enum RelayOfferError {
    SenderNotRegistered,
    Truncated,
    NotUtf8,
    InvalidSessionId,
    MalformedBase64,
    MissingTransferId,
    MissingFileName,
    InvalidFileSize,
    InvalidModifiedAt,
    MissingContentHash,
    MissingManifestHash,
    InvalidMetadata,
    InvalidCryptoSessionId,
    ManifestHashMismatch,
    AlreadyReceiving,
    TooManyPending,
    DifferentManifest,
}

/// An offer envelope taken apart: its session ID (which also derives the
/// offer's nonce) as text and as 16 bytes, and the encrypted offer.
pub struct OpenedOffer {
    pub session_id: String,
    pub session_bytes: Vec<u8>,
    pub ciphertext: Vec<u8>,
}

/// The checks of an offer envelope `[session ID 32][base64 ciphertext]`,
/// in order.
pub open spec fn open_offer_spec(sender_registered: bool, body: Seq<u8>) -> Result<(), RelayOfferError> {
    if !sender_registered {
        Err(RelayOfferError::SenderNotRegistered)
    } else if body.len() < 32 {
        Err(RelayOfferError::Truncated)
    } else if !valid_utf8(body.subrange(0, 32)) {
        Err(RelayOfferError::NotUtf8)
    } else if !is_lower_hex_text(body.subrange(0, 32), 32) {
        Err(RelayOfferError::InvalidSessionId)
    } else if !valid_utf8(body.subrange(32, body.len() as int)) {
        Err(RelayOfferError::NotUtf8)
    } else if base64_url_decode(body.subrange(32, body.len() as int)) is None {
        Err(RelayOfferError::MalformedBase64)
    } else {
        Ok(())
    }
}

/// Takes an offer envelope apart (see `open_offer_spec`); the ciphertext is
/// then decrypted with the local E2E key.
pub fn open_relay_offer(sender_registered: bool, body: &[u8]) -> (r: Result<OpenedOffer, RelayOfferError>)
    ensures
        r is Ok <==> open_offer_spec(sender_registered, body@) is Ok,
        r matches Err(e) ==> open_offer_spec(sender_registered, body@) == Err::<(), RelayOfferError>(e),
        r matches Ok(o) ==> text_bytes(o.session_id@) == body@.subrange(0, 32) && o.session_bytes@ == hex_decoded(
            body@.subrange(0, 32),
        ) && o.session_bytes@.len() == 16 && Some(o.ciphertext@) == base64_url_decode(
            body@.subrange(32, body@.len() as int),
        ),
{
    if !sender_registered {
        return Err(RelayOfferError::SenderNotRegistered);
    }
    if body.len() < 32 {
        return Err(RelayOfferError::Truncated);
    }
    let head = slice_subrange(body, 0, 32);
    let session_id = match str_from_utf8(head) {
        Some(t) => t,
        None => return Err(RelayOfferError::NotUtf8),
    };
    if !is_lower_hex_id(session_id, 16) {
        return Err(RelayOfferError::InvalidSessionId);
    }
    let tail = slice_subrange(body, 32, body.len());
    if str_from_utf8(tail).is_none() {
        return Err(RelayOfferError::NotUtf8);
    }
    let ciphertext = match base64_url_decode_bytes(tail) {
        Some(c) => c,
        None => return Err(RelayOfferError::MalformedBase64),
    };
    proof {
        assert forall|i: int| 0 <= i < head@.len() implies #[trigger] is_hex_byte(head@[i]) by {
            assert(crate::realtime::wire::is_lower_hex_byte(head@[i]));
        }
    }
    let session_bytes = match hex_decode(head) {
        Some(b) => b,
        None => return Err(RelayOfferError::InvalidSessionId),
    };
    Ok(OpenedOffer { session_id: session_id.to_owned(), session_bytes, ciphertext })
}

/// The offer envelope the sender builds: the session ID, then the URL-safe
/// base64 text of the encrypted offer. It opens (see `open_offer_spec`) to
/// the same session ID and ciphertext.
pub fn encode_offer_envelope(session_id: &str, ciphertext: &[u8]) -> (r: Result<Vec<u8>, RelayOfferError>)
    requires
        ciphertext@.len() <= usize::MAX / 2,
    ensures
        !is_lower_hex_text(session_id.spec_bytes(), 32) ==> r == Err::<Vec<u8>, RelayOfferError>(
            RelayOfferError::InvalidSessionId,
        ),
        is_lower_hex_text(session_id.spec_bytes(), 32) ==> (r matches Ok(v) && v@ == session_id.spec_bytes()
            + text_bytes(base64_url_encode(ciphertext@)) && open_offer_spec(true, v@) is Ok && base64_url_decode(
            v@.subrange(32, v@.len() as int),
        ) == Some(ciphertext@)),
{
    if !is_lower_hex_id(session_id, 16) {
        return Err(RelayOfferError::InvalidSessionId);
    }
    let text = base64_url_encode_bytes(ciphertext);
    let mut r: Vec<u8> = Vec::new();
    append(&mut r, session_id.as_bytes());
    append(&mut r, text.as_str().as_bytes());
    proof {
        let head = session_id.spec_bytes();
        let tail = text_bytes(text@);
        assert(r@.subrange(0, 32) =~= head);
        assert(r@.subrange(32, r@.len() as int) =~= tail);
        vstd::utf8::encode_utf8_valid_utf8(session_id@);
        vstd::utf8::encode_utf8_valid_utf8(text@);
    }
    Ok(r)
}

/// The fields of a decrypted offer's JSON object, each `None` when absent
/// or of another JSON type.
pub struct RelayOfferFields {
    pub v: Option<u64>,
    pub crypto_suite: Option<String>,
    pub session_id: Option<String>,
    pub crypto_session_id: Option<String>,
    pub transfer_id: Option<String>,
    pub manifest_hash: Option<String>,
    pub sender_id: Option<String>,
    pub receiver_id: Option<String>,
    pub file_name: Option<String>,
    pub file_size: Option<u64>,
    pub modified_at: Option<i64>,
    pub content_hash: Option<String>,
}

/// An offer waiting for the user's approval.
pub struct PendingRelayIncoming {
    pub transfer_id: String,
    pub session_id: String,
    pub sender_id: String,
    pub manifest: FileManifest,
    pub manifest_hash: String,
    /// The sender's logical session key (not the Relay attempt token).
    pub crypto_session_id: String,
}

pub struct PendingView {
    pub transfer_id: Seq<char>,
    pub session_id: Seq<char>,
    pub sender_id: Seq<char>,
    pub manifest: ManifestView,
    pub manifest_hash: Seq<char>,
    pub crypto_session_id: Seq<char>,
}

impl View for PendingRelayIncoming {
    type V = PendingView;

    open spec fn view(&self) -> PendingView {
        PendingView {
            transfer_id: self.transfer_id@,
            session_id: self.session_id@,
            sender_id: self.sender_id@,
            manifest: self.manifest@,
            manifest_hash: self.manifest_hash@,
            crypto_session_id: self.crypto_session_id@,
        }
    }
}

impl PendingRelayIncoming {
    pub fn duplicate(&self) -> (r: Self)
        ensures
            r@ == self@,
    {
        PendingRelayIncoming {
            transfer_id: self.transfer_id.clone(),
            session_id: self.session_id.clone(),
            sender_id: self.sender_id.clone(),
            manifest: self.manifest.duplicate(),
            manifest_hash: self.manifest_hash.clone(),
            crypto_session_id: self.crypto_session_id.clone(),
        }
    }
}

pub open spec fn opt_text(o: Option<String>) -> Option<Seq<char>> {
    match o {
        Some(s) => Some(s@),
        None => None,
    }
}

/// A crypto session ID: 16 hexadecimal digits of either case.
pub open spec fn crypto_session_id_ok(b: Seq<u8>) -> bool {
    b.len() == 16 && forall|i: int| 0 <= i < b.len() ==> #[trigger] is_hex_byte(b[i])
}

/// The manifest an offer describes.
pub open spec fn offered_manifest(f: RelayOfferFields, protocol_version: u32) -> ManifestView {
    ManifestView {
        transfer_id: f.transfer_id->Some_0@,
        file_name: f.file_name->Some_0@,
        file_size: f.file_size->Some_0,
        modified_at: f.modified_at->Some_0,
        content_hash: f.content_hash->Some_0@,
        protocol_version,
    }
}

/// The checks of a decrypted offer, in order: the required fields exist;
/// the version, suite, session ID, sender and receiver are the expected
/// ones; both hashes are SHA-256 digests and the name one safe component;
/// the crypto session ID is well formed; the manifest hash is the one of the
/// described manifest.
pub open spec fn offer_fields_spec(
    f: RelayOfferFields,
    session_id: Seq<char>,
    sender_id: Seq<char>,
    local_device_id: Seq<char>,
    crypto_suite: Seq<char>,
    protocol_version: u32,
) -> Result<(), RelayOfferError> {
    if f.transfer_id is None {
        Err(RelayOfferError::MissingTransferId)
    } else if f.file_name is None {
        Err(RelayOfferError::MissingFileName)
    } else if f.file_size is None {
        Err(RelayOfferError::InvalidFileSize)
    } else if f.modified_at is None {
        Err(RelayOfferError::InvalidModifiedAt)
    } else if f.content_hash is None {
        Err(RelayOfferError::MissingContentHash)
    } else if f.manifest_hash is None {
        Err(RelayOfferError::MissingManifestHash)
    } else if f.v != Some(1u64) || opt_text(f.crypto_suite) != Some(crypto_suite) || opt_text(f.session_id) != Some(
        session_id,
    ) || opt_text(f.sender_id) != Some(sender_id) || opt_text(f.receiver_id) != Some(local_device_id)
        || !sha256_hex(text_bytes(f.content_hash->Some_0@)) || !sha256_hex(text_bytes(f.manifest_hash->Some_0@))
        || !safe_file_name(text_bytes(f.file_name->Some_0@)) {
        Err(RelayOfferError::InvalidMetadata)
    } else if f.crypto_session_id is None || !crypto_session_id_ok(text_bytes(f.crypto_session_id->Some_0@)) {
        Err(RelayOfferError::InvalidCryptoSessionId)
    } else if f.manifest_hash->Some_0@ != hex_lower(sha256(manifest_preimage(offered_manifest(f, protocol_version)))) {
        Err(RelayOfferError::ManifestHashMismatch)
    } else {
        Ok(())
    }
}

fn opt_eq(o: &Option<String>, s: &str) -> (r: bool)
    ensures
        r == (opt_text(*o) == Some(s@)),
{
    match o {
        Some(v) => str_eq(v.as_str(), s),
        None => false,
    }
}

fn is_crypto_session_id(value: &str) -> (r: bool)
    ensures
        r == crypto_session_id_ok(value.spec_bytes()),
{
    let b = value.as_bytes();
    if b.len() != 16 {
        return false;
    }
    let mut i: usize = 0;
    while i < b.len()
        invariant
            b@ == value.spec_bytes(),
            b@.len() == 16,
            i <= b@.len(),
            forall|j: int| 0 <= j < i ==> #[trigger] is_hex_byte(b@[j]),
        decreases b@.len() - i,
    {
        let c = b[i];
        if !((48 <= c && c <= 57) || (65 <= c && c <= 70) || (97 <= c && c <= 102)) {
            assert(!is_hex_byte(b@[i as int]));
            return false;
        }
        i += 1;
    }
    true
}

/// Checks a decrypted offer (see `offer_fields_spec`) received from
/// `sender_id` under `session_id`, and builds the pending incoming
/// transfer. `crypto_suite` is the application crypto suite this runtime
/// speaks and `protocol_version` the file transfer protocol version.
pub fn check_relay_offer_fields(
    f: RelayOfferFields,
    session_id: &str,
    sender_id: &str,
    local_device_id: &str,
    crypto_suite: &str,
    protocol_version: u32,
) -> (r: Result<PendingRelayIncoming, RelayOfferError>)
    ensures
        ({
            let res = offer_fields_spec(f, session_id@, sender_id@, local_device_id@, crypto_suite@, protocol_version);
            &&& r is Ok <==> res is Ok
            &&& r matches Err(e) ==> res == Err::<(), RelayOfferError>(e)
            &&& r matches Ok(p) ==> p@ == (PendingView {
                transfer_id: f.transfer_id->Some_0@,
                session_id: session_id@,
                sender_id: sender_id@,
                manifest: offered_manifest(f, protocol_version),
                manifest_hash: f.manifest_hash->Some_0@,
                crypto_session_id: f.crypto_session_id->Some_0@,
            })
        }),
{
    let ghost g = f;
    let transfer_id = match &f.transfer_id {
        Some(t) => t.clone(),
        None => return Err(RelayOfferError::MissingTransferId),
    };
    let file_name = match &f.file_name {
        Some(t) => t.clone(),
        None => return Err(RelayOfferError::MissingFileName),
    };
    let file_size = match f.file_size {
        Some(n) => n,
        None => return Err(RelayOfferError::InvalidFileSize),
    };
    let modified_at = match f.modified_at {
        Some(n) => n,
        None => return Err(RelayOfferError::InvalidModifiedAt),
    };
    let content_hash = match &f.content_hash {
        Some(t) => t.clone(),
        None => return Err(RelayOfferError::MissingContentHash),
    };
    let manifest_hash = match &f.manifest_hash {
        Some(t) => t.clone(),
        None => return Err(RelayOfferError::MissingManifestHash),
    };
    if f.v != Some(1u64) || !opt_eq(&f.crypto_suite, crypto_suite) || !opt_eq(&f.session_id, session_id) || !opt_eq(
        &f.sender_id,
        sender_id,
    ) || !opt_eq(&f.receiver_id, local_device_id) || !is_sha256_hash(content_hash.as_str()) || !is_sha256_hash(
        manifest_hash.as_str(),
    ) || !is_safe_file_name(file_name.as_str()) {
        return Err(RelayOfferError::InvalidMetadata);
    }
    let crypto_session_id = match &f.crypto_session_id {
        Some(c) => {
            if !is_crypto_session_id(c.as_str()) {
                return Err(RelayOfferError::InvalidCryptoSessionId);
            }
            c.clone()
        },
        None => return Err(RelayOfferError::InvalidCryptoSessionId),
    };
    let manifest = FileManifest { transfer_id, file_name, file_size, modified_at, content_hash, protocol_version };
    let expected = relay_manifest_hash(&manifest);
    if !str_eq(expected.as_str(), manifest_hash.as_str()) {
        return Err(RelayOfferError::ManifestHashMismatch);
    }
    let transfer_id = manifest.transfer_id.clone();
    Ok(
        PendingRelayIncoming {
            transfer_id,
            session_id: session_id.to_owned(),
            sender_id: sender_id.to_owned(),
            manifest,
            manifest_hash,
            crypto_session_id,
        },
    )
}

} // verus!
