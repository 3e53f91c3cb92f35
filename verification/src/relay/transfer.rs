//! Relay file transfer: metadata checks, the stable manifest hash, chunk
//! boundaries and the sender's chunk cursor.

use crate::outside::{
    base64_url_decode, base64_url_decode_bytes, hex_decode, hex_decoded, hex_encode, hex_lower,
    is_hex_byte, sha256, sha256_digest,
};
use crate::realtime::wire::{is_lower_hex_id, is_lower_hex_text, text_bytes};
use crate::relay::envelope::{append, be_bytes};
use crate::strmap::str_eq;
use vstd::prelude::*;
use vstd::slice::{slice_subrange, slice_to_vec};
use vstd::string::StringSliceAdditionalSpecFns;
use vstd::utf8::valid_utf8;

verus! {

/// The transfer buffer of the file pipeline.
pub const DEFAULT_TRANSFER_BUFFER: usize = 262144;

/// Fixed overhead of a chunk envelope: kind tag (1), session ID (32),
/// sequence (8), application crypto header (26) and GCM tag (16).
pub const RELAY_FILE_CHUNK_ENVELOPE_OVERHEAD_BYTES: usize = 83;

/// Plaintext bytes per chunk, so the encrypted envelope stays within the
/// data plane's payload bound and an offset maps to one sequence number.
pub const RELAY_FILE_CHUNK_BYTES: u64 = 262061;

/// The file metadata a transfer is bound to.
pub struct FileManifest {
    pub transfer_id: String,
    pub file_name: String,
    pub file_size: u64,
    pub modified_at: i64,
    pub content_hash: String,
    pub protocol_version: u32,
}

pub struct ManifestView {
    pub transfer_id: Seq<char>,
    pub file_name: Seq<char>,
    pub file_size: u64,
    pub modified_at: i64,
    pub content_hash: Seq<char>,
    pub protocol_version: u32,
}

impl View for FileManifest {
    type V = ManifestView;

    open spec fn view(&self) -> ManifestView {
        ManifestView {
            transfer_id: self.transfer_id@,
            file_name: self.file_name@,
            file_size: self.file_size,
            modified_at: self.modified_at,
            content_hash: self.content_hash@,
            protocol_version: self.protocol_version,
        }
    }
}

impl FileManifest {
    pub fn duplicate(&self) -> (r: Self)
        ensures
            r@ == self@,
    {
        FileManifest {
            transfer_id: self.transfer_id.clone(),
            file_name: self.file_name.clone(),
            file_size: self.file_size,
            modified_at: self.modified_at,
            content_hash: self.content_hash.clone(),
            protocol_version: self.protocol_version,
        }
    }

    pub fn same_as(&self, other: &FileManifest) -> (r: bool)
        ensures
            r == (self@ == other@),
    {
        str_eq(self.transfer_id.as_str(), other.transfer_id.as_str()) && str_eq(
            self.file_name.as_str(),
            other.file_name.as_str(),
        ) && self.file_size == other.file_size && self.modified_at == other.modified_at && str_eq(
            self.content_hash.as_str(),
            other.content_hash.as_str(),
        ) && self.protocol_version == other.protocol_version
    }
}

/// A file name that is one safe path component: 1 to 255 bytes, no `/`,
/// `\` or NUL, and neither `.` nor `..`.
pub open spec fn safe_file_name(b: Seq<u8>) -> bool {
    &&& 0 < b.len() <= 255
    &&& forall|i: int| 0 <= i < b.len() ==> #[trigger] b[i] != 47 && b[i] != 92 && b[i] != 0
    &&& !(b.len() == 1 && b[0] == 46)
    &&& !(b.len() == 2 && b[0] == 46 && b[1] == 46)
}

pub fn is_safe_file_name(value: &str) -> (r: bool)
    ensures
        r == safe_file_name(value.spec_bytes()),
{
    let b = value.as_bytes();
    if b.len() == 0 || b.len() > 255 {
        return false;
    }
    let mut i: usize = 0;
    while i < b.len()
        invariant
            b@ == value.spec_bytes(),
            i <= b@.len(),
            forall|j: int| 0 <= j < i ==> #[trigger] b@[j] != 47 && b@[j] != 92 && b@[j] != 0,
        decreases b@.len() - i,
    {
        if b[i] == 47 || b[i] == 92 || b[i] == 0 {
            return false;
        }
        i += 1;
    }
    if b.len() == 1 && b[0] == 46 {
        return false;
    }
    if b.len() == 2 && b[0] == 46 && b[1] == 46 {
        return false;
    }
    true
}

/// A SHA-256 digest as 64 hexadecimal digits of either case.
pub open spec fn sha256_hex(b: Seq<u8>) -> bool {
    b.len() == 64 && forall|i: int| 0 <= i < b.len() ==> #[trigger] is_hex_byte(b[i])
}

pub fn is_sha256_hash(value: &str) -> (r: bool)
    ensures
        r == sha256_hex(value.spec_bytes()),
{
    let b = value.as_bytes();
    if b.len() != 64 {
        return false;
    }
    let mut i: usize = 0;
    while i < b.len()
        invariant
            b@ == value.spec_bytes(),
            b@.len() == 64,
            i <= b@.len(),
            forall|j: int| 0 <= j < i ==> #[trigger] is_hex_byte(b@[j]),
        decreases b@.len() - i,
    {
        let c = b[i];
        if !((48 <= c && c <= 57) || (65 <= c && c <= 70) || (97 <= c && c <= 102)) {
            assert(!is_hex_byte(b@[i as int]));
            return false;
        }
        i += 1;
    }
    true
}

/// An ASCII byte in lowercase.
pub open spec fn ascii_lower(c: u8) -> u8 {
    if 65 <= c <= 90 {
        (c + 32) as u8
    } else {
        c
    }
}

/// Equality of byte strings ignoring ASCII case.
pub open spec fn eq_ignore_ascii_case(a: Seq<u8>, b: Seq<u8>) -> bool {
    a.len() == b.len() && forall|i: int| 0 <= i < a.len() ==> #[trigger] ascii_lower(a[i]) == ascii_lower(b[i])
}

pub fn bytes_eq_ignore_ascii_case(a: &[u8], b: &[u8]) -> (r: bool)
    ensures
        r == eq_ignore_ascii_case(a@, b@),
{
    if a.len() != b.len() {
        return false;
    }
    let mut i: usize = 0;
    while i < a.len()
        invariant
            a@.len() == b@.len(),
            i <= a@.len(),
            forall|j: int| 0 <= j < i ==> #[trigger] ascii_lower(a@[j]) == ascii_lower(b@[j]),
        decreases a@.len() - i,
    {
        let x = if 65 <= a[i] && a[i] <= 90 {
            a[i] + 32
        } else {
            a[i]
        };
        let y = if 65 <= b[i] && b[i] <= 90 {
            b[i] + 32
        } else {
            b[i]
        };
        if x != y {
            assert(ascii_lower(a@[i as int]) != ascii_lower(b@[i as int]));
            return false;
        }
        i += 1;
    }
    true
}

/// Whether the digest of the received content matches the offered hash,
/// ignoring ASCII case.
pub fn relay_hash_matches(digest: &[u8], expected: &str) -> (r: bool)
    ensures
        r == eq_ignore_ascii_case(text_bytes(hex_lower(digest@)), expected.spec_bytes()),
{
    let text = hex_encode(digest);
    bytes_eq_ignore_ascii_case(text.as_str().as_bytes(), expected.as_bytes())
}

/// The name of the partial file an incoming transfer is written to, in the
/// receive directory: the transfer ID with `.part` appended.
pub fn relay_partial_file_name(transfer_id: &str) -> (name: String)
    ensures
        name@ == transfer_id@ + ".part"@,
{
    transfer_id.to_owned().concat(".part")
}

/// Whether the received content matches the offered hash: the lowercase
/// hexadecimal SHA-256 of the content, ignoring ASCII case.
pub fn relay_content_matches(content: &[u8], expected: &str) -> (r: bool)
    ensures
        r == eq_ignore_ascii_case(text_bytes(hex_lower(sha256(content@))), expected.spec_bytes()),
{
    let digest = sha256_digest(content);
    relay_hash_matches(digest.as_slice(), expected)
}

/// A resume offset lies on a chunk boundary (or at either end).
pub open spec fn valid_offset_spec(offset: u64, total_bytes: u64) -> bool {
    offset <= total_bytes && (offset == 0 || offset == total_bytes || offset % RELAY_FILE_CHUNK_BYTES == 0)
}

pub fn valid_relay_offset(offset: u64, total_bytes: u64) -> (r: bool)
    ensures
        r == valid_offset_spec(offset, total_bytes),
{
    offset <= total_bytes && (offset == 0 || offset == total_bytes || offset % RELAY_FILE_CHUNK_BYTES == 0)
}

/// The domain prefix of the manifest hash: `ssh-mobile/relay-manifest/V2`
/// and a NUL byte.
pub open spec fn manifest_domain() -> Seq<u8> {
    seq![
        115u8, 115, 104, 45, 109, 111, 98, 105, 108, 101, 47, 114, 101, 108, 97, 121, 45, 109, 97, 110, 105, 102,
        101, 115, 116, 47, 86, 50, 0,
    ]
}

/// The four big-endian bytes of `v`.
pub open spec fn be_bytes32(v: u32) -> Seq<u8> {
    seq![
        ((v >> 24u32) & 0xffu32) as u8,
        ((v >> 16u32) & 0xffu32) as u8,
        ((v >> 8u32) & 0xffu32) as u8,
        (v & 0xffu32) as u8,
    ]
}

/// What the manifest hash digests: the domain, the transfer ID and file
/// name each followed by NUL, the size and modification time (big-endian),
/// the content hash and the protocol version (big-endian). No socket
/// session token takes part, so a reconnect reuses the hash.
pub open spec fn manifest_preimage(m: ManifestView) -> Seq<u8> {
    manifest_domain() + text_bytes(m.transfer_id) + seq![0u8] + text_bytes(m.file_name) + seq![0u8] + be_bytes(
        m.file_size,
    ) + be_bytes(m.modified_at as u64) + text_bytes(m.content_hash) + be_bytes32(m.protocol_version)
}

/// The stable manifest hash: lowercase hexadecimal SHA-256 of
/// `manifest_preimage`.
pub fn relay_manifest_hash(manifest: &FileManifest) -> (h: String)
    ensures
        h@ == hex_lower(sha256(manifest_preimage(manifest@))),
{
    let mut pre: Vec<u8> = vec![
        115u8, 115, 104, 45, 109, 111, 98, 105, 108, 101, 47, 114, 101, 108, 97, 121, 45, 109, 97, 110, 105, 102,
        101, 115, 116, 47, 86, 50, 0,
    ];
    proof {
        assert(pre@ =~= manifest_domain());
    }
    append(&mut pre, manifest.transfer_id.as_str().as_bytes());
    pre.push(0u8);
    append(&mut pre, manifest.file_name.as_str().as_bytes());
    pre.push(0u8);
    let size = crate::relay::envelope::write_be_u64(manifest.file_size);
    append(&mut pre, size.as_slice());
    let modified = crate::relay::envelope::write_be_u64(manifest.modified_at as u64);
    append(&mut pre, modified.as_slice());
    append(&mut pre, manifest.content_hash.as_str().as_bytes());
    let v = manifest.protocol_version;
    pre.push(((v >> 24u32) & 0xffu32) as u8);
    pre.push(((v >> 16u32) & 0xffu32) as u8);
    pre.push(((v >> 8u32) & 0xffu32) as u8);
    pre.push((v & 0xffu32) as u8);
    proof {
        assert(pre@ =~= manifest_preimage(manifest@));
    }
    let digest = sha256_digest(pre.as_slice());
    hex_encode(digest.as_slice())
}


/// A receiver's acceptance of an offer: the offset it resumes from.
pub struct RelayAcceptance {
    pub v: u32,
    pub transfer_id: String,
    pub manifest_hash: String,
    pub file_hash: String,
    pub offset: u64,
}

/// The acceptance a receiver sends for a manifest at `offset`.
pub fn relay_acceptance_for(transfer_id: &str, manifest_hash: &str, content_hash: &str, offset: u64) -> (r:
    RelayAcceptance)
    ensures
        r.v == 1,
        r.transfer_id@ == transfer_id@,
        r.manifest_hash@ == manifest_hash@,
        r.file_hash@ == content_hash@,
        r.offset == offset,
{
    RelayAcceptance {
        v: 1,
        transfer_id: transfer_id.to_owned(),
        manifest_hash: manifest_hash.to_owned(),
        file_hash: content_hash.to_owned(),
        offset,
    }
}

/// The sender takes an acceptance that names this transfer and manifest
/// (version 1, the same manifest hash, the content hash in either case) and
/// resumes from a chunk boundary no earlier than its own checkpoint.
pub open spec fn acceptance_ok(
    a_v: u32,
    a_transfer_id: Seq<char>,
    a_manifest_hash: Seq<char>,
    a_file_hash: Seq<u8>,
    a_offset: u64,
    m: ManifestView,
    content_hash_bytes: Seq<u8>,
    expected_manifest_hash: Seq<char>,
    transfer_offset: u64,
) -> bool {
    &&& a_transfer_id == m.transfer_id
    &&& a_v == 1
    &&& a_manifest_hash == expected_manifest_hash
    &&& eq_ignore_ascii_case(a_file_hash, content_hash_bytes)
    &&& valid_offset_spec(a_offset, m.file_size)
    &&& a_offset >= transfer_offset
}

pub fn check_relay_acceptance(acceptance: &RelayAcceptance, manifest: &FileManifest, transfer_offset: u64) -> (r:
    bool)
    ensures
        r == acceptance_ok(
            acceptance.v,
            acceptance.transfer_id@,
            acceptance.manifest_hash@,
            text_bytes(acceptance.file_hash@),
            acceptance.offset,
            manifest@,
            text_bytes(manifest.content_hash@),
            hex_lower(sha256(manifest_preimage(manifest@))),
            transfer_offset,
        ),
{
    let expected = relay_manifest_hash(manifest);
    str_eq(acceptance.transfer_id.as_str(), manifest.transfer_id.as_str()) && acceptance.v == 1 && str_eq(
        acceptance.manifest_hash.as_str(),
        expected.as_str(),
    ) && bytes_eq_ignore_ascii_case(acceptance.file_hash.as_str().as_bytes(), manifest.content_hash.as_str().as_bytes())
        && valid_relay_offset(acceptance.offset, manifest.file_size) && acceptance.offset >= transfer_offset
}

/// The sender's position in a file being sent over the Relay: the next
/// chunk's sequence number and the bytes sent so far.
#[derive(Debug, Clone, Copy, PartialEq, Eq)]
pub struct RelayChunkCursor {
    pub sequence: u64,
    pub transferred: u64,
    pub total: u64,
}

impl RelayChunkCursor {
    pub open spec fn wf(&self) -> bool {
        self.transferred <= self.total
    }

    /// A cursor at an accepted, chunk-aligned offset: the sequence is that
    /// boundary's.
    pub fn start(offset: u64, total: u64) -> (c: Self)
        requires
            valid_offset_spec(offset, total),
        ensures
            c.wf(),
            c.sequence == offset / RELAY_FILE_CHUNK_BYTES,
            c.transferred == offset,
            c.total == total,
    {
        RelayChunkCursor { sequence: offset / RELAY_FILE_CHUNK_BYTES, transferred: offset, total }
    }

    /// How many bytes the next read asks for: a chunk, or what is left.
    pub fn next_read_len(&self) -> (n: usize)
        requires
            self.wf(),
        ensures
            n == if self.total - self.transferred < RELAY_FILE_CHUNK_BYTES {
                self.total - self.transferred
            } else {
                RELAY_FILE_CHUNK_BYTES as int
            },
    {
        let left = self.total - self.transferred;
        if left < RELAY_FILE_CHUNK_BYTES {
            left as usize
        } else {
            RELAY_FILE_CHUNK_BYTES as usize
        }
    }

    /// Accounts for one chunk of `read` bytes sent: the bytes add up and the
    /// sequence number advances; `false` (and no change) when the sequence
    /// numbers are exhausted.
    pub fn advance(&mut self, read: usize) -> (ok: bool)
        requires
            old(self).wf(),
            read <= old(self).total - old(self).transferred,
        ensures
            final(self).wf(),
            ok == (old(self).sequence < u64::MAX),
            ok ==> final(self).sequence == old(self).sequence + 1 && final(self).transferred == old(self).transferred
                + read && final(self).total == old(self).total,
            !ok ==> *final(self) == *old(self),
    {
        if self.sequence == u64::MAX {
            return false;
        }
        self.sequence = self.sequence + 1;
        self.transferred = self.transferred + read as u64;
        true
    }

    /// Every declared byte was sent.
    pub fn finished(&self) -> (b: bool)
        ensures
            b == (self.transferred == self.total),
    {
        self.transferred == self.total
    }
}

/// What an error of a Relay transfer is, as far as recovery is concerned:
/// the Relay client or the socket is gone, or an I/O error of one of these
/// kinds.
#[derive(Debug, Clone, Copy, PartialEq, Eq, Structural)]
pub enum RelayErrorTag {
    RelayNotConnected,
    RelaySocket,
    BrokenPipe,
    ConnectionAborted,
    ConnectionReset,
    NotConnected,
    UnexpectedEof,
    TimedOut,
    InvalidData,
    Other,
}

pub open spec fn transient_tag(t: RelayErrorTag) -> bool {
    !(t == RelayErrorTag::InvalidData || t == RelayErrorTag::Other)
}

/// An error is transient (the transfer pauses for a new connection) when
/// any error in its source chain is.
pub fn is_transient_relay_error(chain: &[RelayErrorTag]) -> (r: bool)
    ensures
        r == exists|i: int| 0 <= i < chain@.len() && transient_tag(#[trigger] chain@[i]),
{
    let mut i: usize = 0;
    while i < chain.len()
        invariant
            i <= chain@.len(),
            forall|j: int| 0 <= j < i ==> !transient_tag(#[trigger] chain@[j]),
        decreases chain@.len() - i,
    {
        let t = chain[i];
        if !(t == RelayErrorTag::InvalidData || t == RelayErrorTag::Other) {
            assert(transient_tag(chain@[i as int]));
            return true;
        }
        i += 1;
    }
    false
}

/// How a sent transfer ends.
#[derive(Debug, Clone, Copy, PartialEq, Eq, Structural)]
pub enum RelaySendEnd {
    /// The transfer manager no longer knows the transfer: nothing to do.
    Forgotten,
    /// Completed or cancelled: the transfer leaves the manager.
    Remove,
    /// A transient failure: try to pause for a new connection.
    TryPause,
    /// A failure because the source changed.
    FailSourceChanged,
    /// Another failure.
    FailIo,
}

/// The end of a sent transfer from its result: `failed`, whether the error
/// was `transient`, whether it was `invalid_data`, whether the manager still
/// knows the transfer and whether it was cancelled. A failed pause falls
/// back to `fail_after_pause`.
pub open spec fn send_end_spec(failed: bool, transient: bool, invalid_data: bool, known: bool, cancelled: bool) -> RelaySendEnd {
    if failed && !known {
        RelaySendEnd::Forgotten
    } else if !failed || cancelled {
        RelaySendEnd::Remove
    } else if transient {
        RelaySendEnd::TryPause
    } else if invalid_data {
        RelaySendEnd::FailSourceChanged
    } else {
        RelaySendEnd::FailIo
    }
}

pub fn relay_send_end(failed: bool, transient: bool, invalid_data: bool, known: bool, cancelled: bool) -> (e:
    RelaySendEnd)
    ensures
        e == send_end_spec(failed, transient, invalid_data, known, cancelled),
{
    if failed && !known {
        RelaySendEnd::Forgotten
    } else if !failed || cancelled {
        RelaySendEnd::Remove
    } else if transient {
        RelaySendEnd::TryPause
    } else if invalid_data {
        RelaySendEnd::FailSourceChanged
    } else {
        RelaySendEnd::FailIo
    }
}

/// When a pause could not be taken, the failure is reported by its kind.
pub fn fail_after_pause(invalid_data: bool) -> (e: RelaySendEnd)
    ensures
        e == if invalid_data {
            RelaySendEnd::FailSourceChanged
        } else {
            RelaySendEnd::FailIo
        },
{
    if invalid_data {
        RelaySendEnd::FailSourceChanged
    } else {
        RelaySendEnd::FailIo
    }
}

/// Whether a failed send tells the receiver to cancel: only a failure that
/// is not transient.
pub fn send_cancel_on_failure(failed: bool, transient: bool) -> (b: bool)
    ensures
        b == (failed && !transient),
{
    failed && !transient
}

} // verus!
