//! Realtime signal kinds, identifier checks, signal bounds and the typed
//! screen-share consent checks at the native control boundary.

use crate::outside::{hex_decode, hex_encode, hex_lower, is_hex_byte, os_random_16, unix_time_ms};
use crate::strmap::str_eq;
use vstd::prelude::*;
use vstd::string::StringSliceAdditionalSpecFns;

verus! {

/// Largest SDP description accepted on the signaling path (bytes).
pub const MAX_SDP_BYTES: usize = 65536;

/// Largest trickled ICE candidate accepted on the signaling path (bytes).
pub const MAX_ICE_CANDIDATE_BYTES: usize = 2048;

/// Largest realtime signal payload (bytes); the SDP bound.
pub const MAX_REALTIME_SIGNAL_PAYLOAD_BYTES: usize = 65536;

/// Largest encoded screen-share consent (bytes).
pub const MAX_CONSENT_PAYLOAD_BYTES: usize = 4096;

/// Longest lifetime of one consent (milliseconds).
pub const SCREEN_SHARE_CONSENT_MAX_LIFETIME_MS: u64 = 120000;

/// How far in the future a consent may claim to be issued (milliseconds).
pub const SCREEN_SHARE_CONSENT_ALLOWED_FUTURE_SKEW_MS: u64 = 30000;

/// Kinds of realtime signal.
#[derive(Debug, Clone, Copy, PartialEq, Eq, Structural)]
pub enum RealtimeSignalKind {
    Unspecified,
    WebRtcOffer,
    WebRtcAnswer,
    IceCandidate,
    IceRestart,
    WebRtcClose,
    ScreenShareConsent,
}

/// The wire number of each signal kind.
pub open spec fn signal_kind_number(kind: RealtimeSignalKind) -> i32 {
    match kind {
        RealtimeSignalKind::Unspecified => 0,
        RealtimeSignalKind::WebRtcOffer => 1,
        RealtimeSignalKind::WebRtcAnswer => 2,
        RealtimeSignalKind::IceCandidate => 3,
        RealtimeSignalKind::IceRestart => 4,
        RealtimeSignalKind::WebRtcClose => 5,
        RealtimeSignalKind::ScreenShareConsent => 6,
    }
}

/// The kind with wire number `value`; `None` for an unknown number.
pub open spec fn signal_kind_of(value: i32) -> Option<RealtimeSignalKind> {
    if value == 0 {
        Some(RealtimeSignalKind::Unspecified)
    } else if value == 1 {
        Some(RealtimeSignalKind::WebRtcOffer)
    } else if value == 2 {
        Some(RealtimeSignalKind::WebRtcAnswer)
    } else if value == 3 {
        Some(RealtimeSignalKind::IceCandidate)
    } else if value == 4 {
        Some(RealtimeSignalKind::IceRestart)
    } else if value == 5 {
        Some(RealtimeSignalKind::WebRtcClose)
    } else if value == 6 {
        Some(RealtimeSignalKind::ScreenShareConsent)
    } else {
        None
    }
}

impl RealtimeSignalKind {
    /// The kind with wire number `value`; `None` for an unknown number.
    pub fn from_wire(value: i32) -> (r: Option<RealtimeSignalKind>)
        ensures
            r == signal_kind_of(value),
            r matches Some(k) ==> signal_kind_number(k) == value,
            r is None ==> forall|k: RealtimeSignalKind| signal_kind_number(k) != value,
    {
        match value {
            0 => Some(RealtimeSignalKind::Unspecified),
            1 => Some(RealtimeSignalKind::WebRtcOffer),
            2 => Some(RealtimeSignalKind::WebRtcAnswer),
            3 => Some(RealtimeSignalKind::IceCandidate),
            4 => Some(RealtimeSignalKind::IceRestart),
            5 => Some(RealtimeSignalKind::WebRtcClose),
            6 => Some(RealtimeSignalKind::ScreenShareConsent),
            _ => None,
        }
    }

    pub fn to_wire(self) -> (n: i32)
        ensures
            n == signal_kind_number(self),
    {
        match self {
            RealtimeSignalKind::Unspecified => 0,
            RealtimeSignalKind::WebRtcOffer => 1,
            RealtimeSignalKind::WebRtcAnswer => 2,
            RealtimeSignalKind::IceCandidate => 3,
            RealtimeSignalKind::IceRestart => 4,
            RealtimeSignalKind::WebRtcClose => 5,
            RealtimeSignalKind::ScreenShareConsent => 6,
        }
    }
}

/// `to_wire` and `from_wire` are inverse: a kind survives the round trip
/// through its wire number, and a known number through its kind.
pub proof fn lemma_signal_kind_round_trip(kind: RealtimeSignalKind, value: i32)
    ensures
        signal_kind_of(signal_kind_number(kind)) == Some(kind),
        signal_kind_of(value) matches Some(k) ==> signal_kind_number(k) == value,
{
}

/// The Relay V2 wire number for each kind. Screen-share consent travels as
/// number 6, which the frozen Relay V2 descriptor does not name and forwards
/// transparently.
pub open spec fn v2_signal_kind_number(kind: RealtimeSignalKind) -> i32 {
    match kind {
        RealtimeSignalKind::WebRtcOffer => 1,
        RealtimeSignalKind::WebRtcAnswer => 2,
        RealtimeSignalKind::IceCandidate => 3,
        RealtimeSignalKind::IceRestart => 4,
        RealtimeSignalKind::WebRtcClose => 5,
        RealtimeSignalKind::ScreenShareConsent => 6,
        RealtimeSignalKind::Unspecified => 0,
    }
}

/// Maps a signal kind to its frozen Relay V2 wire number.
pub fn to_v2_signal_kind(kind: RealtimeSignalKind) -> (n: i32)
    ensures
        n == v2_signal_kind_number(kind),
{
    match kind {
        RealtimeSignalKind::WebRtcOffer => 1,
        RealtimeSignalKind::WebRtcAnswer => 2,
        RealtimeSignalKind::IceCandidate => 3,
        RealtimeSignalKind::IceRestart => 4,
        RealtimeSignalKind::WebRtcClose => 5,
        RealtimeSignalKind::ScreenShareConsent => 6,
        RealtimeSignalKind::Unspecified => 0,
    }
}

/// Screen-share consent decisions.
#[derive(Debug, Clone, Copy, PartialEq, Eq, Structural)]
pub enum ScreenShareConsentDecision {
    Unspecified,
    Request,
    Accept,
    Reject,
    Cancel,
}

pub open spec fn decision_number(d: ScreenShareConsentDecision) -> i32 {
    match d {
        ScreenShareConsentDecision::Unspecified => 0,
        ScreenShareConsentDecision::Request => 1,
        ScreenShareConsentDecision::Accept => 2,
        ScreenShareConsentDecision::Reject => 3,
        ScreenShareConsentDecision::Cancel => 4,
    }
}

/// The decision with wire number `value`, if any.
pub open spec fn decision_of(value: i32) -> Option<ScreenShareConsentDecision> {
    if value == 0 {
        Some(ScreenShareConsentDecision::Unspecified)
    } else if value == 1 {
        Some(ScreenShareConsentDecision::Request)
    } else if value == 2 {
        Some(ScreenShareConsentDecision::Accept)
    } else if value == 3 {
        Some(ScreenShareConsentDecision::Reject)
    } else if value == 4 {
        Some(ScreenShareConsentDecision::Cancel)
    } else {
        None
    }
}

impl ScreenShareConsentDecision {
    pub fn from_wire(value: i32) -> (r: Option<ScreenShareConsentDecision>)
        ensures
            r == decision_of(value),
    {
        match value {
            0 => Some(ScreenShareConsentDecision::Unspecified),
            1 => Some(ScreenShareConsentDecision::Request),
            2 => Some(ScreenShareConsentDecision::Accept),
            3 => Some(ScreenShareConsentDecision::Reject),
            4 => Some(ScreenShareConsentDecision::Cancel),
            _ => None,
        }
    }

    pub fn to_wire(self) -> (n: i32)
        ensures
            n == decision_number(self),
            decision_of(n) == Some(self),
    {
        match self {
            ScreenShareConsentDecision::Unspecified => 0,
            ScreenShareConsentDecision::Request => 1,
            ScreenShareConsentDecision::Accept => 2,
            ScreenShareConsentDecision::Reject => 3,
            ScreenShareConsentDecision::Cancel => 4,
        }
    }
}

/// Consent purpose number for screen sharing (0 is unspecified).
pub const CONSENT_PURPOSE_SCREEN_SHARE: i32 = 1;

/// Consent media number for screen video (0 is unspecified).
pub const CONSENT_MEDIA_SCREEN_VIDEO: i32 = 1;

/// The decoded fields of a screen-share consent (schema version 2).
pub struct ScreenShareConsent {
    pub schema_version: u32,
    pub operation_id: String,
    pub realtime_id: String,
    pub shared_session_instance_id: String,
    pub issued_at_ms: u64,
    pub expires_at_ms: u64,
    pub sender_peer_id: String,
    pub decision: i32,
    pub purpose: i32,
    pub media: i32,
    pub requires_acceptance: bool,
    pub action_revision: u64,
}

impl ScreenShareConsent {
    /// A copy with the same fields.
    pub fn duplicate(&self) -> (r: Self)
        ensures
            r.same_as(*self),
    {
        ScreenShareConsent {
            schema_version: self.schema_version,
            operation_id: self.operation_id.clone(),
            realtime_id: self.realtime_id.clone(),
            shared_session_instance_id: self.shared_session_instance_id.clone(),
            issued_at_ms: self.issued_at_ms,
            expires_at_ms: self.expires_at_ms,
            sender_peer_id: self.sender_peer_id.clone(),
            decision: self.decision,
            purpose: self.purpose,
            media: self.media,
            requires_acceptance: self.requires_acceptance,
            action_revision: self.action_revision,
        }
    }

    /// Field-wise equality (strings by their text).
    pub open spec fn same_as(self, other: Self) -> bool {
        &&& self.schema_version == other.schema_version
        &&& self.operation_id@ == other.operation_id@
        &&& self.realtime_id@ == other.realtime_id@
        &&& self.shared_session_instance_id@ == other.shared_session_instance_id@
        &&& self.issued_at_ms == other.issued_at_ms
        &&& self.expires_at_ms == other.expires_at_ms
        &&& self.sender_peer_id@ == other.sender_peer_id@
        &&& self.decision == other.decision
        &&& self.purpose == other.purpose
        &&& self.media == other.media
        &&& self.requires_acceptance == other.requires_acceptance
        &&& self.action_revision == other.action_revision
    }
}

/// Wire-level error categories the native core reports.
#[derive(Debug, Clone, Copy, PartialEq, Eq, Structural)]
pub enum NetworkErrorCode {
    InvalidArgument,
    NoRoute,
    StaleOperation,
    IoError,
    RelayError,
    Cancelled,
    CredentialExpired,
    IdentityConflict,
}

/// Why a realtime operation was refused.
#[derive(Debug, Clone, Copy, PartialEq, Eq, Structural)]
pub enum RealtimeRejection {
    InvalidRealtimeId,
    InvalidSharedSessionInstanceId,
    PeerNotRegistered,
    SignalOutOfBounds,
    IceCandidateOutOfBounds,
    EmptySignalPayload,
    ConsentPayloadOutOfBounds,
    EnvelopeOutOfBounds,
    MalformedEnvelope,
    EnvelopePayloadOutOfBounds,
    MalformedConsent,
    UnsupportedConsentSchema,
    ConsentOperationIdOutOfBounds,
    ConsentRealtimeIdMismatch,
    ConsentSessionInstanceMismatch,
    ConsentExpirationInvalid,
    ConsentNotFresh,
    ConsentSenderOutOfBounds,
    ConsentSenderMismatch,
    UnknownConsentDecision,
    ConsentDecisionUnspecified,
    ConsentPurposeUnsupported,
    ConsentMediaUnsupported,
    ConsentAcceptanceInvalid,
    InvalidSignalKind,
    SessionDoesNotExist,
    SessionAlreadyExists,
    SignalPeerMismatch,
    SignalSessionInstanceMismatch,
    StaleSignalingRevision,
    StaleIceGeneration,
    ReplayedIceCandidate,
    GenerationMissing,
    ConsentIsNotWebRtc,
    UnsupportedSignalKind,
    StaleOrMismatchedRevision,
    TargetMismatch,
    SourceMismatch,
    NoAuthenticatedSource,
    EmptyPeerBinding,
    ProvisionalConflictsFormal,
    ConflictingOffer,
    OfferConflictsRequest,
    TooManyProvisional,
    ProvisionalOfferMissing,
    ProvisionalIceMismatch,
    StaleProvisionalIce,
    ProvisionalIceOutOfBounds,
    ProvisionalIceQueueFull,
    ReplayedProvisionalIce,
    InitialRequestRevisionInvalid,
    RequestBindingMismatch,
    ConflictingRequest,
    ReplayedRequest,
    CancelBindingMismatch,
    CancelLaneMissing,
    CancelRevisionNotContiguous,
    DecisionNotValidBeforeClaim,
    AnswerBeforeClaim,
    UnsupportedProvisionalKind,
    ReplayedAction,
    ReplayCacheFull,
    OnlyCancelWhileClaiming,
    CancelDoesNotMatchClaim,
    ClaimCloseMismatch,
    ClaimingSessionMissing,
    OfferDoesNotExist,
    ClaimStaleOrIncomplete,
    ClaimSuperseded,
    ClaimExpiredDuringCommit,
    RejectionStale,
    RequestIncomplete,
    RejectionSuperseded,
    DiscardStale,
    MalformedOfferDescription,
    RandomnessUnavailable,
    LocalIdentityUnavailable,
}

/// The error category reported for each refusal.
pub open spec fn rejection_code(r: RealtimeRejection) -> NetworkErrorCode {
    match r {
        RealtimeRejection::PeerNotRegistered => NetworkErrorCode::NoRoute,
        RealtimeRejection::ClaimSuperseded => NetworkErrorCode::StaleOperation,
        RealtimeRejection::ClaimExpiredDuringCommit => NetworkErrorCode::StaleOperation,
        RealtimeRejection::RejectionSuperseded => NetworkErrorCode::StaleOperation,
        _ => NetworkErrorCode::InvalidArgument,
    }
}

impl RealtimeRejection {
    pub fn code(self) -> (c: NetworkErrorCode)
        ensures
            c == rejection_code(self),
    {
        match self {
            RealtimeRejection::PeerNotRegistered => NetworkErrorCode::NoRoute,
            RealtimeRejection::ClaimSuperseded => NetworkErrorCode::StaleOperation,
            RealtimeRejection::ClaimExpiredDuringCommit => NetworkErrorCode::StaleOperation,
            RealtimeRejection::RejectionSuperseded => NetworkErrorCode::StaleOperation,
            _ => NetworkErrorCode::InvalidArgument,
        }
    }
}

/// The UTF-8 bytes of a text.
pub open spec fn text_bytes(s: Seq<char>) -> Seq<u8> {
    vstd::utf8::encode_utf8(s)
}

/// Lowercase hexadecimal digit byte.
pub open spec fn is_lower_hex_byte(c: u8) -> bool {
    (48 <= c <= 57) || (97 <= c <= 102)
}

/// `n` lowercase hexadecimal digits.
pub open spec fn is_lower_hex_text(bytes: Seq<u8>, n: nat) -> bool {
    &&& bytes.len() == n
    &&& forall|i: int| 0 <= i < bytes.len() ==> #[trigger] is_lower_hex_byte(bytes[i])
}

/// Whether no byte is an ASCII uppercase letter.
fn no_ascii_uppercase(bytes: &[u8]) -> (r: bool)
    ensures
        r == forall|i: int| 0 <= i < bytes@.len() ==> !(65 <= #[trigger] bytes@[i] <= 90),
{
    let mut i: usize = 0;
    while i < bytes.len()
        invariant
            i <= bytes@.len(),
            forall|j: int| 0 <= j < i ==> !(65 <= #[trigger] bytes@[j] <= 90),
        decreases bytes@.len() - i,
    {
        if 65 <= bytes[i] && bytes[i] <= 90 {
            return false;
        }
        i += 1;
    }
    true
}

/// Whether the text is `2 * n` lowercase hexadecimal digits that decode to
/// `n` bytes: the length check, the "already lowercase" check and a
/// `hex::decode` of the text, as the identifier checks perform them.
pub fn is_lower_hex_id(text: &str, n: usize) -> (r: bool)
    requires
        n <= usize::MAX / 2,
    ensures
        r == is_lower_hex_text(text.spec_bytes(), (2 * n) as nat),
{
    let bytes = text.as_bytes();
    if bytes.len() != 2 * n || !no_ascii_uppercase(bytes) {
        proof {
            if bytes.len() == 2 * n {
                let i = choose|i: int| 0 <= i < bytes@.len() && 65 <= #[trigger] bytes@[i] <= 90;
                assert(!is_lower_hex_byte(bytes@[i]));
            }
        }
        return false;
    }
    match hex_decode(bytes) {
        None => {
            proof {
                if is_lower_hex_text(bytes@, (2 * n) as nat) {
                    assert forall|i: int| 0 <= i < bytes@.len() implies #[trigger] is_hex_byte(bytes@[i]) by {
                        assert(is_lower_hex_byte(bytes@[i]));
                    }
                }
            }
            false
        },
        Some(decoded) => {
            proof {
                assert forall|i: int| 0 <= i < bytes@.len() implies #[trigger] is_lower_hex_byte(bytes@[i]) by {
                    assert(is_hex_byte(bytes@[i]));
                    assert(!(65 <= bytes@[i] <= 90));
                }
            }
            decoded.len() == n
        },
    }
}

/// The realtime ID is 32 lowercase hexadecimal digits.
pub open spec fn valid_realtime_id(id: Seq<u8>) -> bool {
    is_lower_hex_text(id, 32)
}

/// The shared session instance ID is 32 lowercase hexadecimal digits.
pub open spec fn valid_shared_session_instance_id(id: Seq<u8>) -> bool {
    is_lower_hex_text(id, 32)
}

pub fn validate_realtime_id(id: &str) -> (r: Result<(), RealtimeRejection>)
    ensures
        r is Ok <==> valid_realtime_id(id.spec_bytes()),
        r matches Err(e) ==> e == RealtimeRejection::InvalidRealtimeId,
{
    if !is_lower_hex_id(id, 16) {
        return Err(RealtimeRejection::InvalidRealtimeId);
    }
    Ok(())
}

pub fn validate_shared_session_instance_id(id: &str) -> (r: Result<(), RealtimeRejection>)
    ensures
        r is Ok <==> valid_shared_session_instance_id(id.spec_bytes()),
        r matches Err(e) ==> e == RealtimeRejection::InvalidSharedSessionInstanceId,
{
    if !is_lower_hex_id(id, 16) {
        return Err(RealtimeRejection::InvalidSharedSessionInstanceId);
    }
    Ok(())
}

/// A fresh shared session instance ID: 16 random bytes from the operating
/// system as lowercase hexadecimal text. `None` when the system has no
/// randomness to give.
pub fn new_shared_session_instance_id() -> (r: Option<String>)
    ensures
        r matches Some(id) ==> exists|b: Seq<u8>| b.len() == 16 && id@ == #[trigger] hex_lower(b),
{
    match os_random_16() {
        Some(bytes) => {
            let text = hex_encode(&bytes);
            proof {
                assert(bytes@.len() == 16);
            }
            Some(text)
        },
        None => None,
    }
}

/// A peer ID that may bind a realtime session: 1 to 128 bytes and registered.
pub open spec fn valid_peer_binding(peer_id: Seq<u8>, registered: bool) -> bool {
    0 < peer_id.len() <= 128 && registered
}

/// Checks a peer ID; `registered` is whether the runtime knows the peer.
pub fn validate_peer(peer_id: &str, registered: bool) -> (r: Result<(), RealtimeRejection>)
    ensures
        r is Ok <==> valid_peer_binding(peer_id.spec_bytes(), registered),
        r matches Err(e) ==> e == RealtimeRejection::PeerNotRegistered,
{
    let n = peer_id.as_bytes().len();
    if n == 0 || n > 128 || !registered {
        return Err(RealtimeRejection::PeerNotRegistered);
    }
    Ok(())
}

/// The result of `validate_signal`, in check order.
pub open spec fn validate_signal_spec(kind: RealtimeSignalKind, revision: u64, payload_len: nat) -> Result<
    (),
    RealtimeRejection,
> {
    if revision == 0 || payload_len > MAX_REALTIME_SIGNAL_PAYLOAD_BYTES {
        Err(RealtimeRejection::SignalOutOfBounds)
    } else if kind == RealtimeSignalKind::IceCandidate && payload_len > MAX_ICE_CANDIDATE_BYTES {
        Err(RealtimeRejection::IceCandidateOutOfBounds)
    } else if !(kind == RealtimeSignalKind::WebRtcClose || kind == RealtimeSignalKind::IceRestart
        || kind == RealtimeSignalKind::IceCandidate) && payload_len == 0 {
        Err(RealtimeRejection::EmptySignalPayload)
    } else if kind == RealtimeSignalKind::ScreenShareConsent && payload_len > MAX_CONSENT_PAYLOAD_BYTES {
        Err(RealtimeRejection::ConsentPayloadOutOfBounds)
    } else {
        Ok(())
    }
}

/// Bounds of one WebRTC signal: positive revision, payload within bounds,
/// ICE within the candidate bound, a non-empty payload except for close,
/// restart and ICE, and consent within its own bound.
pub fn validate_signal(kind: RealtimeSignalKind, revision: u64, payload: &[u8]) -> (r: Result<
    (),
    RealtimeRejection,
>)
    ensures
        r == validate_signal_spec(kind, revision, payload@.len()),
{
    let n = payload.len();
    if revision == 0 || n > MAX_REALTIME_SIGNAL_PAYLOAD_BYTES {
        return Err(RealtimeRejection::SignalOutOfBounds);
    }
    if kind == RealtimeSignalKind::IceCandidate && n > MAX_ICE_CANDIDATE_BYTES {
        return Err(RealtimeRejection::IceCandidateOutOfBounds);
    }
    if !(kind == RealtimeSignalKind::WebRtcClose || kind == RealtimeSignalKind::IceRestart || kind
        == RealtimeSignalKind::IceCandidate) && n == 0 {
        return Err(RealtimeRejection::EmptySignalPayload);
    }
    if kind == RealtimeSignalKind::ScreenShareConsent && n > MAX_CONSENT_PAYLOAD_BYTES {
        return Err(RealtimeRejection::ConsentPayloadOutOfBounds);
    }
    Ok(())
}

/// The result of checking a decoded signal envelope: `payload_len` is the
/// size of the envelope bytes, `decoded` what they decode to (`None` when
/// they are malformed), as (shared session instance ID bytes, inner payload
/// length).
pub open spec fn check_signal_envelope_spec(
    payload_len: nat,
    decoded: Option<(Seq<u8>, nat)>,
) -> Result<(), RealtimeRejection> {
    if payload_len == 0 || payload_len > MAX_REALTIME_SIGNAL_PAYLOAD_BYTES {
        Err(RealtimeRejection::EnvelopeOutOfBounds)
    } else if decoded is None {
        Err(RealtimeRejection::MalformedEnvelope)
    } else if !valid_shared_session_instance_id(decoded->Some_0.0) {
        Err(RealtimeRejection::InvalidSharedSessionInstanceId)
    } else if decoded->Some_0.1 > MAX_REALTIME_SIGNAL_PAYLOAD_BYTES {
        Err(RealtimeRejection::EnvelopePayloadOutOfBounds)
    } else {
        Ok(())
    }
}

/// Checks an inbound realtime signal envelope: the envelope is within bounds,
/// decodes, names a well-formed shared session instance, and carries a
/// payload within bounds. On success the decoded parts are handed back.
pub fn check_signal_envelope(payload_len: usize, decoded: Option<(String, Vec<u8>)>) -> (r: Result<
    (String, Vec<u8>),
    RealtimeRejection,
>)
    ensures
        r.is_ok() == check_signal_envelope_spec(
            payload_len as nat,
            match decoded {
                Some(d) => Some((text_bytes(d.0@), d.1@.len())),
                None => None,
            },
        ).is_ok(),
        r matches Err(e) ==> check_signal_envelope_spec(
            payload_len as nat,
            match decoded {
                Some(d) => Some((text_bytes(d.0@), d.1@.len())),
                None => None,
            },
        ) == Err::<(), RealtimeRejection>(e),
        r matches Ok(parts) ==> decoded matches Some(d) && parts.0@ == d.0@ && parts.1@ == d.1@,
{
    if payload_len == 0 || payload_len > MAX_REALTIME_SIGNAL_PAYLOAD_BYTES {
        return Err(RealtimeRejection::EnvelopeOutOfBounds);
    }
    match decoded {
        None => Err(RealtimeRejection::MalformedEnvelope),
        Some((id, payload)) => {
            if validate_shared_session_instance_id(id.as_str()).is_err() {
                return Err(RealtimeRejection::InvalidSharedSessionInstanceId);
            }
            if payload.len() > MAX_REALTIME_SIGNAL_PAYLOAD_BYTES {
                return Err(RealtimeRejection::EnvelopePayloadOutOfBounds);
            }
            Ok((id, payload))
        },
    }
}

/// Checks an outbound envelope: the shared session instance ID is well formed
/// and the encoded envelope (of `encoded_len` bytes) is within bounds.
pub fn check_outbound_envelope(shared_session_instance_id: &str, encoded_len: usize) -> (r: Result<
    (),
    RealtimeRejection,
>)
    ensures
        r == (if !valid_shared_session_instance_id(shared_session_instance_id.spec_bytes()) {
            Err(RealtimeRejection::InvalidSharedSessionInstanceId)
        } else if encoded_len > MAX_REALTIME_SIGNAL_PAYLOAD_BYTES {
            Err(RealtimeRejection::EnvelopeOutOfBounds)
        } else {
            Ok(())
        }),
{
    validate_shared_session_instance_id(shared_session_instance_id)?;
    if encoded_len > MAX_REALTIME_SIGNAL_PAYLOAD_BYTES {
        return Err(RealtimeRejection::EnvelopeOutOfBounds);
    }
    Ok(())
}

/// The result of `validate_screen_share_consent_at`, in check order.
/// `payload_len` is the size of the encoded consent and `decoded` its
/// decoded fields (`None` when malformed).
pub open spec fn consent_check_spec(
    payload_len: nat,
    decoded: Option<ScreenShareConsent>,
    expected_realtime_id: Seq<char>,
    expected_sender_peer_id: Option<Seq<char>>,
    expected_shared_session_instance_id: Option<Seq<char>>,
    now_ms: u64,
) -> Result<(), RealtimeRejection> {
    if payload_len == 0 || payload_len > MAX_CONSENT_PAYLOAD_BYTES {
        Err(RealtimeRejection::ConsentPayloadOutOfBounds)
    } else if decoded is None {
        Err(RealtimeRejection::MalformedConsent)
    } else {
        let c = decoded->Some_0;
        let op_len = text_bytes(c.operation_id@).len();
        let sender_len = text_bytes(c.sender_peer_id@).len();
        if c.schema_version != 2 {
            Err(RealtimeRejection::UnsupportedConsentSchema)
        } else if op_len == 0 || op_len > 128 {
            Err(RealtimeRejection::ConsentOperationIdOutOfBounds)
        } else if c.realtime_id@ != expected_realtime_id {
            Err(RealtimeRejection::ConsentRealtimeIdMismatch)
        } else if !valid_shared_session_instance_id(text_bytes(c.shared_session_instance_id@)) {
            Err(RealtimeRejection::InvalidSharedSessionInstanceId)
        } else if expected_shared_session_instance_id matches Some(e) && c.shared_session_instance_id@ != e {
            Err(RealtimeRejection::ConsentSessionInstanceMismatch)
        } else if c.issued_at_ms == 0 || c.expires_at_ms <= c.issued_at_ms || c.expires_at_ms
            - c.issued_at_ms > SCREEN_SHARE_CONSENT_MAX_LIFETIME_MS {
            Err(RealtimeRejection::ConsentExpirationInvalid)
        } else if c.issued_at_ms > now_ms + SCREEN_SHARE_CONSENT_ALLOWED_FUTURE_SKEW_MS
            || c.expires_at_ms <= now_ms {
            Err(RealtimeRejection::ConsentNotFresh)
        } else if sender_len == 0 || sender_len > 128 {
            Err(RealtimeRejection::ConsentSenderOutOfBounds)
        } else if expected_sender_peer_id matches Some(e) && c.sender_peer_id@ != e {
            Err(RealtimeRejection::ConsentSenderMismatch)
        } else if decision_of(c.decision) is None {
            Err(RealtimeRejection::UnknownConsentDecision)
        } else if decision_of(c.decision) == Some(ScreenShareConsentDecision::Unspecified) {
            Err(RealtimeRejection::ConsentDecisionUnspecified)
        } else if c.purpose != CONSENT_PURPOSE_SCREEN_SHARE {
            Err(RealtimeRejection::ConsentPurposeUnsupported)
        } else if c.media != CONSENT_MEDIA_SCREEN_VIDEO {
            Err(RealtimeRejection::ConsentMediaUnsupported)
        } else if !c.requires_acceptance || c.action_revision == 0 {
            Err(RealtimeRejection::ConsentAcceptanceInvalid)
        } else {
            Ok(())
        }
    }
}

/// Validates a typed screen-share consent at the native control boundary.
/// `expected_sender_peer_id` is supplied for inbound signals, where the
/// authenticated realtime binding is authoritative; local outgoing commands
/// perform the structural checks without guessing the sender. On success the
/// consent is handed back.
pub fn validate_screen_share_consent_at(
    payload_len: usize,
    decoded: Option<ScreenShareConsent>,
    expected_realtime_id: &str,
    expected_sender_peer_id: Option<&str>,
    expected_shared_session_instance_id: Option<&str>,
    now_ms: u64,
) -> (r: Result<ScreenShareConsent, RealtimeRejection>)
    ensures
        r.is_ok() == consent_check_spec(
            payload_len as nat,
            decoded,
            expected_realtime_id@,
            match expected_sender_peer_id {
                Some(s) => Some(s@),
                None => None,
            },
            match expected_shared_session_instance_id {
                Some(s) => Some(s@),
                None => None,
            },
            now_ms,
        ).is_ok(),
        r matches Err(e) ==> consent_check_spec(
            payload_len as nat,
            decoded,
            expected_realtime_id@,
            match expected_sender_peer_id {
                Some(s) => Some(s@),
                None => None,
            },
            match expected_shared_session_instance_id {
                Some(s) => Some(s@),
                None => None,
            },
            now_ms,
        ) == Err::<(), RealtimeRejection>(e),
        r matches Ok(c) ==> decoded == Some(c),
{
    if payload_len == 0 || payload_len > MAX_CONSENT_PAYLOAD_BYTES {
        return Err(RealtimeRejection::ConsentPayloadOutOfBounds);
    }
    let consent = match decoded {
        Some(c) => c,
        None => return Err(RealtimeRejection::MalformedConsent),
    };
    if consent.schema_version != 2 {
        return Err(RealtimeRejection::UnsupportedConsentSchema);
    }
    let op_len = consent.operation_id.as_str().as_bytes().len();
    if op_len == 0 || op_len > 128 {
        return Err(RealtimeRejection::ConsentOperationIdOutOfBounds);
    }
    if !str_eq(consent.realtime_id.as_str(), expected_realtime_id) {
        return Err(RealtimeRejection::ConsentRealtimeIdMismatch);
    }
    if validate_shared_session_instance_id(consent.shared_session_instance_id.as_str()).is_err() {
        return Err(RealtimeRejection::InvalidSharedSessionInstanceId);
    }
    if let Some(expected) = expected_shared_session_instance_id {
        if !str_eq(consent.shared_session_instance_id.as_str(), expected) {
            return Err(RealtimeRejection::ConsentSessionInstanceMismatch);
        }
    }
    if consent.issued_at_ms == 0 || consent.expires_at_ms <= consent.issued_at_ms
        || consent.expires_at_ms - consent.issued_at_ms > SCREEN_SHARE_CONSENT_MAX_LIFETIME_MS {
        return Err(RealtimeRejection::ConsentExpirationInvalid);
    }
    let skewed = now_ms.saturating_add(SCREEN_SHARE_CONSENT_ALLOWED_FUTURE_SKEW_MS);
    proof {
        assert(consent.issued_at_ms > skewed <==> consent.issued_at_ms > now_ms
            + SCREEN_SHARE_CONSENT_ALLOWED_FUTURE_SKEW_MS);
    }
    if consent.issued_at_ms > skewed || consent.expires_at_ms <= now_ms {
        return Err(RealtimeRejection::ConsentNotFresh);
    }
    let sender_len = consent.sender_peer_id.as_str().as_bytes().len();
    if sender_len == 0 || sender_len > 128 {
        return Err(RealtimeRejection::ConsentSenderOutOfBounds);
    }
    if let Some(expected) = expected_sender_peer_id {
        if !str_eq(consent.sender_peer_id.as_str(), expected) {
            return Err(RealtimeRejection::ConsentSenderMismatch);
        }
    }
    match ScreenShareConsentDecision::from_wire(consent.decision) {
        None => return Err(RealtimeRejection::UnknownConsentDecision),
        Some(ScreenShareConsentDecision::Unspecified) => {
            return Err(RealtimeRejection::ConsentDecisionUnspecified);
        },
        Some(_) => {},
    }
    if consent.purpose != CONSENT_PURPOSE_SCREEN_SHARE {
        return Err(RealtimeRejection::ConsentPurposeUnsupported);
    }
    if consent.media != CONSENT_MEDIA_SCREEN_VIDEO {
        return Err(RealtimeRejection::ConsentMediaUnsupported);
    }
    if !consent.requires_acceptance || consent.action_revision == 0 {
        return Err(RealtimeRejection::ConsentAcceptanceInvalid);
    }
    Ok(consent)
}

/// How a consent check's result stands to `consent_check_spec` at `now_ms`.
pub open spec fn consent_result(
    r: Result<ScreenShareConsent, RealtimeRejection>,
    payload_len: nat,
    decoded: Option<ScreenShareConsent>,
    expected_realtime_id: Seq<char>,
    expected_sender_peer_id: Option<Seq<char>>,
    expected_shared_session_instance_id: Option<Seq<char>>,
    now_ms: u64,
) -> bool {
    let res = consent_check_spec(
        payload_len,
        decoded,
        expected_realtime_id,
        expected_sender_peer_id,
        expected_shared_session_instance_id,
        now_ms,
    );
    &&& r.is_ok() == res.is_ok()
    &&& r matches Err(e) ==> res == Err::<(), RealtimeRejection>(e)
    &&& r matches Ok(c) ==> decoded == Some(c)
}

/// The text of an optional string.
pub open spec fn opt_str_view(o: Option<&str>) -> Option<Seq<char>> {
    match o {
        Some(s) => Some(s@),
        None => None,
    }
}

/// The time a clock reading stands for: a clock before the epoch reads as
/// the epoch.
pub open spec fn clock_reading(clock: Option<u64>) -> u64 {
    match clock {
        Some(ms) => ms,
        None => 0,
    }
}

/// `now_ms` is a time the machine's clock can give: a value a call of
/// `unix_time_ms` returns, read as `clock_reading`.
pub closed spec fn clock_may_read(now_ms: u64) -> bool {
    exists|clock: Option<u64>| #[trigger] call_ensures(unix_time_ms, (), clock) && clock_reading(clock) == now_ms
}

/// `validate_screen_share_consent_at` at the machine's clock: the result is
/// the check's at a time the clock gave (`clock_may_read`), so an accepted
/// consent had not expired (and was not issued too far ahead) by that
/// reading.
pub fn validate_screen_share_consent(
    payload_len: usize,
    decoded: Option<ScreenShareConsent>,
    expected_realtime_id: &str,
    expected_sender_peer_id: Option<&str>,
    expected_shared_session_instance_id: Option<&str>,
) -> (r: Result<ScreenShareConsent, RealtimeRejection>)
    ensures
        exists|now_ms: u64|
            #[trigger] clock_may_read(now_ms) && consent_result(
                r,
                payload_len as nat,
                decoded,
                expected_realtime_id@,
                opt_str_view(expected_sender_peer_id),
                opt_str_view(expected_shared_session_instance_id),
                now_ms,
            ),
        r matches Ok(c) ==> exists|now_ms: u64|
            #[trigger] clock_may_read(now_ms) && now_ms < c.expires_at_ms && c.issued_at_ms <= now_ms
                + SCREEN_SHARE_CONSENT_ALLOWED_FUTURE_SKEW_MS,
{
    let clock = unix_time_ms();
    let now_ms = match clock {
        Some(ms) => ms,
        None => 0,
    };
    let r = validate_screen_share_consent_at(
        payload_len,
        decoded,
        expected_realtime_id,
        expected_sender_peer_id,
        expected_shared_session_instance_id,
        now_ms,
    );
    proof {
        assert(call_ensures(unix_time_ms, (), clock));
        assert(clock_may_read(now_ms));
        assert(consent_result(
            r,
            payload_len as nat,
            decoded,
            expected_realtime_id@,
            opt_str_view(expected_sender_peer_id),
            opt_str_view(expected_shared_session_instance_id),
            now_ms,
        ));
        if r is Ok {
            lemma_accepted_consent_is_fresh(
                payload_len as nat,
                decoded,
                expected_realtime_id@,
                opt_str_view(expected_sender_peer_id),
                opt_str_view(expected_shared_session_instance_id),
                now_ms,
            );
        }
    }
    r
}

/// A consent passes the check at `now_ms` only while it is fresh then: it
/// expires after `now_ms` and was issued no further ahead of it than the
/// allowed skew; a consent that expired by `now_ms` is refused.
pub proof fn lemma_accepted_consent_is_fresh(
    payload_len: nat,
    decoded: Option<ScreenShareConsent>,
    expected_realtime_id: Seq<char>,
    expected_sender_peer_id: Option<Seq<char>>,
    expected_shared_session_instance_id: Option<Seq<char>>,
    now_ms: u64,
)
    ensures
        consent_check_spec(
            payload_len,
            decoded,
            expected_realtime_id,
            expected_sender_peer_id,
            expected_shared_session_instance_id,
            now_ms,
        ) is Ok ==> (decoded matches Some(c) && now_ms < c.expires_at_ms && c.issued_at_ms <= now_ms
            + SCREEN_SHARE_CONSENT_ALLOWED_FUTURE_SKEW_MS),
{
}

/// The supervised task key of a realtime session: `realtime:` and its ID.
pub fn realtime_task_key(realtime_id: &str) -> (key: String)
    ensures
        key@ == "realtime:"@ + realtime_id@,
{
    let prefix = "realtime:".to_owned();
    prefix.concat(realtime_id)
}

} // verus!
