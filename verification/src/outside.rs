//! Calls into `hex`, `sha2`, `base64`, `rand`, and std's UTF-8 check, string
//! splitting and trimming, and clock.
//!
//! Each function here is a trusted boundary: Verus believes its contract and
//! does not read its body. Every contract states only what the called
//! function's source or documentation shows.

use base64::Engine as _;
use rand::RngCore as _;
use sha2::Digest as _;
use vstd::prelude::*;
use vstd::string::StringSliceAdditionalSpecFns;
use vstd::utf8::*;

verus! {

/// The lowercase hexadecimal digit for a nibble value `n` (0..=15).
pub open spec fn hex_digit_lower(n: int) -> char {
    if n < 10 {
        (48 + n) as char
    } else {
        (87 + n) as char
    }
}

/// Lowercase hexadecimal text of `bytes`: two digits per byte, high nibble first.
pub open spec fn hex_lower(bytes: Seq<u8>) -> Seq<char> {
    Seq::new(
        (2 * bytes.len()) as nat,
        |i: int|
            if i % 2 == 0 {
                hex_digit_lower(bytes[i / 2] as int / 16)
            } else {
                hex_digit_lower(bytes[i / 2] as int % 16)
            },
    )
}

/// Whether the byte is an ASCII hexadecimal digit of either case.
pub open spec fn is_hex_byte(c: u8) -> bool {
    (48 <= c <= 57) || (65 <= c <= 70) || (97 <= c <= 102)
}

/// The value of an ASCII hexadecimal digit.
pub open spec fn hex_byte_value(c: u8) -> int {
    if 48 <= c <= 57 {
        c - 48
    } else if 65 <= c <= 70 {
        c - 55
    } else {
        c - 87
    }
}

/// Whether `s` is text that `hex::decode` accepts: even length, hex digits only.
pub open spec fn hex_decodable(s: Seq<u8>) -> bool {
    &&& s.len() % 2 == 0
    &&& forall|i: int| 0 <= i < s.len() ==> #[trigger] is_hex_byte(s[i])
}

/// The bytes that `hex::decode` produces from decodable text.
pub open spec fn hex_decoded(s: Seq<u8>) -> Seq<u8> {
    Seq::new(
        (s.len() / 2) as nat,
        |i: int| (hex_byte_value(s[2 * i]) * 16 + hex_byte_value(s[2 * i + 1])) as u8,
    )
}

/// The SHA-256 digest of `data`, as computed by the `sha2` crate.
pub uninterp spec fn sha256(data: Seq<u8>) -> Seq<u8>;

/// The text that `base64`'s URL-safe, unpadded engine encodes `data` into.
pub uninterp spec fn base64_url_encode(data: Seq<u8>) -> Seq<char>;

/// What `base64`'s URL-safe, unpadded engine decodes `text` into (`None` when it rejects it).
pub uninterp spec fn base64_url_decode(text: Seq<u8>) -> Option<Seq<u8>>;

/// `hex::encode`: the lowercase hexadecimal text of `data`. The crate maps each
/// byte through the table `0123456789abcdef`, high nibble first.
#[verifier::external_body]
pub(crate) fn hex_encode(data: &[u8]) -> (text: String)
    ensures
        text@ == hex_lower(data@),
{
    hex::encode(data)
}

/// `hex::decode`: `Some` exactly when the text has even length and holds only
/// hexadecimal digits of either case; the bytes are formed from digit pairs.
#[verifier::external_body]
pub(crate) fn hex_decode(text: &[u8]) -> (bytes: Option<Vec<u8>>)
    ensures
        bytes.is_some() == hex_decodable(text@),
        bytes matches Some(b) ==> b@ == hex_decoded(text@),
{
    hex::decode(text).ok()
}

/// `sha2::Sha256::digest`: the 32-byte SHA-256 digest of `data`.
#[verifier::external_body]
pub(crate) fn sha256_digest(data: &[u8]) -> (digest: Vec<u8>)
    ensures
        digest@ == sha256(data@),
        digest@.len() == 32,
{
    sha2::Sha256::digest(data).to_vec()
}

/// `base64`'s `URL_SAFE_NO_PAD.encode`. The crate only panics when the encoded
/// length overflows `usize`, which the bound on the input rules out. The
/// same engine decodes the text back to the input (the crate's round-trip
/// tests assert exactly this for every engine configuration).
#[verifier::external_body]
pub(crate) fn base64_url_encode_bytes(data: &[u8]) -> (text: String)
    requires
        data@.len() <= usize::MAX / 2,
    ensures
        text@ == base64_url_encode(data@),
        base64_url_decode(encode_utf8(text@)) == Some(data@),
{
    base64::engine::general_purpose::URL_SAFE_NO_PAD.encode(data)
}

/// `base64`'s `URL_SAFE_NO_PAD.decode`; `None` when the engine rejects the text.
#[verifier::external_body]
pub(crate) fn base64_url_decode_bytes(text: &[u8]) -> (data: Option<Vec<u8>>)
    ensures
        data.is_some() == base64_url_decode(text@).is_some(),
        data matches Some(d) ==> base64_url_decode(text@) == Some(d@),
{
    base64::engine::general_purpose::URL_SAFE_NO_PAD.decode(text).ok()
}

/// `rand::rngs::OsRng::try_fill_bytes` on 16 bytes. The bytes come from the
/// operating system, so nothing is stated of them; `None` when it fails.
#[verifier::external_body]
pub(crate) fn os_random_16() -> (bytes: Option<[u8; 16]>) {
    let mut bytes = [0u8; 16];
    match rand::rngs::OsRng.try_fill_bytes(&mut bytes) {
        Ok(()) => Some(bytes),
        Err(_) => None,
    }
}

/// `std::time::SystemTime::now()` as milliseconds since the Unix epoch;
/// `None` for a clock set before the epoch. Nothing is stated of the value:
/// it is the machine's clock.
#[verifier::external_body]
pub(crate) fn unix_time_ms() -> (ms: Option<u64>) {
    match std::time::SystemTime::now().duration_since(std::time::UNIX_EPOCH) {
        Ok(elapsed) => Some(elapsed.as_millis() as u64),
        Err(_) => None,
    }
}

/// A character with Unicode's `White_Space` property, which `char::is_whitespace`
/// and so `str::trim` go by: U+0009 to U+000D, U+0020, U+0085, U+00A0,
/// U+1680, U+2000 to U+200A, U+2028, U+2029, U+202F, U+205F and U+3000.
pub open spec fn unicode_white_space(c: char) -> bool {
    let v = c as u32;
    ||| 0x9 <= v <= 0xd
    ||| v == 0x20
    ||| v == 0x85
    ||| v == 0xa0
    ||| v == 0x1680
    ||| 0x2000 <= v <= 0x200a
    ||| v == 0x2028
    ||| v == 0x2029
    ||| v == 0x202f
    ||| v == 0x205f
    ||| v == 0x3000
}

/// `s` without its leading whitespace.
pub open spec fn trim_start(s: Seq<char>) -> Seq<char>
    decreases s.len(),
{
    if s.len() > 0 && unicode_white_space(s[0]) {
        trim_start(s.drop_first())
    } else {
        s
    }
}

/// `s` without its trailing whitespace.
pub open spec fn trim_end(s: Seq<char>) -> Seq<char>
    decreases s.len(),
{
    if s.len() > 0 && unicode_white_space(s.last()) {
        trim_end(s.drop_last())
    } else {
        s
    }
}

/// The text `str::trim` leaves of `s`: without leading and trailing
/// whitespace.
pub open spec fn trimmed(s: Seq<char>) -> Seq<char> {
    trim_end(trim_start(s))
}

/// `str::trim`: the text without leading and trailing whitespace.
#[verifier::external_body]
pub(crate) fn str_trim(s: &str) -> (r: &str)
    ensures
        r@ == trimmed(s@),
{
    s.trim()
}

/// The pieces `str::split(',')` yields: the text cut at every comma, with
/// empty pieces kept (an empty text is one empty piece).
pub open spec fn split_comma(s: Seq<char>) -> Seq<Seq<char>>
    decreases s.len(),
{
    if s.len() == 0 {
        seq![Seq::empty()]
    } else {
        let rest = split_comma(s.drop_last());
        if s.last() == ',' {
            rest.push(Seq::empty())
        } else {
            rest.update(rest.len() - 1, rest.last().push(s.last()))
        }
    }
}

/// `str::split(',')`, collected: the pieces are `split_comma` of the text.
#[verifier::external_body]
pub(crate) fn str_split_commas(s: &str) -> (r: Vec<String>)
    ensures
        r@.map_values(|p: String| p@) == split_comma(s@),
{
    s.split(',').map(|piece| piece.to_owned()).collect()
}

/// `std::str::from_utf8`: `Some` exactly when the bytes are valid UTF-8, and
/// then the string holds exactly those bytes.
#[verifier::external_body]
pub(crate) fn str_from_utf8(bytes: &[u8]) -> (text: Option<&str>)
    ensures
        text.is_some() == valid_utf8(bytes@),
        text matches Some(t) ==> t.spec_bytes() == bytes@,
{
    std::str::from_utf8(bytes).ok()
}

} // verus!
