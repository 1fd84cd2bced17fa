//! Calls into the encoding, digest, JSON, randomness, identifier and clock crates.
//! Each call sits in one small function whose contract is taken on trust; what a
//! call returns is given a name below where it is a function of the arguments
//! alone, and is left open where it is not (random bytes, the time).

use vstd::prelude::*;
use base64::Engine;
use rand::RngCore;

verus! {

/// What base64's URL-safe engine without padding decodes `s` to, or `None` when it
/// rejects `s`.
pub uninterp spec fn url_safe_unpadded_decoding(s: Seq<char>) -> Option<Seq<u8>>;

/// What base64's URL-safe engine with canonical padding decodes `s` to, or `None`
/// when it rejects `s`.
pub uninterp spec fn url_safe_padded_decoding(s: Seq<char>) -> Option<Seq<u8>>;

/// The URL-safe base64 text of `b`, without padding.
pub uninterp spec fn url_safe_unpadded_encoding(b: Seq<u8>) -> Seq<char>;

/// The SHA-256 digest of the UTF-8 bytes of `s`.
pub uninterp spec fn sha256_of(s: Seq<char>) -> Seq<u8>;

/// The string stored under `key` in the JSON object that `b` parses to; `None`
/// when `b` is no JSON object, or the member is missing or not a string.
pub uninterp spec fn json_member(b: Seq<u8>, key: Seq<char>) -> Option<Seq<char>>;

/// `s` in upper case, by the Unicode rules of `str::to_uppercase`.
pub uninterp spec fn upper_case_of(s: Seq<char>) -> Seq<char>;

/// Relies on base64's `URL_SAFE_NO_PAD.decode`, which returns an error on bad input
/// and does not panic.
#[verifier::external_body]
pub(crate) fn decode_url_safe_unpadded(s: &str) -> (r: Option<Vec<u8>>)
    ensures
        match r {
            Some(b) => url_safe_unpadded_decoding(s@) == Some(b@),
            None => url_safe_unpadded_decoding(s@) is None,
        },
{
    base64::engine::general_purpose::URL_SAFE_NO_PAD.decode(s).ok()
}

/// Relies on base64's `URL_SAFE.decode`, which returns an error on bad input and
/// does not panic.
#[verifier::external_body]
pub(crate) fn decode_url_safe_padded(s: &str) -> (r: Option<Vec<u8>>)
    ensures
        match r {
            Some(b) => url_safe_padded_decoding(s@) == Some(b@),
            None => url_safe_padded_decoding(s@) is None,
        },
{
    base64::engine::general_purpose::URL_SAFE.decode(s).ok()
}

/// The length of the unpadded base64 text of `n` bytes.
pub open spec fn unpadded_encoded_len(n: nat) -> nat {
    4 * (n / 3) + if n % 3 == 0 {
        0nat
    } else if n % 3 == 1 {
        2nat
    } else {
        3nat
    }
}

/// A character of the URL-safe base64 alphabet.
pub open spec fn is_url_safe_char(c: char) -> bool {
    ('A' <= c <= 'Z') || ('a' <= c <= 'z') || ('0' <= c <= '9') || c == '-' || c == '_'
}

/// Relies on base64's `URL_SAFE_NO_PAD.encode`: `encoded_len(n, false)` characters of
/// the URL-safe alphabet; it panics only when that length overflows `usize`.
#[verifier::external_body]
pub(crate) fn encode_url_safe_unpadded(b: &[u8]) -> (r: String)
    requires
        b@.len() <= usize::MAX / 2,
    ensures
        r@ == url_safe_unpadded_encoding(b@),
        r@.len() == unpadded_encoded_len(b@.len()),
        forall|i: int| 0 <= i < r@.len() ==> is_url_safe_char(#[trigger] r@[i]),
{
    base64::engine::general_purpose::URL_SAFE_NO_PAD.encode(b)
}

/// Relies on sha2's `Sha256::digest` over the bytes of `s`: a 32-byte digest.
#[verifier::external_body]
pub(crate) fn sha256(s: &str) -> (r: Vec<u8>)
    ensures
        r@ == sha256_of(s@),
        r@.len() == 32,
{
    <sha2::Sha256 as sha2::Digest>::digest(s.as_bytes()).to_vec()
}

/// Relies on serde_json's `from_slice` into a `Value`, then `Value::get(key)` and
/// `Value::as_str`.
#[verifier::external_body]
pub(crate) fn json_string_member(b: &[u8], key: &str) -> (r: Option<String>)
    ensures
        match r {
            Some(s) => json_member(b@, key@) == Some(s@),
            None => json_member(b@, key@) is None,
        },
{
    let v: serde_json::Value = serde_json::from_slice(b).ok()?;
    v.get(key)?.as_str().map(String::from)
}

/// Relies on `str::to_uppercase`.
#[verifier::external_body]
pub(crate) fn to_upper_case(s: &str) -> (r: String)
    ensures
        r@ == upper_case_of(s@),
{
    s.to_uppercase()
}

/// Relies on rand's `OsRng::try_fill_bytes`: `n` bytes from the operating system's
/// random source, or `None` when that source fails.
#[verifier::external_body]
pub(crate) fn os_random(n: usize) -> (r: Option<Vec<u8>>)
    requires
        n <= 1024,
    ensures
        r matches Some(b) ==> b@.len() == n,
{
    let mut buf = vec![0u8; n];
    rand::rngs::OsRng.try_fill_bytes(&mut buf).ok()?;
    Some(buf)
}

/// Relies on uuid's `Builder::from_random_bytes` and the `Display` of the `Uuid` it
/// builds: a version-4 identifier in the hyphenated 8-4-4-4-12 form, 36 characters.
#[verifier::external_body]
pub(crate) fn uuid_from_random(b: &[u8]) -> (r: String)
    requires
        b@.len() == 16,
    ensures
        r@.len() == 36,
        r@[8] == '-' && r@[13] == '-' && r@[18] == '-' && r@[23] == '-',
{
    let mut bytes = [0u8; 16];
    bytes.copy_from_slice(b);
    uuid::Builder::from_random_bytes(bytes).into_uuid().to_string()
}

/// A fresh random identifier from 16 bytes of the operating system's random source,
/// or `None` when that source fails.
pub(crate) fn new_uuid() -> (r: Option<String>)
    ensures
        r matches Some(u) ==> u@.len() == 36 && u@[8] == '-' && u@[13] == '-' && u@[18] == '-'
            && u@[23] == '-',
{
    match os_random(16) {
        Some(b) => Some(uuid_from_random(b.as_slice())),
        None => None,
    }
}

/// The format of the time stamps in account records.
pub const RECORD_TIME_FORMAT: &'static str = "%Y-%m-%d %H:%M:%S";

/// The format of the time stamps in log entries (RFC 3339).
pub const LOG_TIME_FORMAT: &'static str = "%+";

/// The local time now in the strftime format `fmt`, or the empty string when the
/// clock cannot be read or `fmt` is no valid format.
pub(crate) fn time_stamp_now(fmt: &str) -> (r: String) {
    match local_time_text(fmt) {
        Some(t) => t,
        None => String::new(),
    }
}

/// Relies on chrono's `DateTime::<Local>::format_with_items` over the items that
/// `StrftimeItems::parse` reads from `fmt`, for the time that `SystemTime::now`
/// reads: `None` when `fmt` is no valid format, or the clock reads before 1970 or
/// beyond chrono's range (where `Local::now` would panic).
#[verifier::external_body]
pub(crate) fn local_time_text(fmt: &str) -> (r: Option<String>) {
    let items = chrono::format::StrftimeItems::new(fmt).parse().ok()?;
    let since = std::time::SystemTime::now().duration_since(std::time::UNIX_EPOCH).ok()?;
    let utc = chrono::DateTime::<chrono::Utc>::from_timestamp(since.as_secs() as i64, since.subsec_nanos())?;
    Some(utc.with_timezone(&chrono::Local).format_with_items(items.iter()).to_string())
}

} // verus!
