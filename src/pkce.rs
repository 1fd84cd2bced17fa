//! The verifier and challenge of a PKCE handshake.

use vstd::prelude::*;
use crate::codec::{
    encode_url_safe_unpadded, is_url_safe_char, os_random, sha256, sha256_of,
    url_safe_unpadded_encoding,
};
use crate::error::ExchangeError;

verus! {

/// The challenge derived from a verifier: the unpadded URL-safe base64 text of the
/// SHA-256 digest of the verifier's encoded bytes.
pub open spec fn challenge_of(verifier: Seq<char>) -> Seq<char> {
    url_safe_unpadded_encoding(sha256_of(verifier))
}

/// The verifier made from random bytes: their unpadded URL-safe base64 text.
pub open spec fn verifier_of(random: Seq<u8>) -> Seq<char> {
    url_safe_unpadded_encoding(random)
}

/// The challenge for `verifier`.
pub fn derive_challenge(verifier: &str) -> (r: String)
    ensures
        r@ == challenge_of(verifier@),
        r@.len() == 43,
        forall|i: int| 0 <= i < r@.len() ==> is_url_safe_char(#[trigger] r@[i]),
{
    let digest = sha256(verifier);
    encode_url_safe_unpadded(digest.as_slice())
}

/// The verifier and challenge made from the random bytes `random`.
pub fn pkce_from_bytes(random: &[u8]) -> (r: (String, String))
    requires
        random@.len() <= usize::MAX / 2,
    ensures
        r.0@ == verifier_of(random@),
        r.1@ == challenge_of(r.0@),
        random@.len() == 32 ==> r.0@.len() == 43,
        r.1@.len() == 43,
        forall|i: int| 0 <= i < r.0@.len() ==> is_url_safe_char(#[trigger] r.0@[i]),
        forall|i: int| 0 <= i < r.1@.len() ==> is_url_safe_char(#[trigger] r.1@[i]),
{
    let verifier = encode_url_safe_unpadded(random);
    let challenge = derive_challenge(verifier.as_str());
    (verifier, challenge)
}

/// A fresh verifier, from 32 bytes of the operating system's random source, and
/// its challenge.
pub fn generate_pkce() -> (r: Result<(String, String), ExchangeError>)
    ensures
        match r {
            Ok(p) => p.0@.len() == 43 && p.1@.len() == 43 && (forall|i: int|
                0 <= i < p.0@.len() ==> is_url_safe_char(#[trigger] p.0@[i])) && (forall|i: int|
                0 <= i < p.1@.len() ==> is_url_safe_char(#[trigger] p.1@[i])) && exists|b: Seq<u8>|
                b.len() == 32 && p.0@ == verifier_of(b) && p.1@ == challenge_of(p.0@),
            Err(e) => e is RandomnessUnavailable,
        },
{
    match os_random(32) {
        Some(bytes) => {
            let p = pkce_from_bytes(bytes.as_slice());
            assert(bytes@.len() == 32 && p.0@ == verifier_of(bytes@));
            Ok(p)
        },
        None => Err(ExchangeError::RandomnessUnavailable),
    }
}

/// The challenge depends on the verifier alone: equal verifiers give equal
/// challenges.
pub proof fn lemma_challenge_deterministic(v1: Seq<char>, v2: Seq<char>)
    requires
        v1 == v2,
    ensures
        challenge_of(v1) == challenge_of(v2),
{
}

} // verus!
