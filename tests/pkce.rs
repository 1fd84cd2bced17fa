use base64::Engine;
use cursor_switcher::pkce::{derive_challenge, generate_pkce, pkce_from_bytes};
use std::collections::HashSet;

#[test]
fn challenge_of_known_verifier() {
    assert_eq!(
        derive_challenge("dBjftJeZ4CVP-mB92K27uhbUJU1p1r_wW1gFWFOEjXk"),
        "E9Melhoa2OwvFrEMTJguCHaoeK1t8URWbuGJSstw-cM"
    );
}

#[test]
fn challenge_is_deterministic() {
    let v = "some-verifier_value";
    assert_eq!(derive_challenge(v), derive_challenge(v));
}

#[test]
fn pair_from_fixed_bytes() {
    let bytes: Vec<u8> = (0u8..32).collect();
    let (verifier, challenge) = pkce_from_bytes(&bytes);
    assert_eq!(verifier, base64::engine::general_purpose::URL_SAFE_NO_PAD.encode(&bytes));
    assert_eq!(verifier, "AAECAwQFBgcICQoLDA0ODxAREhMUFRYXGBkaGxwdHh8");
    assert_eq!(challenge, derive_challenge(&verifier));
    assert_ne!(challenge, verifier);
}

#[test]
fn generated_pair_has_expected_shape() {
    let (verifier, challenge) = generate_pkce().unwrap();
    assert_eq!(verifier.len(), 43);
    assert_eq!(challenge.len(), 43);
    assert_eq!(challenge, derive_challenge(&verifier));
    assert!(!verifier.contains('=') && !verifier.contains('+') && !verifier.contains('/'));
}

#[test]
fn generated_pairs_differ() {
    let mut verifiers = HashSet::new();
    let mut challenges = HashSet::new();
    for _ in 0..100 {
        let (v, c) = generate_pkce().unwrap();
        assert!(verifiers.insert(v));
        assert!(challenges.insert(c));
    }
}
