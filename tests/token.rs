use cursor_switcher::error::ExchangeError;
use cursor_switcher::text::trim_text;
use cursor_switcher::token::{
    classify, convert_to_session_token, decode_encoded_separators, extract_user_id_from_jwt,
    identity_from_subject, is_session_token, validate_token_info, CredentialForm,
};

const SAMPLE_JWT: &str = "header.eyJzdWIiOiJhdXRoMHx1c2VyXzEyMyJ9.sig";

#[test]
fn literal_separator_is_composite() {
    assert!(is_session_token("abc::def"));
    assert_eq!(classify("abc::def"), CredentialForm::Composite);
}

#[test]
fn encoded_separator_is_composite_in_any_case() {
    for t in ["u%3A%3At", "u%3a%3at", "u%3a%3At", "u%3A%3at"] {
        assert!(is_session_token(t), "{}", t);
        assert_eq!(classify(t), CredentialForm::Composite);
    }
}

#[test]
fn token_without_separator_is_bare() {
    assert!(!is_session_token(SAMPLE_JWT));
    assert_eq!(classify(SAMPLE_JWT), CredentialForm::Bare);
    assert!(!is_session_token("a:b%3A%3"));
    assert!(!is_session_token(""));
}

#[test]
fn encoded_separators_are_decoded() {
    assert_eq!(decode_encoded_separators("user%3A%3Atoken"), "user::token");
    assert_eq!(decode_encoded_separators("a%3a%3Ab%3a%3ac"), "a::b::c");
    assert_eq!(decode_encoded_separators("plain"), "plain");
    assert_eq!(decode_encoded_separators("é%3A%3Aü"), "é::ü");
}

#[test]
fn identity_is_read_from_sample_token() {
    assert_eq!(extract_user_id_from_jwt(SAMPLE_JWT).unwrap(), "user_123");
}

#[test]
fn identity_is_whole_subject_without_bar() {
    // payload {"sub":"user_abc"}
    assert_eq!(extract_user_id_from_jwt("h.eyJzdWIiOiJ1c2VyX2FiYyJ9.s").unwrap(), "user_abc");
}

#[test]
fn identity_follows_first_bar_only() {
    assert_eq!(identity_from_subject("auth0|user_1"), "user_1");
    assert_eq!(identity_from_subject("a|b|c"), "b|c");
    assert_eq!(identity_from_subject("nobar"), "nobar");
    assert_eq!(identity_from_subject("|x"), "x");
}

#[test]
fn padded_payload_is_decoded_by_fallback() {
    // payload {"sub":"x"} with its padding written out
    assert_eq!(extract_user_id_from_jwt("h.eyJzdWIiOiJ4In0=.s").unwrap(), "x");
}

#[test]
fn two_segments_are_malformed() {
    assert!(matches!(extract_user_id_from_jwt("abc.def"), Err(ExchangeError::MalformedCredential)));
}

#[test]
fn four_segments_are_malformed() {
    assert!(matches!(
        extract_user_id_from_jwt("a.eyJzdWIiOiJ4In0.b.c"),
        Err(ExchangeError::MalformedCredential)
    ));
}

#[test]
fn undecodable_payload_is_malformed() {
    assert!(matches!(extract_user_id_from_jwt("a.!!!.c"), Err(ExchangeError::MalformedCredential)));
}

#[test]
fn payload_without_subject_is_malformed() {
    // payload {"x":1}
    assert!(matches!(extract_user_id_from_jwt("a.eyJ4IjoxfQ.c"), Err(ExchangeError::MalformedCredential)));
    // payload {"sub":5}
    assert!(matches!(extract_user_id_from_jwt("a.eyJzdWIiOjV9.c"), Err(ExchangeError::MalformedCredential)));
}

#[test]
fn bare_token_normalizes_to_composite() {
    let s = convert_to_session_token(SAMPLE_JWT).unwrap();
    assert_eq!(s, format!("user_123::{}", SAMPLE_JWT));
    assert_eq!(classify(&s), CredentialForm::Composite);
}

#[test]
fn composite_token_is_kept_without_decoding() {
    assert_eq!(convert_to_session_token("abc::def").unwrap(), "abc::def");
    assert_eq!(convert_to_session_token("abc%3a%3Adef").unwrap(), "abc::def");
}

#[test]
fn malformed_bare_token_does_not_normalize() {
    assert!(matches!(convert_to_session_token("abc.def"), Err(ExchangeError::MalformedCredential)));
}

#[test]
fn validate_two_segments_is_unknown() {
    let info = validate_token_info("abc.def").unwrap();
    assert_eq!(info.token_type, "unknown");
    assert_eq!(info.user_id, None);
    assert!(!info.is_valid);
}

#[test]
fn validate_session_token() {
    let info = validate_token_info("  user_9%3A%3Aeyx  ").unwrap();
    assert_eq!(info.token_type, "session");
    assert_eq!(info.user_id.as_deref(), Some("user_9"));
    assert!(info.is_valid);
}

#[test]
fn validate_session_token_with_three_parts_is_unknown() {
    let info = validate_token_info("a::b::c").unwrap();
    assert_eq!(info.token_type, "unknown");
    assert!(!info.is_valid);
    let info = validate_token_info("a:::b").unwrap();
    assert_eq!(info.token_type, "session");
    assert_eq!(info.user_id.as_deref(), Some("a"));
}

#[test]
fn validate_jwt() {
    let info = validate_token_info(&format!("\n{}\t", SAMPLE_JWT)).unwrap();
    assert_eq!(info.token_type, "jwt");
    assert_eq!(info.user_id.as_deref(), Some("user_123"));
    assert!(info.is_valid);
}

#[test]
fn trim_matches_std() {
    for s in ["", "   ", " a b ", "\u{3000}x\u{85}", "\t\r\nabc\u{2029}", "x"] {
        assert_eq!(trim_text(s), s.trim());
    }
}

#[test]
fn identity_that_cannot_be_read_back_is_refused() {
    for token in ["h.eyJzdWIiOiJhOiJ9.s", "h.eyJzdWIiOiIgeCJ9.s", "h.eyJzdWIiOiJhOjpiIn0.s", "h.eyJzdWIiOiJhJTNhJTNBYiJ9.s"] {
        assert!(extract_user_id_from_jwt(token).is_ok(), "{}", token);
        assert!(matches!(convert_to_session_token(token), Err(ExchangeError::MalformedCredential)), "{}", token);
    }
}

#[test]
fn normalized_token_validates_to_the_same_identity() {
    for token in [SAMPLE_JWT, "h.eyJzdWIiOiJhdXRoMHx4OnkifQ.s"] {
        let id = extract_user_id_from_jwt(token).unwrap();
        let composite = convert_to_session_token(token).unwrap();
        let info = validate_token_info(&composite).unwrap();
        assert_eq!(info.token_type, "session");
        assert_eq!(info.user_id, Some(id));
        assert!(info.is_valid);
    }
}
