use cursor_switcher::error::{ExchangeError, ExchangeStage};
use cursor_switcher::exchange::{ExchangeAction, ExchangeEvent, TokenExchange};
use cursor_switcher::handshake::{
    authorization_request, authorization_result, bearer_authorization, email_result,
    poll_url, session_cookie, PollBody, PollDecision, PollReply, Poller, POLL_INTERVAL_SECS,
    POLL_MAX_ATTEMPTS,
};
use cursor_switcher::pkce::derive_challenge;

const SAMPLE_JWT: &str = "header.eyJzdWIiOiJhdXRoMHx1c2VyXzEyMyJ9.sig";

fn pending() -> PollReply {
    PollReply::Answered { status: 200, body: Some(PollBody { access_token: None, refresh_token: None, work_session_token: None }) }
}

fn settled(access: &str) -> PollReply {
    PollReply::Answered {
        status: 200,
        body: Some(PollBody {
            access_token: Some(access.to_string()),
            refresh_token: Some("refresh".to_string()),
            work_session_token: Some("work".to_string()),
        }),
    }
}

#[test]
fn cookie_and_bearer_headers() {
    assert_eq!(session_cookie("u::t"), "WorkosCursorSessionToken=u::t");
    assert_eq!(bearer_authorization("abc"), "Bearer abc");
    let req = authorization_request("u::t", "chal", "h-1".to_string());
    assert_eq!(req.handle, "h-1");
    assert_eq!(req.challenge, "chal");
    assert_eq!(req.cookie, "WorkosCursorSessionToken=u::t");
}

#[test]
fn poll_address() {
    assert_eq!(poll_url("h", "v"), "https://api2.cursor.sh/auth/poll?uuid=h&verifier=v");
    let p = Poller::new("h", "v");
    assert_eq!(p.url(), "https://api2.cursor.sh/auth/poll?uuid=h&verifier=v");
    assert_eq!(p.attempts(), 0);
}

#[test]
fn authorization_status_decides() {
    assert_eq!(authorization_result(204, String::new(), "h".to_string()).unwrap(), "h");
    match authorization_result(403, "denied".to_string(), "h".to_string()) {
        Err(ExchangeError::AuthorizationRejected { status, body }) => {
            assert_eq!(status, 403);
            assert_eq!(body, "denied");
        }
        other => panic!("{:?}", other),
    }
}

#[test]
fn poll_settles_on_third_attempt() {
    let mut p = Poller::new("h", "v");
    let replies = vec![pending(), PollReply::Answered { status: 404, body: None }, settled("acc"), pending()];
    let mut used = 0;
    let mut result = None;
    for r in replies {
        used += 1;
        match p.step(r) {
            PollDecision::Retry => continue,
            d => {
                result = Some(d);
                break;
            }
        }
    }
    assert_eq!(used, 3);
    assert_eq!(p.attempts(), 3);
    match result {
        Some(PollDecision::Settled(t)) => {
            assert_eq!(t.access_token, "acc");
            assert_eq!(t.refresh_token, "refresh");
            assert_eq!(t.work_session_token.as_deref(), Some("work"));
        }
        other => panic!("{:?}", other),
    }
}

#[test]
fn poll_times_out_after_budget() {
    let mut p = Poller::new("h", "v");
    let mut used = 0;
    loop {
        used += 1;
        match p.step(pending()) {
            PollDecision::Retry => assert!(used < 60),
            PollDecision::Failed(ExchangeError::PollTimeout { attempts }) => {
                assert_eq!(attempts, 60);
                break;
            }
            other => panic!("{:?}", other),
        }
    }
    assert_eq!(used, 60);
    assert_eq!(POLL_MAX_ATTEMPTS, 60);
    assert_eq!(p.attempts(), 60);
}

#[test]
fn empty_access_credential_does_not_settle() {
    let mut p = Poller::new("h", "v");
    assert!(matches!(p.step(settled("")), PollDecision::Retry));
}

#[test]
fn refresh_credential_defaults_to_empty() {
    let mut p = Poller::new("h", "v");
    let reply = PollReply::Answered {
        status: 200,
        body: Some(PollBody { access_token: Some("a".to_string()), refresh_token: None, work_session_token: None }),
    };
    match p.step(reply) {
        PollDecision::Settled(t) => {
            assert_eq!(t.refresh_token, "");
            assert_eq!(t.work_session_token, None);
        }
        other => panic!("{:?}", other),
    }
}

#[test]
fn poll_transport_failure_is_terminal() {
    let mut p = Poller::new("h", "v");
    assert!(matches!(p.step(PollReply::Unreachable), PollDecision::Failed(ExchangeError::PollTransportError)));
    let mut p = Poller::new("h", "v");
    assert!(matches!(
        p.step(PollReply::Answered { status: 200, body: None }),
        PollDecision::Failed(ExchangeError::PollTransportError)
    ));
}

#[test]
fn email_answer_decides() {
    assert_eq!(email_result(200, Some("a@b.c".to_string())).unwrap(), "a@b.c");
    assert!(matches!(email_result(200, None), Err(ExchangeError::EmailMissing)));
    assert!(matches!(email_result(200, Some(String::new())), Err(ExchangeError::EmailMissing)));
    assert!(matches!(
        email_result(401, Some("a@b.c".to_string())),
        Err(ExchangeError::IdentityResolutionFailed { status: 401 })
    ));
}

#[test]
fn exchange_of_bare_token_runs_to_an_account() {
    let random = [7u8; 32];
    let (mut x, req) = TokenExchange::begin(SAMPLE_JWT, &random, "handle-1".to_string()).unwrap();
    assert_eq!(req.cookie, format!("WorkosCursorSessionToken=user_123::{}", SAMPLE_JWT));
    assert_eq!(req.handle, "handle-1");
    let (verifier, challenge) = cursor_switcher::pkce::pkce_from_bytes(&random);
    assert_eq!(req.challenge, challenge);
    assert_eq!(req.challenge, derive_challenge(&verifier));

    let expected_url = format!("https://api2.cursor.sh/auth/poll?uuid=handle-1&verifier={}", verifier);
    match x.on_event(ExchangeEvent::Authorized { status: 200, body: String::new() }) {
        ExchangeAction::Poll { url, wait_secs } => {
            assert_eq!(url, expected_url);
            assert_eq!(wait_secs, 0);
        }
        other => panic!("{:?}", other),
    }
    match x.on_event(ExchangeEvent::Polled(pending())) {
        ExchangeAction::Poll { url, wait_secs } => {
            assert_eq!(url, expected_url);
            assert_eq!(wait_secs, POLL_INTERVAL_SECS);
        }
        other => panic!("{:?}", other),
    }
    match x.on_event(ExchangeEvent::Polled(settled("access-1"))) {
        ExchangeAction::LookupEmail { authorization } => assert_eq!(authorization, "Bearer access-1"),
        other => panic!("{:?}", other),
    }
    match x.on_event(ExchangeEvent::EmailAnswered { status: 200, email: Some("me@x.io".to_string()) }) {
        ExchangeAction::Finished(a) => {
            assert_eq!(a.email, "me@x.io");
            assert_eq!(a.access_token, "access-1");
            assert_eq!(a.refresh_token, "refresh");
            assert_eq!(a.cookie, format!("user_123::{}", SAMPLE_JWT));
            assert_eq!(a.source, "token_import");
            assert_eq!(a.status, "unknown");
            assert_eq!(a.days_remaining, "0");
            assert_eq!(a.index, 0);
            assert_eq!(a.record_time.len(), 19);
        }
        other => panic!("{:?}", other),
    }
    assert!(x.is_done());
}

#[test]
fn exchange_of_composite_token_keeps_it() {
    let (_, req) = TokenExchange::begin("  abc::def ", &[1u8; 32], "h".to_string()).unwrap();
    assert_eq!(req.cookie, "WorkosCursorSessionToken=abc::def");
}

#[test]
fn exchange_of_malformed_token_fails_at_normalize() {
    match TokenExchange::start("abc.def") {
        Err(f) => {
            assert_eq!(f.stage, ExchangeStage::Normalize);
            assert!(matches!(f.error, ExchangeError::MalformedCredential));
        }
        Ok(_) => panic!("accepted a malformed credential"),
    }
}

#[test]
fn exchange_start_draws_fresh_handle() {
    let (_, a) = TokenExchange::start(SAMPLE_JWT).unwrap();
    let (_, b) = TokenExchange::start(SAMPLE_JWT).unwrap();
    assert_eq!(a.handle.len(), 36);
    assert_ne!(a.handle, b.handle);
    assert_ne!(a.challenge, b.challenge);
    assert_eq!(a.cookie, b.cookie);
}

#[test]
fn exchange_stops_on_rejected_authorization() {
    let (mut x, _) = TokenExchange::begin("a::b", &[0u8; 32], "h".to_string()).unwrap();
    match x.on_event(ExchangeEvent::Authorized { status: 403, body: "no".to_string() }) {
        ExchangeAction::Failed(f) => {
            assert_eq!(f.stage, ExchangeStage::Authorize);
            assert!(matches!(f.error, ExchangeError::AuthorizationRejected { status: 403, .. }));
        }
        other => panic!("{:?}", other),
    }
    assert!(x.is_done());
}

#[test]
fn exchange_stops_on_unreachable_endpoints() {
    let (mut x, _) = TokenExchange::begin("a::b", &[0u8; 32], "h".to_string()).unwrap();
    assert!(matches!(
        x.on_event(ExchangeEvent::Unreachable),
        ExchangeAction::Failed(f) if f.stage == ExchangeStage::Authorize && matches!(f.error, ExchangeError::RequestFailed)
    ));
    let (mut x, _) = TokenExchange::begin("a::b", &[0u8; 32], "h".to_string()).unwrap();
    x.on_event(ExchangeEvent::Authorized { status: 200, body: String::new() });
    assert!(matches!(
        x.on_event(ExchangeEvent::Unreachable),
        ExchangeAction::Failed(f) if f.stage == ExchangeStage::Poll && matches!(f.error, ExchangeError::PollTransportError)
    ));
}

#[test]
fn exchange_reports_missing_email() {
    let (mut x, _) = TokenExchange::begin("a::b", &[0u8; 32], "h".to_string()).unwrap();
    x.on_event(ExchangeEvent::Authorized { status: 200, body: String::new() });
    x.on_event(ExchangeEvent::Polled(settled("acc")));
    match x.on_event(ExchangeEvent::EmailAnswered { status: 200, email: None }) {
        ExchangeAction::Failed(f) => {
            assert_eq!(f.stage, ExchangeStage::ResolveEmail);
            assert!(matches!(f.error, ExchangeError::EmailMissing));
        }
        other => panic!("{:?}", other),
    }
}

#[test]
fn exchange_times_out_after_sixty_polls() {
    let (mut x, _) = TokenExchange::begin("a::b", &[0u8; 32], "h".to_string()).unwrap();
    x.on_event(ExchangeEvent::Authorized { status: 200, body: String::new() });
    let mut polls = 0;
    loop {
        polls += 1;
        match x.on_event(ExchangeEvent::Polled(pending())) {
            ExchangeAction::Poll { .. } => {}
            ExchangeAction::Failed(f) => {
                assert_eq!(f.stage, ExchangeStage::Poll);
                assert!(matches!(f.error, ExchangeError::PollTimeout { attempts: 60 }));
                break;
            }
            other => panic!("{:?}", other),
        }
    }
    assert_eq!(polls, 60);
}
