//! The decisions of the remote handshake: what each request carries, and what each
//! answer means. Sending the requests, and waiting between polls, is left to the
//! caller, which hands each answer back as plain values.

use vstd::prelude::*;
use vstd::string::*;
use crate::codec::{time_stamp_now, RECORD_TIME_FORMAT};
use crate::error::ExchangeError;
use crate::types::{opt_view, Account, TokenResponse};

verus! {

/// Where the handshake is opened.
pub const AUTH_CALLBACK_URL: &'static str = "https://cursor.com/api/auth/loginDeepCallbackControl";

/// Where settlement is polled for.
pub const AUTH_POLL_URL: &'static str = "https://api2.cursor.sh/auth/poll";

/// Where the email address of an access token's owner is looked up.
pub const GET_EMAIL_URL: &'static str = "https://api2.cursor.sh/aiserver.v1.AuthService/GetEmail";

/// How many poll requests are made at most.
pub const POLL_MAX_ATTEMPTS: u32 = 60;

/// Seconds to wait between two poll requests.
pub const POLL_INTERVAL_SECS: u64 = 2;

pub open spec fn is_success(status: u16) -> bool {
    200 <= status <= 299
}

/// The request that opens the handshake: the correlation handle and the challenge
/// go in the body, the composite credential goes in the cookie header.
#[derive(Debug, Clone)]
pub struct AuthorizeRequest {
    pub handle: String,
    pub challenge: String,
    pub cookie: String,
}

/// The cookie header that carries a composite credential.
pub fn session_cookie(session_token: &str) -> (r: String)
    ensures
        r@ == "WorkosCursorSessionToken="@ + session_token@,
{
    let mut c = "WorkosCursorSessionToken=".to_string();
    c.append(session_token);
    c
}

/// The authorization request for `session_token` and `challenge` under `handle`.
pub fn authorization_request(session_token: &str, challenge: &str, handle: String) -> (r:
    AuthorizeRequest)
    ensures
        r.handle == handle,
        r.challenge@ == challenge@,
        r.cookie@ == "WorkosCursorSessionToken="@ + session_token@,
{
    AuthorizeRequest {
        handle,
        challenge: challenge.to_string(),
        cookie: session_cookie(session_token),
    }
}

/// What the authorization endpoint's answer means: any 2xx status accepts the
/// handshake under `handle`; any other status rejects it, with the body kept for
/// diagnostics.
pub fn authorization_result(status: u16, body: String, handle: String) -> (r: Result<
    String,
    ExchangeError,
>)
    ensures
        is_success(status) ==> r == Ok::<String, ExchangeError>(handle),
        !is_success(status) ==> r == Err::<String, ExchangeError>(
            ExchangeError::AuthorizationRejected { status, body },
        ),
{
    if 200 <= status && status <= 299 {
        Ok(handle)
    } else {
        Err(ExchangeError::AuthorizationRejected { status, body })
    }
}

/// The poll address for `handle` and `verifier`.
pub open spec fn poll_url_of(handle: Seq<char>, verifier: Seq<char>) -> Seq<char> {
    AUTH_POLL_URL@ + "?uuid="@ + handle + "&verifier="@ + verifier
}

pub fn poll_url(handle: &str, verifier: &str) -> (r: String)
    ensures
        r@ == poll_url_of(handle@, verifier@),
{
    let mut u = AUTH_POLL_URL.to_string();
    u.append("?uuid=");
    u.append(handle);
    u.append("&verifier=");
    u.append(verifier);
    u
}

/// The fields that a readable poll answer may carry.
#[derive(Debug, Clone)]
pub struct PollBody {
    pub access_token: Option<String>,
    pub refresh_token: Option<String>,
    pub work_session_token: Option<String>,
}

/// One answer of the poll endpoint, as the caller saw it.
#[derive(Debug, Clone)]
pub enum PollReply {
    /// The request could not be sent or its answer not received.
    Unreachable,
    /// An answer came; `body` is `None` when it could not be read as a poll answer.
    Answered { status: u16, body: Option<PollBody> },
}

/// What one poll answer means, on a mathematical level.
pub enum PollOutcome {
    Settled { access: Seq<char>, refresh: Seq<char>, work: Option<Seq<char>> },
    Pending,
    TransportFailed,
    TimedOut { attempts: u32 },
}

/// The value of an optional string, or the empty string.
pub open spec fn or_empty(o: Option<String>) -> Seq<char> {
    match o {
        Some(s) => s@,
        None => Seq::empty(),
    }
}

/// The credentials that a poll answer settles with: a 2xx answer whose body holds
/// a non-empty access credential.
pub open spec fn settlement_of(reply: PollReply) -> Option<(Seq<char>, Seq<char>, Option<Seq<char>>)> {
    match reply {
        PollReply::Answered { status, body } => {
            if is_success(status) && body is Some && body->0.access_token is Some
                && body->0.access_token->0@.len() > 0 {
                Some(
                    (
                        body->0.access_token->0@,
                        or_empty(body->0.refresh_token),
                        opt_view(body->0.work_session_token),
                    ),
                )
            } else {
                None
            }
        },
        PollReply::Unreachable => None,
    }
}

/// A poll answer that ends the handshake with a transport error: none came, or a
/// 2xx answer could not be read.
pub open spec fn is_broken(reply: PollReply) -> bool {
    match reply {
        PollReply::Answered { status, body } => is_success(status) && body is None,
        PollReply::Unreachable => true,
    }
}

/// A well-formed answer that does not settle: polling goes on.
pub open spec fn is_pending(reply: PollReply) -> bool {
    settlement_of(reply) is None && !is_broken(reply)
}

/// The outcome that settles with the credentials `s`.
pub open spec fn settled_with(s: (Seq<char>, Seq<char>, Option<Seq<char>>)) -> PollOutcome {
    PollOutcome::Settled { access: s.0, refresh: s.1, work: s.2 }
}

/// What `reply` means after `made` earlier attempts.
pub open spec fn poll_outcome(made: nat, reply: PollReply) -> PollOutcome {
    if settlement_of(reply) is Some {
        settled_with(settlement_of(reply)->0)
    } else if is_broken(reply) {
        PollOutcome::TransportFailed
    } else if made + 1 >= POLL_MAX_ATTEMPTS {
        PollOutcome::TimedOut { attempts: POLL_MAX_ATTEMPTS }
    } else {
        PollOutcome::Pending
    }
}

/// Polling from `made` earlier attempts against the answers `replies`, one per
/// request: the outcome that ends it, and how many requests it used. When the
/// answers run out first, the outcome is `Pending`.
pub open spec fn poll_run(made: nat, replies: Seq<PollReply>) -> (PollOutcome, nat)
    decreases replies.len(),
{
    if replies.len() == 0 {
        (PollOutcome::Pending, 0)
    } else {
        let o = poll_outcome(made, replies[0]);
        if o is Pending {
            let rest = poll_run(made + 1, replies.drop_first());
            (rest.0, rest.1 + 1)
        } else {
            (o, 1)
        }
    }
}

/// What the poller decided after one answer.
#[derive(Debug, Clone)]
pub enum PollDecision {
    /// The handshake settled with these credentials.
    Settled(TokenResponse),
    /// Wait `POLL_INTERVAL_SECS`, then poll again.
    Retry,
    /// Polling is over: `PollTimeout` or `PollTransportError`.
    Failed(ExchangeError),
}

pub open spec fn decision_outcome(d: PollDecision) -> PollOutcome {
    match d {
        PollDecision::Settled(t) => PollOutcome::Settled {
            access: t.access_token@,
            refresh: t.refresh_token@,
            work: opt_view(t.work_session_token),
        },
        PollDecision::Retry => PollOutcome::Pending,
        PollDecision::Failed(e) => match e {
            ExchangeError::PollTimeout { attempts } => PollOutcome::TimedOut { attempts },
            _ => PollOutcome::TransportFailed,
        },
    }
}

/// The settlement poller of one handshake: its poll address, and how many
/// requests were made.
pub struct Poller {
    url: String,
    attempts: u32,
}

impl Poller {
    pub closed spec fn attempts_made(&self) -> nat {
        self.attempts as nat
    }

    pub closed spec fn url_view(&self) -> Seq<char> {
        self.url@
    }

    /// A poller that has made no request yet.
    pub fn new(handle: &str, verifier: &str) -> (r: Poller)
        ensures
            r.attempts_made() == 0,
            r.url_view() == poll_url_of(handle@, verifier@),
    {
        Poller { url: poll_url(handle, verifier), attempts: 0 }
    }

    /// The address that every request of this poller goes to; it does not change.
    pub fn url(&self) -> (r: &str)
        ensures
            r@ == self.url_view(),
    {
        self.url.as_str()
    }

    /// How many requests were made.
    pub fn attempts(&self) -> (r: u32)
        ensures
            r as nat == self.attempts_made(),
    {
        self.attempts
    }

    /// Takes the answer to one more request and decides: settled, retry, or over.
    pub fn step(&mut self, reply: PollReply) -> (d: PollDecision)
        ensures
            decision_outcome(d) == poll_outcome(old(self).attempts_made(), reply),
            d matches PollDecision::Failed(e) ==> e is PollTimeout || e is PollTransportError,
            final(self).url_view() == old(self).url_view(),
            final(self).attempts_made() == if old(self).attempts_made() < POLL_MAX_ATTEMPTS {
                old(self).attempts_made() + 1
            } else {
                old(self).attempts_made()
            },
    {
        let made = self.attempts;
        if self.attempts < POLL_MAX_ATTEMPTS {
            self.attempts = self.attempts + 1;
        }
        let ghost r = reply;
        let broken = match reply {
            PollReply::Answered { status, body } => {
                if 200 <= status && status <= 299 {
                    match body {
                        Some(b) => {
                            match b.access_token {
                                Some(access) => {
                                    if !access.as_str().is_empty() {
                                        let refresh = match b.refresh_token {
                                            Some(t) => t,
                                            None => String::new(),
                                        };
                                        return PollDecision::Settled(
                                            TokenResponse {
                                                access_token: access,
                                                refresh_token: refresh,
                                                work_session_token: b.work_session_token,
                                            },
                                        );
                                    }
                                    false
                                },
                                None => false,
                            }
                        },
                        None => true,
                    }
                } else {
                    false
                }
            },
            PollReply::Unreachable => true,
        };
        assert(broken == is_broken(r));
        if broken {
            PollDecision::Failed(ExchangeError::PollTransportError)
        } else if made >= POLL_MAX_ATTEMPTS - 1 {
            PollDecision::Failed(ExchangeError::PollTimeout { attempts: POLL_MAX_ATTEMPTS })
        } else {
            PollDecision::Retry
        }
    }
}

proof fn lemma_settles_from(made: nat, replies: Seq<PollReply>, n: nat)
    requires
        1 <= n <= replies.len(),
        made + n <= POLL_MAX_ATTEMPTS,
        forall|i: int| 0 <= i < n - 1 ==> is_pending(#[trigger] replies[i]),
        settlement_of(replies[n - 1]) is Some,
    ensures
        poll_run(made, replies) == (poll_outcome((made + n - 1) as nat, replies[n - 1]), n),
    decreases n,
{
    if n > 1 {
        assert(is_pending(replies[0]));
        let rest = replies.drop_first();
        assert forall|i: int| 0 <= i < n - 2 implies is_pending(#[trigger] rest[i]) by {
            assert(rest[i] == replies[i + 1]);
        }
        assert(rest[n - 2] == replies[n - 1]);
        lemma_settles_from(made + 1, rest, (n - 1) as nat);
    }
}

/// When the first `n - 1` answers (`n` at most the attempt budget) are well-formed
/// but unsettled and the `n`-th settles, polling settles with the `n`-th answer's
/// credentials after exactly `n` requests.
pub proof fn lemma_settles_on_nth_attempt(replies: Seq<PollReply>, n: nat)
    requires
        1 <= n <= replies.len(),
        n <= POLL_MAX_ATTEMPTS,
        forall|i: int| 0 <= i < n - 1 ==> is_pending(#[trigger] replies[i]),
        settlement_of(replies[n - 1]) is Some,
    ensures
        poll_run(0, replies).1 == n,
        poll_run(0, replies).0 == settled_with(settlement_of(replies[n - 1])->0),
{
    lemma_settles_from(0, replies, n);
}

proof fn lemma_times_out_from(made: nat, replies: Seq<PollReply>)
    requires
        made < POLL_MAX_ATTEMPTS,
        replies.len() >= POLL_MAX_ATTEMPTS - made,
        forall|i: int| 0 <= i < replies.len() ==> is_pending(#[trigger] replies[i]),
    ensures
        poll_run(made, replies) == (
            PollOutcome::TimedOut { attempts: POLL_MAX_ATTEMPTS },
            (POLL_MAX_ATTEMPTS - made) as nat,
        ),
    decreases POLL_MAX_ATTEMPTS - made,
{
    assert(is_pending(replies[0]));
    if made + 1 < POLL_MAX_ATTEMPTS {
        let rest = replies.drop_first();
        assert forall|i: int| 0 <= i < rest.len() implies is_pending(#[trigger] rest[i]) by {
            assert(rest[i] == replies[i + 1]);
        }
        lemma_times_out_from(made + 1, rest);
    }
}

/// When no answer ever settles, polling ends in a timeout reporting the whole
/// attempt budget, after exactly that many requests.
pub proof fn lemma_times_out_after_budget(replies: Seq<PollReply>)
    requires
        replies.len() >= POLL_MAX_ATTEMPTS,
        forall|i: int| 0 <= i < replies.len() ==> is_pending(#[trigger] replies[i]),
    ensures
        poll_run(0, replies) == (
            PollOutcome::TimedOut { attempts: POLL_MAX_ATTEMPTS },
            POLL_MAX_ATTEMPTS as nat,
        ),
{
    lemma_times_out_from(0, replies);
}

/// The authorization header that carries an access credential.
pub fn bearer_authorization(access_token: &str) -> (r: String)
    ensures
        r@ == "Bearer "@ + access_token@,
{
    let mut h = "Bearer ".to_string();
    h.append(access_token);
    h
}

/// What the identity endpoint's answer means: a 2xx status with a non-empty email
/// address resolves the identity.
pub fn email_result(status: u16, email: Option<String>) -> (r: Result<String, ExchangeError>)
    ensures
        !is_success(status) ==> r == Err::<String, ExchangeError>(
            ExchangeError::IdentityResolutionFailed { status },
        ),
        is_success(status) && email is Some && email->0@.len() > 0 ==> r == Ok::<
            String,
            ExchangeError,
        >(email->0),
        is_success(status) && !(email is Some && email->0@.len() > 0) ==> r == Err::<
            String,
            ExchangeError,
        >(ExchangeError::EmailMissing),
{
    if !(200 <= status && status <= 299) {
        return Err(ExchangeError::IdentityResolutionFailed { status });
    }
    match email {
        Some(e) => {
            if e.as_str().is_empty() {
                Err(ExchangeError::EmailMissing)
            } else {
                Ok(e)
            }
        },
        None => Err(ExchangeError::EmailMissing),
    }
}

/// The account record that an exchange produces, stamped with `record_time`.
pub fn account_from_exchange(
    email: String,
    tokens: TokenResponse,
    session_token: String,
    record_time: String,
) -> (r: Account)
    ensures
        r.index == 0,
        r.email == email,
        r.access_token == tokens.access_token,
        r.refresh_token == tokens.refresh_token,
        r.cookie == session_token,
        r.days_remaining@ == "0"@,
        r.status@ == "unknown"@,
        r.record_time == record_time,
        r.source@ == "token_import"@,
{
    Account {
        index: 0,
        email,
        access_token: tokens.access_token,
        refresh_token: tokens.refresh_token,
        cookie: session_token,
        days_remaining: "0".to_string(),
        status: "unknown".to_string(),
        record_time,
        source: "token_import".to_string(),
    }
}

/// The account record that an exchange produces, stamped with the local time now
/// (left empty when the clock cannot be read).
pub fn resolved_account(email: String, tokens: TokenResponse, session_token: String) -> (r:
    Account)
    ensures
        r.index == 0,
        r.email == email,
        r.access_token == tokens.access_token,
        r.refresh_token == tokens.refresh_token,
        r.cookie == session_token,
        r.days_remaining@ == "0"@,
        r.status@ == "unknown"@,
        r.source@ == "token_import"@,
{
    account_from_exchange(email, tokens, session_token, time_stamp_now(RECORD_TIME_FORMAT))
}

} // verus!
