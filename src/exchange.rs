//! The whole credential exchange as a state machine: normalize the credential, draw
//! a PKCE pair and a handle, open the handshake, poll for settlement, resolve the
//! email address, and assemble the account. The machine says what to send next;
//! the caller sends it and hands back what came.

use vstd::prelude::*;
use crate::codec::new_uuid;
use crate::error::{ExchangeError, ExchangeFailure, ExchangeStage};
use crate::handshake::{
    authorization_request, bearer_authorization, email_result, is_success, poll_outcome,
    poll_url_of, resolved_account, AuthorizeRequest, PollDecision, PollOutcome, PollReply,
    Poller, POLL_INTERVAL_SECS,
};
use crate::pkce::{challenge_of, generate_pkce, pkce_from_bytes, verifier_of};
use crate::text::{trim_text, trimmed};
use crate::token::{convert_to_session_token, session_token_of};
use crate::types::{opt_view, Account, TokenResponse};

verus! {

/// Where an exchange stands.
#[derive(Debug, Clone, Copy, PartialEq, Eq)]
pub enum ExchangePhase {
    Authorizing,
    Polling,
    Resolving,
    Done,
}

/// What the caller is to do next.
#[derive(Debug, Clone)]
pub enum ExchangeAction {
    /// Poll `url`, after waiting `wait_secs` seconds.
    Poll { url: String, wait_secs: u64 },
    /// Look up the email address, sending `authorization` as the authorization header.
    LookupEmail { authorization: String },
    /// The exchange is complete.
    Finished(Account),
    /// The exchange stopped.
    Failed(ExchangeFailure),
}

/// What the caller saw in answer to the last action.
#[derive(Debug, Clone)]
pub enum ExchangeEvent {
    /// The authorization endpoint answered.
    Authorized { status: u16, body: String },
    /// The poll endpoint answered, or could not be reached.
    Polled(PollReply),
    /// The identity endpoint answered; `email` is `None` when its body held none.
    EmailAnswered { status: u16, email: Option<String> },
    /// The request could not be sent, or no answer could be read.
    Unreachable,
}

/// The poll answer that an event stands for: anything but a poll answer counts as
/// an unreachable endpoint.
pub open spec fn poll_reply_of(event: ExchangeEvent) -> PollReply {
    match event {
        ExchangeEvent::Polled(r) => r,
        _ => PollReply::Unreachable,
    }
}

pub open spec fn failed_at(action: ExchangeAction, stage: ExchangeStage, error: ExchangeError) -> bool {
    action == ExchangeAction::Failed(ExchangeFailure { stage, error })
}

/// One credential exchange in progress.
pub struct TokenExchange {
    session_token: String,
    verifier: String,
    handle: String,
    poller: Poller,
    tokens: TokenResponse,
    phase: ExchangePhase,
}

impl TokenExchange {
    pub closed spec fn phase(&self) -> ExchangePhase {
        self.phase
    }

    /// The composite credential that the exchange runs under.
    pub closed spec fn session_view(&self) -> Seq<char> {
        self.session_token@
    }

    pub closed spec fn verifier_view(&self) -> Seq<char> {
        self.verifier@
    }

    pub closed spec fn handle_view(&self) -> Seq<char> {
        self.handle@
    }

    /// Poll requests made so far.
    pub closed spec fn attempts_made(&self) -> nat {
        self.poller.attempts_made()
    }

    /// The settled credentials, once the phase is `Resolving`.
    pub closed spec fn tokens(&self) -> TokenResponse {
        self.tokens
    }

    pub closed spec fn well_formed(&self) -> bool {
        self.poller.url_view() == poll_url_of(self.handle@, self.verifier@)
    }

    /// Starts an exchange of `raw` with the verifier made from `random` and the
    /// correlation handle `handle`; returns the authorization request to send.
    pub fn begin(raw: &str, random: &[u8], handle: String) -> (r: Result<
        (TokenExchange, AuthorizeRequest),
        ExchangeFailure,
    >)
        requires
            random@.len() <= usize::MAX / 2,
        ensures
            session_token_of(trimmed(raw@)) is None <==> r is Err,
            r matches Err(f) ==> f.stage == ExchangeStage::Normalize
                && f.error is MalformedCredential,
            r matches Ok((x, req)) ==> {
                &&& x.well_formed()
                &&& x.phase() == ExchangePhase::Authorizing
                &&& x.attempts_made() == 0
                &&& x.session_view() == session_token_of(trimmed(raw@))->0
                &&& x.verifier_view() == verifier_of(random@)
                &&& x.handle_view() == handle@
                &&& req.handle == handle
                &&& req.challenge@ == challenge_of(verifier_of(random@))
                &&& req.cookie@ == "WorkosCursorSessionToken="@ + x.session_view()
            },
    {
        let t = trim_text(raw);
        let session_token = match convert_to_session_token(t) {
            Ok(s) => s,
            Err(e) => {
                return Err(ExchangeFailure { stage: ExchangeStage::Normalize, error: e });
            },
        };
        let (verifier, challenge) = pkce_from_bytes(random);
        Ok(TokenExchange::with_pair(session_token, verifier, challenge, handle))
    }

    fn with_pair(session_token: String, verifier: String, challenge: String, handle: String) -> (r: (
        TokenExchange,
        AuthorizeRequest,
    ))
        ensures
            r.0.well_formed(),
            r.0.phase() == ExchangePhase::Authorizing,
            r.0.attempts_made() == 0,
            r.0.session_view() == session_token@,
            r.0.verifier_view() == verifier@,
            r.0.handle_view() == handle@,
            r.1.handle == handle,
            r.1.challenge@ == challenge@,
            r.1.cookie@ == "WorkosCursorSessionToken="@ + session_token@,
    {
        let poller = Poller::new(handle.as_str(), verifier.as_str());
        let request = authorization_request(session_token.as_str(), challenge.as_str(), handle.clone());
        let x = TokenExchange {
            session_token,
            verifier,
            handle,
            poller,
            tokens: TokenResponse {
                access_token: String::new(),
                refresh_token: String::new(),
                work_session_token: None,
            },
            phase: ExchangePhase::Authorizing,
        };
        (x, request)
    }

    /// Starts an exchange of `raw` with a fresh PKCE pair and a fresh random handle;
    /// returns the authorization request to send.
    pub fn start(raw: &str) -> (r: Result<(TokenExchange, AuthorizeRequest), ExchangeFailure>)
        ensures
            session_token_of(trimmed(raw@)) is None ==> (r matches Err(f) && f.stage
                == ExchangeStage::Normalize && f.error is MalformedCredential),
            r matches Err(f) ==> (f.stage == ExchangeStage::Normalize
                && f.error is MalformedCredential && session_token_of(trimmed(raw@)) is None) || (
            (f.stage == ExchangeStage::Challenge || f.stage == ExchangeStage::Authorize)
                && f.error is RandomnessUnavailable),
            r matches Ok((x, req)) ==> {
                &&& x.well_formed()
                &&& x.phase() == ExchangePhase::Authorizing
                &&& x.attempts_made() == 0
                &&& x.session_view() == session_token_of(trimmed(raw@))->0
                &&& req.handle@ == x.handle_view()
                &&& req.handle@.len() == 36
                &&& req.challenge@ == challenge_of(x.verifier_view())
                &&& req.cookie@ == "WorkosCursorSessionToken="@ + x.session_view()
            },
    {
        let t = trim_text(raw);
        let session_token = match convert_to_session_token(t) {
            Ok(s) => s,
            Err(e) => {
                return Err(ExchangeFailure { stage: ExchangeStage::Normalize, error: e });
            },
        };
        let (verifier, challenge) = match generate_pkce() {
            Ok(p) => p,
            Err(e) => {
                return Err(ExchangeFailure { stage: ExchangeStage::Challenge, error: e });
            },
        };
        let handle = match new_uuid() {
            Some(h) => h,
            None => {
                return Err(
                    ExchangeFailure {
                        stage: ExchangeStage::Authorize,
                        error: ExchangeError::RandomnessUnavailable,
                    },
                );
            },
        };
        Ok(TokenExchange::with_pair(session_token, verifier, challenge, handle))
    }

    /// Whether the exchange has finished or failed.
    pub fn is_done(&self) -> (r: bool)
        ensures
            r == (self.phase() == ExchangePhase::Done),
    {
        match self.phase {
            ExchangePhase::Done => true,
            _ => false,
        }
    }

    /// Takes what came in answer to the last request and says what to do next.
    pub fn on_event(&mut self, event: ExchangeEvent) -> (action: ExchangeAction)
        requires
            old(self).well_formed(),
            old(self).phase() != ExchangePhase::Done,
        ensures
            final(self).well_formed(),
            final(self).session_view() == old(self).session_view(),
            final(self).verifier_view() == old(self).verifier_view(),
            final(self).handle_view() == old(self).handle_view(),
            old(self).phase() == ExchangePhase::Authorizing ==> match event {
                ExchangeEvent::Authorized { status, body } => if is_success(status) {
                    &&& final(self).phase() == ExchangePhase::Polling
                    &&& final(self).attempts_made() == old(self).attempts_made()
                    &&& action matches ExchangeAction::Poll { url, wait_secs } && url@
                        == poll_url_of(old(self).handle_view(), old(self).verifier_view())
                        && wait_secs == 0
                } else {
                    &&& final(self).phase() == ExchangePhase::Done
                    &&& failed_at(
                        action,
                        ExchangeStage::Authorize,
                        ExchangeError::AuthorizationRejected { status, body },
                    )
                },
                _ => final(self).phase() == ExchangePhase::Done && failed_at(
                    action,
                    ExchangeStage::Authorize,
                    ExchangeError::RequestFailed,
                ),
            },
            old(self).phase() == ExchangePhase::Polling ==> match poll_outcome(
                old(self).attempts_made(),
                poll_reply_of(event),
            ) {
                PollOutcome::Settled { access, refresh, work } => {
                    &&& final(self).phase() == ExchangePhase::Resolving
                    &&& final(self).tokens().access_token@ == access
                    &&& final(self).tokens().refresh_token@ == refresh
                    &&& opt_view(final(self).tokens().work_session_token) == work
                    &&& action matches ExchangeAction::LookupEmail { authorization }
                        && authorization@ == "Bearer "@ + access
                },
                PollOutcome::Pending => {
                    &&& final(self).phase() == ExchangePhase::Polling
                    &&& final(self).attempts_made() == old(self).attempts_made() + 1
                    &&& action matches ExchangeAction::Poll { url, wait_secs } && url@
                        == poll_url_of(old(self).handle_view(), old(self).verifier_view())
                        && wait_secs == POLL_INTERVAL_SECS
                },
                PollOutcome::TimedOut { attempts } => final(self).phase() == ExchangePhase::Done
                    && failed_at(
                    action,
                    ExchangeStage::Poll,
                    ExchangeError::PollTimeout { attempts },
                ),
                PollOutcome::TransportFailed => final(self).phase() == ExchangePhase::Done
                    && failed_at(action, ExchangeStage::Poll, ExchangeError::PollTransportError),
            },
            old(self).phase() == ExchangePhase::Resolving ==> final(self).phase()
                == ExchangePhase::Done && match event {
                ExchangeEvent::EmailAnswered { status, email } => if !is_success(status) {
                    failed_at(
                        action,
                        ExchangeStage::ResolveEmail,
                        ExchangeError::IdentityResolutionFailed { status },
                    )
                } else if email is Some && email->0@.len() > 0 {
                    action matches ExchangeAction::Finished(a) && {
                        &&& a.index == 0
                        &&& a.email == email->0
                        &&& a.access_token == old(self).tokens().access_token
                        &&& a.refresh_token == old(self).tokens().refresh_token
                        &&& a.cookie@ == old(self).session_view()
                        &&& a.days_remaining@ == "0"@
                        &&& a.status@ == "unknown"@
                        &&& a.source@ == "token_import"@
                    }
                } else {
                    failed_at(action, ExchangeStage::ResolveEmail, ExchangeError::EmailMissing)
                },
                _ => failed_at(action, ExchangeStage::ResolveEmail, ExchangeError::RequestFailed),
            },
    {
        match self.phase {
            ExchangePhase::Authorizing => self.on_authorization(event),
            ExchangePhase::Polling => self.on_poll(event),
            _ => self.on_email(event),
        }
    }

    fn fail(&mut self, stage: ExchangeStage, error: ExchangeError) -> (action: ExchangeAction)
        ensures
            *final(self) == (TokenExchange { phase: ExchangePhase::Done, ..*old(self) }),
            action == ExchangeAction::Failed(ExchangeFailure { stage, error }),
    {
        self.phase = ExchangePhase::Done;
        ExchangeAction::Failed(ExchangeFailure { stage, error })
    }

    fn on_authorization(&mut self, event: ExchangeEvent) -> (action: ExchangeAction)
        requires
            old(self).well_formed(),
        ensures
            final(self).well_formed(),
            final(self).session_token == old(self).session_token,
            final(self).verifier == old(self).verifier,
            final(self).handle == old(self).handle,
            match event {
                ExchangeEvent::Authorized { status, body } => if is_success(status) {
                    &&& final(self).phase() == ExchangePhase::Polling
                    &&& final(self).poller == old(self).poller
                    &&& action matches ExchangeAction::Poll { url, wait_secs } && url@
                        == poll_url_of(old(self).handle_view(), old(self).verifier_view())
                        && wait_secs == 0
                } else {
                    &&& final(self).phase() == ExchangePhase::Done
                    &&& failed_at(
                        action,
                        ExchangeStage::Authorize,
                        ExchangeError::AuthorizationRejected { status, body },
                    )
                },
                _ => final(self).phase() == ExchangePhase::Done && failed_at(
                    action,
                    ExchangeStage::Authorize,
                    ExchangeError::RequestFailed,
                ),
            },
    {
        match event {
            ExchangeEvent::Authorized { status, body } => {
                if 200 <= status && status <= 299 {
                    self.phase = ExchangePhase::Polling;
                    ExchangeAction::Poll { url: self.poller.url().to_string(), wait_secs: 0 }
                } else {
                    self.fail(
                        ExchangeStage::Authorize,
                        ExchangeError::AuthorizationRejected { status, body },
                    )
                }
            },
            _ => self.fail(ExchangeStage::Authorize, ExchangeError::RequestFailed),
        }
    }

    fn on_poll(&mut self, event: ExchangeEvent) -> (action: ExchangeAction)
        requires
            old(self).well_formed(),
            old(self).phase == ExchangePhase::Polling,
        ensures
            final(self).well_formed(),
            final(self).session_token == old(self).session_token,
            final(self).verifier == old(self).verifier,
            final(self).handle == old(self).handle,
            match poll_outcome(old(self).attempts_made(), poll_reply_of(event)) {
                PollOutcome::Settled { access, refresh, work } => {
                    &&& final(self).phase() == ExchangePhase::Resolving
                    &&& final(self).tokens().access_token@ == access
                    &&& final(self).tokens().refresh_token@ == refresh
                    &&& opt_view(final(self).tokens().work_session_token) == work
                    &&& action matches ExchangeAction::LookupEmail { authorization }
                        && authorization@ == "Bearer "@ + access
                },
                PollOutcome::Pending => {
                    &&& final(self).phase() == ExchangePhase::Polling
                    &&& final(self).attempts_made() == old(self).attempts_made() + 1
                    &&& action matches ExchangeAction::Poll { url, wait_secs } && url@
                        == poll_url_of(old(self).handle_view(), old(self).verifier_view())
                        && wait_secs == POLL_INTERVAL_SECS
                },
                PollOutcome::TimedOut { attempts } => final(self).phase() == ExchangePhase::Done
                    && failed_at(
                    action,
                    ExchangeStage::Poll,
                    ExchangeError::PollTimeout { attempts },
                ),
                PollOutcome::TransportFailed => final(self).phase() == ExchangePhase::Done
                    && failed_at(action, ExchangeStage::Poll, ExchangeError::PollTransportError),
            },
    {
        let reply = match event {
            ExchangeEvent::Polled(r) => r,
            _ => PollReply::Unreachable,
        };
        match self.poller.step(reply) {
            PollDecision::Settled(tokens) => {
                let authorization = bearer_authorization(tokens.access_token.as_str());
                self.tokens = tokens;
                self.phase = ExchangePhase::Resolving;
                ExchangeAction::LookupEmail { authorization }
            },
            PollDecision::Retry => ExchangeAction::Poll {
                url: self.poller.url().to_string(),
                wait_secs: POLL_INTERVAL_SECS,
            },
            PollDecision::Failed(e) => self.fail(ExchangeStage::Poll, e),
        }
    }

    fn on_email(&mut self, event: ExchangeEvent) -> (action: ExchangeAction)
        requires
            old(self).well_formed(),
        ensures
            *final(self) == (TokenExchange { phase: ExchangePhase::Done, ..*old(self) }),
            match event {
                ExchangeEvent::EmailAnswered { status, email } => if !is_success(status) {
                    failed_at(
                        action,
                        ExchangeStage::ResolveEmail,
                        ExchangeError::IdentityResolutionFailed { status },
                    )
                } else if email is Some && email->0@.len() > 0 {
                    action matches ExchangeAction::Finished(a) && {
                        &&& a.index == 0
                        &&& a.email == email->0
                        &&& a.access_token == old(self).tokens.access_token
                        &&& a.refresh_token == old(self).tokens.refresh_token
                        &&& a.cookie@ == old(self).session_token@
                        &&& a.days_remaining@ == "0"@
                        &&& a.status@ == "unknown"@
                        &&& a.source@ == "token_import"@
                    }
                } else {
                    failed_at(action, ExchangeStage::ResolveEmail, ExchangeError::EmailMissing)
                },
                _ => failed_at(action, ExchangeStage::ResolveEmail, ExchangeError::RequestFailed),
            },
    {
        match event {
            ExchangeEvent::EmailAnswered { status, email } => match email_result(status, email) {
                Ok(address) => {
                    self.phase = ExchangePhase::Done;
                    let tokens = TokenResponse {
                        access_token: self.tokens.access_token.clone(),
                        refresh_token: self.tokens.refresh_token.clone(),
                        work_session_token: None,
                    };
                    ExchangeAction::Finished(
                        resolved_account(address, tokens, self.session_token.clone()),
                    )
                },
                Err(e) => self.fail(ExchangeStage::ResolveEmail, e),
            },
            _ => self.fail(ExchangeStage::ResolveEmail, ExchangeError::RequestFailed),
        }
    }
}

} // verus!
