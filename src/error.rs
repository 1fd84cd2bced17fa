//! Why a credential exchange stopped.

use vstd::prelude::*;

verus! {

/// The ways in which an exchange, or one of its stages, fails.
#[derive(Debug, Clone)]
pub enum ExchangeError {
    /// The input is neither a composite credential nor a signed token whose payload
    /// names a subject.
    MalformedCredential,
    /// The operating system's random source failed.
    RandomnessUnavailable,
    /// The authorization endpoint answered with a status outside 2xx.
    AuthorizationRejected { status: u16, body: String },
    /// No settlement came within the attempt budget.
    PollTimeout { attempts: u32 },
    /// A poll request could not be sent, or its answer could not be read.
    PollTransportError,
    /// The identity endpoint answered with a status outside 2xx.
    IdentityResolutionFailed { status: u16 },
    /// The identity endpoint answered without an email address.
    EmailMissing,
    /// The authorization or identity request could not be sent or read.
    RequestFailed,
}

/// The stage of an exchange in which an error arose.
#[derive(Debug, Clone, Copy, PartialEq, Eq)]
pub enum ExchangeStage {
    Normalize,
    Challenge,
    Authorize,
    Poll,
    ResolveEmail,
}

/// An error together with the stage that raised it.
#[derive(Debug, Clone)]
pub struct ExchangeFailure {
    pub stage: ExchangeStage,
    pub error: ExchangeError,
}

} // verus!
