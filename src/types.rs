//! The records that the library hands to its callers.

use vstd::prelude::*;

verus! {

/// One stored account. The usage figures that the account list also shows are
/// fractional amounts and are kept beside this record by the application.
#[derive(Debug, Clone)]
pub struct Account {
    pub index: i32,
    pub email: String,
    pub access_token: String,
    pub refresh_token: String,
    pub cookie: String,
    pub days_remaining: String,
    pub status: String,
    pub record_time: String,
    /// Where the account came from: `"imported"`, `"web_login"` or `"token_import"`.
    pub source: String,
}

/// The source recorded for an account when none is given.
pub fn default_source() -> (r: String)
    ensures
        r@ == "imported"@,
{
    "imported".to_string()
}

/// Identifiers that the editor keeps to recognise the machine.
#[derive(Debug, Clone)]
pub struct MachineIds {
    pub machine_id: String,
    pub mac_machine_id: String,
    pub dev_device_id: String,
    pub sqm_id: String,
}

/// What a credential looks like, found without any network call.
/// `token_type` is `"session"` for a composite credential, `"jwt"` for a bare signed
/// token and `"unknown"` for anything else.
#[derive(Debug, Clone)]
pub struct TokenInfo {
    pub token_type: String,
    pub user_id: Option<String>,
    pub is_valid: bool,
}

/// The credentials that a settled handshake yields.
#[derive(Debug, Clone)]
pub struct TokenResponse {
    pub access_token: String,
    pub refresh_token: String,
    pub work_session_token: Option<String>,
}

/// Profile fields of an account as the dashboard reports them.
#[derive(Debug, Clone)]
pub struct DetailedUserInfo {
    pub email: Option<String>,
    pub user_id: Option<String>,
    pub membership_type: Option<String>,
    pub subscription_status: Option<String>,
}

/// One line of the application log.
#[derive(Debug, Clone)]
pub struct LogEntry {
    pub timestamp: String,
    pub level: String,
    pub message: String,
}

/// The view of an optional string.
pub open spec fn opt_view(o: Option<String>) -> Option<Seq<char>> {
    match o {
        Some(s) => Some(s@),
        None => None,
    }
}

} // verus!
