//! Account switching for a desktop editor: the credential exchange that turns a
//! pasted bearer token into a complete account record, and the small rules around
//! the local account store.

pub mod codec;
pub mod error;
pub mod exchange;
pub mod handshake;
pub mod import;
pub mod pkce;
pub mod system;
pub mod text;
pub mod token;
pub mod types;
