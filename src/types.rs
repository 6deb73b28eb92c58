//! Records, listing entries, key responses and errors.
use vstd::prelude::*;

verus! {

/// A key handed back by the key service, hex encoded, with the text of the
/// principal that asked for it.
#[derive(Clone, Debug)]
pub struct KeyResponse {
    pub key_hex: String,
    pub caller: String,
}

/// A failure reported by the key service.
#[derive(Clone, Debug)]
pub struct ErrorResponse {
    pub error: String,
}

/// One time-locked message as the store keeps it.
#[derive(Clone, Debug)]
pub struct TimelockMessage {
    pub id: String,
    /// The bytes of the principal that created the message.
    pub creator: Vec<u8>,
    pub title: String,
    pub encrypted_content: String,
    pub unlock_timestamp: u64,
    /// The identity under which the message is encrypted and its key derived.
    pub timelock_identity: String,
}

/// What a creator sees of one of their messages in a listing.
#[derive(Clone, Debug)]
pub struct TimelockInfo {
    pub id: String,
    pub title: String,
    pub unlock_timestamp: u64,
    pub is_expired: bool,
}

/// Why an operation on the store was refused.
#[derive(Clone, Debug, PartialEq, Eq)]
pub enum TimelockError {
    /// The unlock time is not after the current time.
    InvalidUnlockTime,
    /// The content is empty once trimmed.
    EmptyContent,
    /// The title is empty once trimmed.
    EmptyTitle,
    /// No message has the given id.
    NotFound,
    /// The caller did not create the message.
    AccessDenied,
    /// The unlock time has not been reached.
    NotYetUnlockable,
    /// The key service failed; its own description.
    KeyServiceError(String),
}

} // verus!
