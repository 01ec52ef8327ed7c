//! The errors of the store and of the sync bootstrap.
use vstd::prelude::*;

verus! {

/// Why a store operation or a bootstrap failed.
#[derive(Clone, Debug, PartialEq, Eq)]
pub enum StoreError {
    /// The storage engine failed; the text describes how.
    Backend(String),
    /// A persisted record could not be serialized or deserialized.
    Json(String),
    /// A protocol identifier was malformed.
    Identifier(String),
    /// The store is locked with a passphrase and a wrong one was given.
    StoreLocked,
    /// A passphrase was given for a store that is not encrypted.
    UnencryptedStore,
    /// Data of the store could not be encrypted or decrypted.
    Encryption(String),
    /// Data of the store could not be encoded or decoded.
    Codec(String),
    /// Redacting an event failed; this signals a defect.
    Redaction(String),
    /// A room was to be created while no session is installed.
    NoActiveSession,
}

} // verus!
