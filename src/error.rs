//! Errors of the relayer.
use vstd::prelude::*;

verus! {

/// What can go wrong in the relayer.
#[derive(Debug, Clone, PartialEq, Eq)]
pub enum Error {
    /// Invalid or missing configuration.
    Config(String),
    /// A value could not be encoded or decoded.
    Serialization(String),
    /// Input or output failed.
    Io(String),
    /// A blob plan needs more segments than one transaction carries.
    BatchTooLarge(String),
    /// The chain endpoint could not be reached.
    Rpc(String),
    /// The settlement contract reverted or its receipt was unusable.
    Contract(String),
    /// An intent was submitted without a signature.
    InvalidSignature,
    /// A flush found too few intents to settle.
    BatchProcessing(String),
    /// The attestation backend failed or is switched off.
    Attestation(String),
    /// An intent holds a malformed field.
    InvalidIntent(String),
    /// Anything else.
    Other(String),
}

} // verus!
