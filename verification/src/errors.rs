//! Error taxonomy of the protocol engine.
//!
//! Each kind of failure is fatal at its own scope: a `DecodeError` to the
//! message, a `ProtocolViolation` or `CryptoError` or `VerificationError` to
//! the session, a `ConfigurationError` to startup of the affected phase.

use vstd::prelude::*;

verus! {

/// Malformed wire bytes; fatal to the single message that carried them.
#[derive(Clone, Copy, Debug, PartialEq, Eq, Structural)]
pub enum DecodeError {
    /// The input ended before the field did.
    Truncated,
    /// A tag byte or key named no known variant.
    BadTag,
    /// A length prefix pointed past the end of the input.
    BadLength,
    /// Bytes remained after the last field.
    TrailingBytes,
}

/// A message arrived in an illegal position for the session's state;
/// fatal to the session.
#[derive(Clone, Copy, Debug, PartialEq, Eq, Structural)]
pub enum ProtocolViolation {
    /// The recorded previous message type is not a legal predecessor.
    OutOfOrder,
    /// A message that must travel encrypted arrived in the clear.
    MissingEncryption,
    /// A message that must travel in the clear arrived encrypted.
    UnexpectedEncryption,
    /// The repetition counter did not match what the payload flags announced.
    CounterMismatch,
}

/// Key-exchange or key-derivation failure; fatal to the handshake.
#[derive(Clone, Copy, Debug, PartialEq, Eq, Structural)]
pub enum CryptoError {
    /// The proposed suite is not one this engine supports.
    UnsupportedSuite,
    /// Peer key material could not be interpreted.
    MalformedInput,
    /// The cryptographic backend reported a failure.
    Backend,
}

/// A security-critical rejection: signature, nonce, HMAC or chain did not
/// check out. Never downgraded to a warning.
#[derive(Clone, Copy, Debug, PartialEq, Eq, Structural)]
pub enum VerificationError {
    /// The signature did not validate under the given public key.
    SignatureInvalid,
    /// A signed header did not echo the expected nonce.
    NonceMismatch,
    /// The device HMAC did not match the locally computed one.
    HmacMismatch,
    /// A voucher entry's signature did not validate against the preceding key.
    ChainInvalid,
    /// A required header field was absent.
    MissingHeader,
    /// The payload or a header field failed to decode after verification.
    MalformedPayload,
}

/// Backend failure reading or writing session or voucher state.
#[derive(Clone, Copy, Debug, PartialEq, Eq, Structural)]
pub enum StoreError {
    /// No value stands under the requested key.
    NotFound,
    /// The backend itself failed.
    Backend,
}

/// Required trust material is missing for a phase the server has enabled;
/// detected at startup, not per request.
#[derive(Clone, Copy, Debug, PartialEq, Eq, Structural)]
pub enum ConfigurationError {
    /// The phase needs a signing key that was not provided.
    MissingSigningKey,
    /// The phase was addressed but is not enabled.
    PhaseDisabled,
}

/// The union the transport binding receives: every failure of the engine is
/// one of these, surfaced as a typed value and never swallowed.
#[derive(Clone, Copy, Debug, PartialEq, Eq, Structural)]
pub enum Error {
    Decode(DecodeError),
    Protocol(ProtocolViolation),
    Crypto(CryptoError),
    Verification(VerificationError),
    Store(StoreError),
    Configuration(ConfigurationError),
}

impl Error {
    /// A short stable name for the failure class, for logs at the transport.
    pub fn class_name(&self) -> (r: &'static str)
    {
        match self {
            Error::Decode(_) => "decode",
            Error::Protocol(_) => "protocol_violation",
            Error::Crypto(_) => "crypto",
            Error::Verification(_) => "verification",
            Error::Store(_) => "store",
            Error::Configuration(_) => "configuration",
        }
    }
}

} // verus!
