//! Error types of the protocol library.

use vstd::prelude::*;

verus! {

/// Errors while parsing or deriving from a recovery key.
#[derive(Debug, Clone)]
pub enum RecoveryError {
    /// The text holds a character that is neither a hex digit nor a separator.
    InvalidHex(String),
    /// The decoded material has the wrong length.
    InvalidLength { expected: usize, actual: usize },
    /// The key has too few distinct byte values.
    InsufficientEntropy,
    /// The BIP39 phrase did not parse.
    MnemonicError(String),
    /// HKDF expansion failed.
    DerivationFailed,
}

/// Errors of key handling and key agreement.
#[derive(Debug, Clone, Copy, PartialEq, Eq, Structural)]
pub enum KeyError {
    /// A bundle signature does not verify.
    InvalidSignature,
    /// A Diffie-Hellman output was all zero.
    InvalidSharedSecret,
    /// An encoded key is malformed.
    InvalidFormat,
}

/// Errors while (de)serialising keys to JSON documents.
#[derive(Debug, Clone)]
pub enum SerializationError {
    /// A base64url field did not decode; holds the decoder's message.
    InvalidBase64(String),
    /// The document does not have the expected shape.
    InvalidFormat,
    /// No identity signing key was found.
    MissingIdentityKey,
    /// No identity DH key was found.
    MissingIdentityDhKey,
    /// No signed prekey was found.
    MissingSignedPrekey,
    /// A signature or a public/private key pairing does not check.
    InvalidSignature,
}

/// The kind of a `SerializationError`, without its message.
#[derive(Debug, Clone, Copy, PartialEq, Eq, Structural)]
pub enum SerializationErrorKind {
    InvalidBase64,
    InvalidFormat,
    MissingIdentityKey,
    MissingIdentityDhKey,
    MissingSignedPrekey,
    InvalidSignature,
}

impl SerializationError {
    /// The kind of this error.
    pub open spec fn spec_kind(&self) -> SerializationErrorKind {
        match self {
            SerializationError::InvalidBase64(_) => SerializationErrorKind::InvalidBase64,
            SerializationError::InvalidFormat => SerializationErrorKind::InvalidFormat,
            SerializationError::MissingIdentityKey => SerializationErrorKind::MissingIdentityKey,
            SerializationError::MissingIdentityDhKey => SerializationErrorKind::MissingIdentityDhKey,
            SerializationError::MissingSignedPrekey => SerializationErrorKind::MissingSignedPrekey,
            SerializationError::InvalidSignature => SerializationErrorKind::InvalidSignature,
        }
    }

    /// The kind of this error.
    pub fn kind(&self) -> (k: SerializationErrorKind)
        ensures
            k == self.spec_kind(),
    {
        match self {
            SerializationError::InvalidBase64(_) => SerializationErrorKind::InvalidBase64,
            SerializationError::InvalidFormat => SerializationErrorKind::InvalidFormat,
            SerializationError::MissingIdentityKey => SerializationErrorKind::MissingIdentityKey,
            SerializationError::MissingIdentityDhKey => SerializationErrorKind::MissingIdentityDhKey,
            SerializationError::MissingSignedPrekey => SerializationErrorKind::MissingSignedPrekey,
            SerializationError::InvalidSignature => SerializationErrorKind::InvalidSignature,
        }
    }
}

} // verus!
