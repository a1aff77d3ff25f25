//! Error taxonomy of the key-issuance service.
//!
//! Every stage of the request pipeline fails fast with one of these variants;
//! the taxonomy is closed so that the boundary mapping to status codes and
//! tags stays exhaustive.

use vstd::prelude::*;

verus! {

/// Terminal error kinds, each mapped to one HTTP status and one stable tag.
#[derive(Clone, Copy, Debug, PartialEq, Eq, Structural)]
pub enum InternalError {
    /// The transaction block is malformed or has an unrecognized shape.
    InvalidPTB,
    /// The package named by the transaction is not recognized.
    InvalidPackage,
    /// The on-chain policy denied the release of the requested keys.
    NoAccess,
    /// The transaction names a superseded package version.
    OldPackageVersion,
    /// The wallet signature over the certificate does not verify.
    InvalidSignature,
    /// The session signature over the request does not verify.
    InvalidSessionSignature,
    /// The certificate is outside its validity window or its ttl is too long.
    InvalidCertificate,
    /// Internal failure; the caller may retry later.
    Failure,
    /// The server's view of chain state is too old to act on.
    SuiClientNotFresh,
    /// An input field could not be understood.
    InvalidInput,
    /// A ciphertext could not be decrypted.
    DecryptionError,
    /// A value could not be serialized or deserialized.
    SerializationError,
    /// A bearer token failed validation.
    InvalidToken,
    /// A bearer token has expired.
    ExpiredToken,
    /// The request carries no bearer token.
    MissingAuthToken,
    /// The authorization header is not of the form `Bearer <token>`.
    InvalidAuthHeader,
    /// The authenticated user may not access the resource.
    Unauthorized,
}

impl InternalError {
    /// Stable string tag of the error, used for logs and metrics.
    pub fn as_str(&self) -> (r: &'static str)
        ensures
            r@ == self.spec_tag(),
    {
        match self {
            InternalError::InvalidPTB => "InvalidPTB",
            InternalError::InvalidPackage => "InvalidPackage",
            InternalError::NoAccess => "NoAccess",
            InternalError::InvalidCertificate => "InvalidCertificate",
            InternalError::OldPackageVersion => "OldPackageVersion",
            InternalError::InvalidSignature => "InvalidSignature",
            InternalError::InvalidSessionSignature => "InvalidSessionSignature",
            InternalError::Failure => "Failure",
            InternalError::SuiClientNotFresh => "SuiClientNotFresh",
            InternalError::InvalidInput => "InvalidInput",
            InternalError::DecryptionError => "DecryptionError",
            InternalError::InvalidToken => "InvalidToken",
            InternalError::ExpiredToken => "ExpiredToken",
            InternalError::MissingAuthToken => "MissingAuthToken",
            InternalError::InvalidAuthHeader => "InvalidAuthHeader",
            InternalError::Unauthorized => "Unauthorized",
            InternalError::SerializationError => "SerializationError",
        }
    }

    /// The tag that `as_str` returns for each variant.
    pub open spec fn spec_tag(self) -> Seq<char> {
        match self {
            InternalError::InvalidPTB => "InvalidPTB"@,
            InternalError::InvalidPackage => "InvalidPackage"@,
            InternalError::NoAccess => "NoAccess"@,
            InternalError::InvalidCertificate => "InvalidCertificate"@,
            InternalError::OldPackageVersion => "OldPackageVersion"@,
            InternalError::InvalidSignature => "InvalidSignature"@,
            InternalError::InvalidSessionSignature => "InvalidSessionSignature"@,
            InternalError::Failure => "Failure"@,
            InternalError::SuiClientNotFresh => "SuiClientNotFresh"@,
            InternalError::InvalidInput => "InvalidInput"@,
            InternalError::DecryptionError => "DecryptionError"@,
            InternalError::InvalidToken => "InvalidToken"@,
            InternalError::ExpiredToken => "ExpiredToken"@,
            InternalError::MissingAuthToken => "MissingAuthToken"@,
            InternalError::InvalidAuthHeader => "InvalidAuthHeader"@,
            InternalError::Unauthorized => "Unauthorized"@,
            InternalError::SerializationError => "SerializationError"@,
        }
    }

    /// HTTP status code that the boundary assigns to the error.
    pub fn status_code(&self) -> (r: u16)
        ensures
            r == self.spec_status_code(),
    {
        match self {
            InternalError::Failure => 503,
            InternalError::SuiClientNotFresh => 503,
            InternalError::InvalidToken => 401,
            InternalError::ExpiredToken => 401,
            InternalError::MissingAuthToken => 401,
            InternalError::InvalidAuthHeader => 401,
            _ => 403,
        }
    }

    /// The status code that `status_code` returns for each variant.
    pub open spec fn spec_status_code(self) -> u16 {
        match self {
            InternalError::Failure => 503u16,
            InternalError::SuiClientNotFresh => 503u16,
            InternalError::InvalidToken => 401u16,
            InternalError::ExpiredToken => 401u16,
            InternalError::MissingAuthToken => 401u16,
            InternalError::InvalidAuthHeader => 401u16,
            _ => 403u16,
        }
    }
}

/// Error plus the human-readable message the boundary sends with it.
pub struct ErrorResponse {
    pub error: InternalError,
    pub message: String,
}

/// Errors of the enclave-style wrapper around the service.
#[derive(Debug)]
pub enum EnclaveError {
    GenericError(String),
}

} // verus!
