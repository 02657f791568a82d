use vstd::prelude::*;

verus! {

/// Errors that the backend's request handlers report to clients.
#[derive(Debug, Clone, Copy, PartialEq, Eq, Structural)]
pub enum ApiError {
    BadRequest,
    Unauthorized,
    NotFound,
    Conflict,
    NoSession,
    Banned,
    InvalidCredentials,
    TOTPRequired,
    InvalidName,
    InvalidPreview,
    InvalidImageFormat,
    RequestEntityTooLarge,
    ChecksumMismatch,
    UploadError,
    AlreadyExists,
    InsufficientAge,
    InternalError,
}

} // verus!
