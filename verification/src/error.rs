//! The error taxonomy: source and transport failures are propagated, decode
//! failures of the source's response are treated the same way, and
//! configuration errors are reported at construction time.

use vstd::prelude::*;

verus! {

/// Errors that can occur when using the release notifier.
#[derive(Debug)]
pub enum ReleaseNotifierError {
    /// The HTTP request to the release source failed.
    HttpError(String),
    /// The source's response body could not be decoded.
    JsonError(String),
    /// The release source returned an error status.
    ApiError { status: u16, message: String },
    /// The repository identifier is not in "owner/repo" format.
    InvalidRepo(String),
    /// The base URL does not parse as a URL.
    InvalidBaseUrl(String),
    /// The cache file path's parent directory does not exist.
    InvalidCacheFilePath(String),
    /// A cache file operation failed.
    IoError(String),
}

} // verus!
