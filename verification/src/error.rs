//! The error kinds a mirror run can end with. Retries happen below this
//! level; above it the first error cancels the siblings and bubbles up.

use vstd::prelude::*;

verus! {

/// What went wrong, with enough context to act on.
#[derive(Debug, Clone)]
pub enum MirrorError {
    /// Missing or conflicting configuration.
    ConfigError(String),
    /// A channel reference could not be turned into a base URL.
    ResolveError(String),
    /// A transient or exhausted-retry HTTP or S3 failure.
    NetworkError(String),
    /// The source manifest does not parse.
    ManifestParseError(String),
    /// Fetched bytes do not match the declared SHA-256; carries the
    /// filename.
    IntegrityError { filename: String },
    /// A destination write, delete or list failed after retries.
    StoreError(String),
    /// The destination scheme is neither `file` nor `s3`; carries the URL.
    UnsupportedSchemeError { url: String },
    /// Cancellation after a sibling failure in the same subdir; the caller
    /// never sees it as an error of its own.
    CancelledError,
}

} // verus!
