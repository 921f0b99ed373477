use vstd::prelude::*;

verus! {

/// Failure kinds of the cache-recovery pipeline.
///
/// Binary-parsing and cache-directory failures abort an operation at once;
/// `RateLimited` is retried up to an attempt budget before it surfaces; all
/// other fetch failures propagate unretried.
#[derive(Debug, Clone, PartialEq, Eq)]
pub enum Error {
    /// Bad magic number, bad version, or a truncated cache file.
    CacheFormat,
    /// Missing cache directory, or no valid versioned subdirectory.
    CacheNotFound,
    /// The index scan produced zero candidate URLs.
    NoUsableUrl,
    /// A candidate URL lacks the expected endpoint or query field.
    IllegalUrl,
    /// The remote API signalled an expired credential.
    AuthorizationExpired,
    /// The remote API signalled too-frequent access.
    RateLimited,
    /// Any other non-zero remote status, surfaced verbatim.
    RemoteApi { retcode: i32, message: Vec<u8> },
    /// Imported data's account id disagrees with the target account.
    UidMismatch { expected: Vec<u8>, actual: Vec<u8> },
    /// The validator exhausted all candidates without a confirmation.
    NoValidUrlFound,
}

} // verus!
