//! The errors of extraction, of the cache and of the browser facade.
use vstd::prelude::*;

verus! {

/// Why records could not be extracted from a profile.
#[derive(Debug, Clone, Copy, PartialEq, Eq, Structural)]
pub enum ExtractError {
    /// The database is missing or locked.
    ConnectionFailed,
    /// The query could not be prepared (an unsupported schema).
    QueryFailed,
    /// The search configuration could not be decompressed.
    DecompressFailed,
    /// The search configuration is not the JSON document expected.
    MalformedSchema,
}

/// Why a cached record set could not be loaded or stored.
#[derive(Debug, Clone, Copy, PartialEq, Eq, Structural)]
pub enum CacheError {
    /// There is no cache file for the kind.
    NotFound,
    /// The cache file does not hold a record set of the kind.
    Corrupt,
    /// The cache file or directory could not be written.
    IoError,
}

/// Why the browser facade could not serve records.
#[derive(Debug, Clone, Copy, PartialEq, Eq, Structural)]
pub enum ProviderError {
    /// The browser is running and nothing is cached for the kind.
    NotFound,
    /// The cache exists but could not be read back.
    Cache(CacheError),
    /// Fresh extraction failed.
    Extract(ExtractError),
    /// The default browser is not one this library handles.
    UnsupportedBrowser,
}

} // verus!
