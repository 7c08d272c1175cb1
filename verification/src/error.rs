//! Errors that a request can end in.
use vstd::prelude::*;

verus! {

/// Why a request fails.
#[derive(Debug)]
pub enum AppError {
    /// An upstream fetch failed; the text says how.
    FetchError(String),
    /// TikTok or its CDN has no such thing.
    NotFound,
    /// The URL asked for is not one this proxy serves.
    InvalidUrl,
    /// Rendering or another internal step failed.
    Internal,
}

} // verus!
