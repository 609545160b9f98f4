//! The error taxonomy surfaced by the pipeline.

use vstd::prelude::*;

verus! {

/// Every failure the pipeline can report to its caller.
#[derive(Clone, Copy, Debug, PartialEq, Eq, Structural)]
pub enum ScrapeError {
    /// Transport-level failure or a non-success HTTP status on any request.
    Network,
    /// The login/redirect chain could not be completed.
    SessionResolution,
    /// No registered scraper matches the resolved session's destination.
    UnsupportedSource,
    /// An asset response carries no `Content-Type` header at all.
    MissingContentType,
    /// An asset's `Content-Type` header value is not visible ASCII text.
    MalformedContentType,
    /// The assembled vector document was rejected by the renderer.
    Assembly,
}

} // verus!
