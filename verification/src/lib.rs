//! Retrieval pipeline for paginated vector documents served behind a
//! login/redirect handshake: an exactly-once session slot, URL-pattern
//! dispatch to a scraper capability, and the page-assembly algorithm that
//! inlines external image assets as base64 data URIs before rendering.
//!
//! All network traffic is driven by the surrounding application; this
//! library holds the data model and the decision and assembly logic.

pub mod encoding;
pub mod errors;
pub mod registry;
pub mod response;
pub mod rewrite;
pub mod scraper;
pub mod volume;
