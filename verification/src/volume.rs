//! One logical document volume: its entry URL, display data, and the
//! exactly-once slot for its resolved session.
//!
//! Session resolution itself (the GET to the source URL and the
//! login/redirect follow) is network work the surrounding application
//! performs; the slot here is the decision logic that makes resolution
//! exactly-once: every caller converges on the first stored response.

use vstd::prelude::*;
use crate::errors::ScrapeError;
use crate::registry::{ScraperKind, ScraperRegistry, spec_host_of, spec_resolve};
use crate::response::BufferedResponse;

verus! {

/// The once-settable slot for a volume's resolved session.
pub enum SessionSlot {
    /// No resolution has completed yet.
    Empty,
    /// The session settled on this response; it never changes again.
    Resolved(BufferedResponse),
}

impl SessionSlot {
    /// The slot after a caller offers a freshly resolved response: a first
    /// offer settles the slot, any later offer is discarded.
    pub open spec fn spec_offer(self, resp: BufferedResponse) -> SessionSlot {
        match self {
            SessionSlot::Empty => SessionSlot::Resolved(resp),
            SessionSlot::Resolved(_) => self,
        }
    }
}

/// One logical document volume served by the platform.
pub struct Volume {
    /// The entry-point URL, before session resolution.
    pub source_url: Vec<u8>,
    /// Human-readable volume title.
    pub name: Vec<u8>,
    /// URL of the volume's thumbnail image.
    pub thumbnail_url: Vec<u8>,
    /// The exactly-once resolved-session slot.
    pub session: SessionSlot,
}

impl Volume {
    /// A volume whose session is not resolved yet.
    pub fn new(source_url: Vec<u8>, name: Vec<u8>, thumbnail_url: Vec<u8>) -> (v: Volume)
        ensures
            v.source_url == source_url,
            v.name == name,
            v.thumbnail_url == thumbnail_url,
            v.session is Empty,
    {
        Volume { source_url, name, thumbnail_url, session: SessionSlot::Empty }
    }

    /// A volume built from an already fetched response, for a book that
    /// consists of a single volume: its session is resolved from the start
    /// and its source URL is the response's final URL.
    pub fn from_single_volume_book(
        name: Vec<u8>,
        thumbnail_url: Vec<u8>,
        resp: BufferedResponse,
    ) -> (v: Volume)
        ensures
            v.source_url@ == resp.final_url@,
            v.name == name,
            v.thumbnail_url == thumbnail_url,
            v.session == SessionSlot::Resolved(resp),
    {
        let url = crate::response::copy_bytes(&resp.final_url);
        Volume { source_url: url, name, thumbnail_url, session: SessionSlot::Resolved(resp) }
    }

    /// The volume's display title.
    pub fn name(&self) -> (r: &Vec<u8>)
        ensures
            r == &self.name,
    {
        &self.name
    }

    /// The volume's thumbnail URL.
    pub fn thumbnail(&self) -> (r: &Vec<u8>)
        ensures
            r == &self.thumbnail_url,
    {
        &self.thumbnail_url
    }

    /// Whether a `getSession` caller must go to the network: only while no
    /// resolution has completed.
    pub fn needs_fetch(&self) -> (r: bool)
        ensures
            r == (self.session is Empty),
    {
        match self.session {
            SessionSlot::Empty => true,
            SessionSlot::Resolved(_) => false,
        }
    }

    /// Offer a freshly resolved response to the slot. The first offer wins
    /// and is stored; a later offer changes nothing, and the loser must
    /// read back the winner's value instead of its own. Returns whether
    /// this offer won.
    pub fn offer_session(&mut self, resp: BufferedResponse) -> (winner: bool)
        ensures
            final(self).session == old(self).session.spec_offer(resp),
            winner == (old(self).session is Empty),
            final(self).source_url == old(self).source_url,
            final(self).name == old(self).name,
            final(self).thumbnail_url == old(self).thumbnail_url,
    {
        match self.session {
            SessionSlot::Empty => {
                self.session = SessionSlot::Resolved(resp);
                true
            },
            SessionSlot::Resolved(_) => false,
        }
    }

    /// The resolved session, shared by every caller once it exists.
    pub fn session_response(&self) -> (r: Option<&BufferedResponse>)
        ensures
            match r {
                Option::Some(resp) => self.session == SessionSlot::Resolved(*resp),
                Option::None => self.session is Empty,
            },
    {
        match &self.session {
            SessionSlot::Empty => None,
            SessionSlot::Resolved(resp) => Some(resp),
        }
    }

    /// The scraper for this volume, chosen by the resolved session's
    /// destination. Requires a resolved session: the application resolves
    /// it first when `needs_fetch` says so.
    pub fn get_scraper(&self, registry: &ScraperRegistry) -> (r: Result<ScraperKind, ScrapeError>)
        requires
            self.session is Resolved,
        ensures
            r == spec_resolve(registry.rules@, spec_host_of(self.session->0.final_url@)),
    {
        match &self.session {
            SessionSlot::Empty => Result::Err(ScrapeError::SessionResolution),
            SessionSlot::Resolved(resp) => registry.resolve(&resp.final_url),
        }
    }
}

/// Law: exactly-once resolution. Starting from an unresolved slot, the
/// first offered response settles the slot; a second, racing offer loses,
/// changes nothing, and every later reader sees the winner's response.
pub proof fn lemma_offer_exactly_once(s: SessionSlot, a: BufferedResponse, b: BufferedResponse)
    requires
        s is Empty,
    ensures
        s.spec_offer(a) == SessionSlot::Resolved(a),
        s.spec_offer(a).spec_offer(b) == SessionSlot::Resolved(a),
{
}

/// Law: idempotent re-access. A resolved slot absorbs every further offer,
/// so repeated `getSession` calls return the identical stored response and
/// never trigger another resolution.
pub proof fn lemma_resolved_absorbs(s: SessionSlot, r: BufferedResponse)
    requires
        s is Resolved,
    ensures
        s.spec_offer(r) == s,
{
}

} // verus!
