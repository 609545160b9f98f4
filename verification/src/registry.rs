//! Dispatch from a resolved session's destination URL to the scraper
//! capability that understands that source.

use vstd::prelude::*;
use crate::errors::ScrapeError;

verus! {

/// The delivery shapes the pipeline knows how to scrape.
#[derive(Clone, Copy, Debug, PartialEq, Eq, Structural)]
pub enum ScraperKind {
    /// Per-page vector description with embedded raster assets.
    Vector,
}

/// One registered dispatch rule: a host suffix and the scraper it selects.
pub struct ScraperRule {
    pub host_suffix: Vec<u8>,
    pub kind: ScraperKind,
}

/// The registry of dispatch rules, checked in registration order.
pub struct ScraperRegistry {
    pub rules: Vec<ScraperRule>,
}

/// Position of the first byte after the `://` scheme separator, if any.
pub open spec fn scheme_end(u: Seq<u8>, i: int) -> Option<int>
    decreases u.len() - i,
{
    if i < 0 || i + 3 > u.len() {
        None
    } else if u[i] == 58 && u[i + 1] == 47 && u[i + 2] == 47 {
        Some(i + 3)
    } else {
        scheme_end(u, i + 1)
    }
}

/// Whether a byte ends the host part of a URL: `/`, `:`, `?` or `#`.
pub open spec fn is_host_end(b: u8) -> bool {
    b == 47 || b == 58 || b == 63 || b == 35
}

/// Position where the host part ends, scanning from `i`.
pub open spec fn host_end(u: Seq<u8>, i: int) -> int
    decreases u.len() - i,
{
    if i < 0 || i >= u.len() {
        u.len() as int
    } else if is_host_end(u[i]) {
        i
    } else {
        host_end(u, i + 1)
    }
}

/// The host part of a URL: the bytes between `://` and the first `/`, `:`,
/// `?` or `#` after it. A URL without `://` has no host.
pub open spec fn spec_host_of(u: Seq<u8>) -> Seq<u8> {
    match scheme_end(u, 0) {
        None => Seq::empty(),
        Some(h) => u.subrange(h, host_end(u, h)),
    }
}

/// Whether `suf` is a suffix of `host`.
pub open spec fn is_suffix_of(suf: Seq<u8>, host: Seq<u8>) -> bool {
    suf.len() <= host.len() && host.subrange(host.len() - suf.len(), host.len() as int) == suf
}

/// The first rule whose host suffix matches, in registration order.
pub open spec fn spec_resolve(rules: Seq<ScraperRule>, host: Seq<u8>) -> Result<
    ScraperKind,
    ScrapeError,
>
    decreases rules.len(),
{
    if rules.len() == 0 {
        Result::Err(ScrapeError::UnsupportedSource)
    } else if is_suffix_of(rules[0].host_suffix@, host) {
        Result::Ok(rules[0].kind)
    } else {
        spec_resolve(rules.skip(1), host)
    }
}

/// The host suffix that selects the vector-document scraper.
pub open spec fn vector_host_suffix() -> Seq<u8> {
    // "digi4school.at"
    seq![100u8, 105u8, 103u8, 105u8, 52u8, 115u8, 99u8, 104u8, 111u8, 111u8, 108u8, 46u8, 97u8, 116u8]
}

fn host_end_exec(u: &Vec<u8>, i: usize) -> (r: usize)
    requires
        i <= u@.len(),
    ensures
        r == host_end(u@, i as int),
        i <= r <= u@.len(),
    decreases u@.len() - i,
{
    if i == u.len() {
        return i;
    }
    let b = u[i];
    if b == 47 || b == 58 || b == 63 || b == 35 {
        i
    } else {
        host_end_exec(u, i + 1)
    }
}

fn scheme_end_exec(u: &Vec<u8>, i: usize) -> (r: Option<usize>)
    requires
        i <= u@.len(),
    ensures
        match r {
            Option::Some(h) => scheme_end(u@, i as int) == Some(h as int) && h <= u@.len(),
            Option::None => scheme_end(u@, i as int) is None,
        },
    decreases u@.len() - i,
{
    if u.len() < 3 || i > u.len() - 3 {
        return None;
    }
    if u[i] == 58 && u[i + 1] == 47 && u[i + 2] == 47 {
        Some(i + 3)
    } else {
        scheme_end_exec(u, i + 1)
    }
}

/// The host part of a URL, as `spec_host_of` describes it.
pub fn host_of(u: &Vec<u8>) -> (r: Vec<u8>)
    ensures
        r@ == spec_host_of(u@),
{
    match scheme_end_exec(u, 0) {
        Option::None => Vec::new(),
        Option::Some(h) => {
            let e = host_end_exec(u, h);
            let mut out: Vec<u8> = Vec::new();
            let mut j: usize = h;
            while j < e
                invariant
                    h <= j <= e <= u@.len(),
                    out@ == u@.subrange(h as int, j as int),
                decreases e - j,
            {
                out.push(u[j]);
                assert(out@ =~= u@.subrange(h as int, j as int + 1));
                j = j + 1;
            }
            out
        },
    }
}

fn is_suffix_exec(suf: &Vec<u8>, host: &Vec<u8>) -> (r: bool)
    ensures
        r == is_suffix_of(suf@, host@),
{
    let m = suf.len();
    let n = host.len();
    if m > n {
        return false;
    }
    let mut k: usize = 0;
    while k < m
        invariant
            m == suf@.len() <= n == host@.len(),
            0 <= k <= m,
            forall|j: int| 0 <= j < k ==> suf@[j] == host@[n - m + j],
        decreases m - k,
    {
        if suf[k] != host[n - m + k] {
            assert(host@.subrange(n as int - m, n as int)[k as int] != suf@[k as int]);
            return false;
        }
        k = k + 1;
    }
    assert(host@.subrange(n as int - m, n as int) =~= suf@);
    true
}

impl ScraperRegistry {
    /// A registry holding the default rules: the vector-document scraper
    /// for the platform's own host.
    pub fn with_default_rules() -> (r: ScraperRegistry)
        ensures
            r.rules@.len() == 1,
            r.rules@[0].host_suffix@ == vector_host_suffix(),
            r.rules@[0].kind == ScraperKind::Vector,
    {
        let suffix: Vec<u8> = vec![
            100u8, 105u8, 103u8, 105u8, 52u8, 115u8, 99u8, 104u8, 111u8, 111u8, 108u8, 46u8,
            97u8, 116u8,
        ];
        assert(suffix@ =~= vector_host_suffix());
        let mut rules: Vec<ScraperRule> = Vec::new();
        rules.push(ScraperRule { host_suffix: suffix, kind: ScraperKind::Vector });
        ScraperRegistry { rules }
    }

    /// The scraper for a destination URL: the first registered rule whose
    /// host suffix matches the URL's host, or `UnsupportedSource` when no
    /// rule matches — a terminal, non-retryable condition.
    pub fn resolve(&self, url: &Vec<u8>) -> (r: Result<ScraperKind, ScrapeError>)
        ensures
            r == spec_resolve(self.rules@, spec_host_of(url@)),
    {
        let host = host_of(url);
        let n = self.rules.len();
        let mut i: usize = 0;
        assert(self.rules@.skip(0) =~= self.rules@);
        while i < n
            invariant
                n == self.rules@.len(),
                0 <= i <= n,
                host@ == spec_host_of(url@),
                spec_resolve(self.rules@, host@) == spec_resolve(
                    self.rules@.skip(i as int),
                    host@,
                ),
            decreases n - i,
        {
            if is_suffix_exec(&self.rules[i].host_suffix, &host) {
                assert(self.rules@.skip(i as int)[0] == self.rules@[i as int]);
                return Result::Ok(self.rules[i].kind);
            }
            assert(self.rules@.skip(i as int).skip(1) =~= self.rules@.skip(i as int + 1));
            i = i + 1;
        }
        assert(self.rules@.skip(n as int) =~= Seq::<ScraperRule>::empty());
        Result::Err(ScrapeError::UnsupportedSource)
    }
}

} // verus!
