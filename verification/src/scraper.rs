//! The vector-page assembly algorithm: discovery of the page's own asset
//! references in the raw vector description, deduplicated inlining of each
//! asset as a data URI, and delegation to the rendering collaborator.

use vstd::prelude::*;
use vstd::arithmetic::div_mod::lemma_div_decreases;
use crate::errors::ScrapeError;
use crate::response::{BufferedResponse, copy_bytes, spec_content_type};
use crate::rewrite::{data_uri, data_uri_exec, matches_at, matches_at_exec, replace_all,
    spec_replace};

verus! {

/// The views of a sequence of byte vectors.
pub open spec fn views_of(s: Seq<Vec<u8>>) -> Seq<Seq<u8>> {
    s.map_values(|v: Vec<u8>| v@)
}

/// The bytes of `xlink:href="`, which opens an asset reference.
pub open spec fn href_open() -> Seq<u8> {
    seq![120u8, 108u8, 105u8, 110u8, 107u8, 58u8, 104u8, 114u8, 101u8, 102u8, 61u8, 34u8]
}

/// The decimal digits of `n`.
pub open spec fn dec_digits(n: int) -> Seq<u8>
    recommends
        n >= 0,
    decreases n,
    via dec_digits_decreases
{
    if n < 10 {
        seq![(48 + if n >= 0 { n } else { 0 }) as u8]
    } else {
        dec_digits(n / 10) + seq![(48 + n % 10) as u8]
    }
}

#[via_fn]
proof fn dec_digits_decreases(n: int) {
    if n >= 10 {
        lemma_div_decreases(n, 10);
    }
}

/// The prefix that scopes an asset reference to one page: the page's
/// decimal index followed by `/`.
pub open spec fn page_prefix(page: u16) -> Seq<u8> {
    dec_digits(page as int) + seq![47u8]
}

fn dec_digits_exec(n: u16, out: &mut Vec<u8>)
    ensures
        final(out)@ == old(out)@ + dec_digits(n as int),
    decreases n,
{
    if n < 10 {
        out.push(48 + n as u8);
        assert(final(out)@ =~= old(out)@ + dec_digits(n as int));
    } else {
        dec_digits_exec(n / 10, out);
        out.push(48 + (n % 10) as u8);
        assert(final(out)@ =~= old(out)@ + dec_digits(n as int));
    }
}

/// The page-scoping prefix, `<page>/` in decimal.
pub fn page_prefix_exec(page: u16) -> (r: Vec<u8>)
    ensures
        r@ == page_prefix(page),
{
    let mut out: Vec<u8> = Vec::new();
    dec_digits_exec(page, &mut out);
    out.push(47);
    assert(out@ =~= page_prefix(page));
    out
}

/// Where a reference started at the capture's first byte ends: the first
/// position at or after `j` where the closing `"/>` begins, provided no
/// newline interrupts the reference first.
pub open spec fn capture_end(t: Seq<u8>, j: int) -> Option<int>
    decreases t.len() - j,
{
    if j < 0 || t.len() < 3 || j > t.len() - 3 {
        None
    } else if t[j] == 34 && t[j + 1] == 47 && t[j + 2] == 62 {
        Some(j)
    } else if t[j] == 10 {
        None
    } else {
        capture_end(t, j + 1)
    }
}

/// A found capture end lies between its start and the end of the text,
/// with room for the three closing bytes.
pub proof fn lemma_capture_end_range(t: Seq<u8>, j: int)
    ensures
        capture_end(t, j) is Some ==> j <= capture_end(t, j)->0
            && capture_end(t, j)->0 + 3 <= t.len(),
    decreases t.len() - j,
{
    if j < 0 || t.len() < 3 || j > t.len() - 3 {
    } else if t[j] == 34 && t[j + 1] == 47 && t[j + 2] == 62 {
    } else if t[j] == 10 {
    } else {
        lemma_capture_end_range(t, j + 1);
    }
}

/// Every asset reference of the page, in text order, possibly repeated:
/// the captures of `xlink:href="<prefix>...?"/>` scanning from position
/// `i`, where a capture runs to the nearest closing `"/>`, contains at
/// least one byte after the prefix, and never crosses a newline.
pub open spec fn find_refs_from(t: Seq<u8>, pre: Seq<u8>, i: int) -> Seq<Seq<u8>>
    decreases t.len() - i,
    via find_refs_from_decreases
{
    if i < 0 || i + 16 + pre.len() > t.len() {
        Seq::empty()
    } else if matches_at(t, href_open(), i) && matches_at(t, pre, i + 12) && t[i + 12
        + pre.len()] != 10 {
        match capture_end(t, i + 13 + pre.len()) {
            Some(e) => seq![t.subrange(i + 12, e)] + find_refs_from(t, pre, e + 3),
            None => find_refs_from(t, pre, i + 1),
        }
    } else {
        find_refs_from(t, pre, i + 1)
    }
}

#[via_fn]
proof fn find_refs_from_decreases(t: Seq<u8>, pre: Seq<u8>, i: int) {
    lemma_capture_end_range(t, i + 13 + pre.len());
}

/// A sequence with every repetition of an earlier element dropped.
pub open spec fn dedup(s: Seq<Seq<u8>>) -> Seq<Seq<u8>>
    decreases s.len(),
{
    if s.len() == 0 {
        Seq::empty()
    } else if s.drop_last().contains(s.last()) {
        dedup(s.drop_last())
    } else {
        dedup(s.drop_last()).push(s.last())
    }
}

/// Deduplication keeps membership and introduces no repetition.
pub proof fn lemma_dedup_distinct(s: Seq<Seq<u8>>)
    ensures
        forall|x: Seq<u8>| dedup(s).contains(x) <==> s.contains(x),
        forall|i: int, j: int| 0 <= i < j < dedup(s).len() ==> dedup(s)[i] != dedup(s)[j],
    decreases s.len(),
{
    if s.len() == 0 {
        assert forall|x: Seq<u8>| s.contains(x) implies dedup(s).contains(x) by {}
    } else {
        lemma_dedup_distinct(s.drop_last());
        let d = dedup(s);
        let dp = dedup(s.drop_last());
        assert forall|x: Seq<u8>| s.contains(x) implies d.contains(x) by {
            let k = choose|k: int| 0 <= k < s.len() && s[k] == x;
            if k < s.len() - 1 {
                assert(s.drop_last()[k] == x);
                assert(s.drop_last().contains(x));
                if s.drop_last().contains(s.last()) {
                } else {
                    assert(dp.contains(x));
                    let m = choose|m: int| 0 <= m < dp.len() && dp[m] == x;
                    assert(d[m] == x);
                }
            } else {
                if s.drop_last().contains(s.last()) {
                    assert(dp.contains(x));
                } else {
                    assert(d[d.len() - 1] == x);
                }
            }
        }
        assert forall|x: Seq<u8>| d.contains(x) implies s.contains(x) by {
            if s.drop_last().contains(s.last()) {
                assert(dp.contains(x));
                assert(s.drop_last().contains(x));
                let k = choose|k: int| 0 <= k < s.drop_last().len() && s.drop_last()[k] == x;
                assert(s[k] == x);
            } else {
                let m = choose|m: int| 0 <= m < d.len() && d[m] == x;
                if m < d.len() - 1 {
                    assert(dp[m] == x);
                    assert(dp.contains(x));
                    assert(s.drop_last().contains(x));
                    let k = choose|k: int| 0 <= k < s.drop_last().len() && s.drop_last()[k]
                        == x;
                    assert(s[k] == x);
                } else {
                    assert(s[s.len() - 1] == x);
                }
            }
        }
    }
}

/// Whether some element of `acc` holds exactly the bytes of `x`.
fn contains_bytes(acc: &Vec<Vec<u8>>, x: &Vec<u8>) -> (r: bool)
    ensures
        r == views_of(acc@).contains(x@),
{
    let n = acc.len();
    let mut k: usize = 0;
    while k < n
        invariant
            n == acc@.len(),
            0 <= k <= n,
            forall|j: int| 0 <= j < k ==> views_of(acc@)[j] != x@,
        decreases n - k,
    {
        if bytes_equal(&acc[k], x) {
            assert(views_of(acc@)[k as int] == x@);
            return true;
        }
        k = k + 1;
    }
    false
}

/// Whether two byte vectors hold the same bytes.
fn bytes_equal(a: &Vec<u8>, b: &Vec<u8>) -> (r: bool)
    ensures
        r == (a@ == b@),
{
    let n = a.len();
    if n != b.len() {
        return false;
    }
    let mut k: usize = 0;
    while k < n
        invariant
            n == a@.len() == b@.len(),
            0 <= k <= n,
            forall|j: int| 0 <= j < k ==> a@[j] == b@[j],
        decreases n - k,
    {
        if a[k] != b[k] {
            return false;
        }
        k = k + 1;
    }
    assert(a@ =~= b@);
    true
}

/// A copy of `t[a..b]`.
fn copy_range(t: &Vec<u8>, a: usize, b: usize) -> (r: Vec<u8>)
    requires
        a <= b <= t@.len(),
    ensures
        r@ == t@.subrange(a as int, b as int),
{
    let mut out: Vec<u8> = Vec::new();
    let mut j: usize = a;
    while j < b
        invariant
            a <= j <= b <= t@.len(),
            out@ == t@.subrange(a as int, j as int),
        decreases b - j,
    {
        out.push(t[j]);
        assert(out@ =~= t@.subrange(a as int, j as int + 1));
        j = j + 1;
    }
    out
}

fn capture_end_exec(t: &Vec<u8>, j: usize) -> (r: Option<usize>)
    ensures
        match r {
            Option::Some(e) => capture_end(t@, j as int) == Some(e as int) && j <= e && e + 3
                <= t@.len(),
            Option::None => capture_end(t@, j as int) is None,
        },
    decreases t@.len() - j,
{
    let n = t.len();
    if n < 3 || j > n - 3 {
        return None;
    }
    if t[j] == 34 && t[j + 1] == 47 && t[j + 2] == 62 {
        Some(j)
    } else if t[j] == 10 {
        None
    } else {
        capture_end_exec(t, j + 1)
    }
}

fn href_open_exec() -> (r: Vec<u8>)
    ensures
        r@ == href_open(),
{
    let r: Vec<u8> = vec![
        120u8, 108u8, 105u8, 110u8, 107u8, 58u8, 104u8, 114u8, 101u8, 102u8, 61u8, 34u8,
    ];
    assert(r@ =~= href_open());
    r
}

/// All asset references of the page, in text order, repetitions included.
fn find_refs_exec(t: &Vec<u8>, pre: &Vec<u8>) -> (r: Vec<Vec<u8>>)
    ensures
        views_of(r@) == find_refs_from(t@, pre@, 0),
{
    let open = href_open_exec();
    let n = t.len();
    let m = pre.len();
    let mut acc: Vec<Vec<u8>> = Vec::new();
    let mut i: usize = 0;
    assert(views_of(acc@) =~= Seq::<Seq<u8>>::empty());
    while i < n && n - i >= 16 && n - i - 16 >= m
        invariant
            n == t@.len(),
            m == pre@.len(),
            open@ == href_open(),
            0 <= i,
            views_of(acc@) + find_refs_from(t@, pre@, i as int) == find_refs_from(
                t@,
                pre@,
                0,
            ),
        decreases n - i,
    {
        assert(i + 16 + m <= n);
        if matches_at_exec(t, &open, i) && matches_at_exec(t, pre, i + 12) && t[i + 12 + m]
            != 10 {
            match capture_end_exec(t, i + 13 + m) {
                Option::Some(e) => {
                    let cap = copy_range(t, i + 12, e);
                    acc.push(cap);
                    proof {
                        assert(views_of(acc@) =~= views_of(acc@.drop_last()).push(cap@));
                        assert(views_of(acc@.drop_last()) + (seq![t@.subrange(
                            i + 12,
                            e as int,
                        )] + find_refs_from(t@, pre@, e + 3)) == find_refs_from(t@, pre@, 0));
                        assert(views_of(acc@) + find_refs_from(t@, pre@, e + 3)
                            =~= views_of(acc@.drop_last()) + (seq![t@.subrange(i + 12, e as int)]
                            + find_refs_from(t@, pre@, e + 3)));
                    }
                    i = e + 3;
                },
                Option::None => {
                    i = i + 1;
                },
            }
        } else {
            i = i + 1;
        }
    }
    assert(find_refs_from(t@, pre@, i as int) =~= Seq::<Seq<u8>>::empty());
    assert(views_of(acc@) =~= views_of(acc@) + Seq::<Seq<u8>>::empty());
    acc
}

/// The distinct asset references of one page of the raw vector text, in
/// order of first occurrence: the captures of `xlink:href="<page>/..."/>`,
/// each listed once however often it occurs, so each asset is fetched at
/// most once per page assembly.
pub fn discover_assets(raw: &Vec<u8>, page: u16) -> (r: Vec<Vec<u8>>)
    ensures
        views_of(r@) == dedup(find_refs_from(raw@, page_prefix(page), 0)),
        forall|i: int, j: int| 0 <= i < j < r@.len() ==> r@[i]@ != r@[j]@,
{
    let pre = page_prefix_exec(page);
    let all = find_refs_exec(raw, &pre);
    let n = all.len();
    let mut out: Vec<Vec<u8>> = Vec::new();
    let mut i: usize = 0;
    assert(views_of(all@).take(0) =~= Seq::<Seq<u8>>::empty());
    assert(views_of(out@) =~= Seq::<Seq<u8>>::empty());
    while i < n
        invariant
            n == all@.len(),
            0 <= i <= n,
            views_of(out@) == dedup(views_of(all@).take(i as int)),
        decreases n - i,
    {
        let ghost prefix = views_of(all@).take(i as int + 1);
        assert(prefix.drop_last() =~= views_of(all@).take(i as int));
        assert(prefix.last() == all@[i as int]@);
        if !contains_bytes(&out, &all[i]) {
            proof {
                lemma_dedup_distinct(views_of(all@).take(i as int));
                assert(!views_of(all@).take(i as int).contains(all@[i as int]@));
            }
            let cap = copy_bytes(&all[i]);
            out.push(cap);
            assert(views_of(out@) =~= views_of(out@.drop_last()).push(cap@));
        } else {
            proof {
                lemma_dedup_distinct(views_of(all@).take(i as int));
                assert(views_of(all@).take(i as int).contains(all@[i as int]@));
            }
        }
        i = i + 1;
    }
    assert(views_of(all@).take(n as int) =~= views_of(all@));
    proof {
        lemma_dedup_distinct(views_of(all@));
        assert forall|a: int, b: int| 0 <= a < b < out@.len() implies out@[a]@ != out@[b]@ by {
            assert(views_of(out@)[a] != views_of(out@)[b]);
        }
    }
    out
}

/// A reference is scoped to a page when it begins with the page's prefix.
pub open spec fn ref_scoped(r: Seq<u8>, pre: Seq<u8>) -> bool {
    r.len() > pre.len() && r.subrange(0, pre.len() as int) == pre
}

/// Law: page-scoped discovery. Every reference the scan yields begins with
/// the page's own prefix, so a reference of another page is never treated
/// as an asset of this one.
pub proof fn lemma_refs_scoped(t: Seq<u8>, pre: Seq<u8>, i: int)
    ensures
        forall|k: int| 0 <= k < find_refs_from(t, pre, i).len() ==> ref_scoped(
            #[trigger] find_refs_from(t, pre, i)[k],
            pre,
        ),
    decreases t.len() - i,
{
    let fs = find_refs_from(t, pre, i);
    if i < 0 || i + 16 + pre.len() > t.len() {
    } else if matches_at(t, href_open(), i) && matches_at(t, pre, i + 12) && t[i + 12
        + pre.len()] != 10 {
        match capture_end(t, i + 13 + pre.len()) {
            Some(e) => {
                lemma_capture_end_range(t, i + 13 + pre.len());
                lemma_refs_scoped(t, pre, e + 3);
                let cap = t.subrange(i + 12, e);
                assert(cap.subrange(0, pre.len() as int) =~= pre);
                assert(ref_scoped(cap, pre));
                assert forall|k: int| 0 <= k < fs.len() implies ref_scoped(
                    fs[k],
                    pre,
                ) by {
                    if k == 0 {
                        assert(fs[0] == cap);
                    } else {
                        assert(fs[k] == find_refs_from(t, pre, e + 3)[k - 1]);
                    }
                }
            },
            None => {
                lemma_refs_scoped(t, pre, i + 1);
                assert forall|k: int| 0 <= k < fs.len() implies ref_scoped(
                    fs[k],
                    pre,
                ) by {
                    assert(fs[k] == find_refs_from(t, pre, i + 1)[k]);
                }
            },
        }
    } else {
        lemma_refs_scoped(t, pre, i + 1);
        assert forall|k: int| 0 <= k < fs.len() implies ref_scoped(fs[k], pre) by {
            assert(fs[k] == find_refs_from(t, pre, i + 1)[k]);
        }
    }
}

/// One fetched page asset: a reference discovered in the page text and the
/// response its fetch produced.
pub struct Asset {
    pub reference: Vec<u8>,
    pub response: BufferedResponse,
}

/// What assembling a page yields: the raw text with, for each asset in
/// turn, every occurrence of its reference replaced by that asset's data
/// URI — or the first asset's content-type failure, with nothing inlined.
pub open spec fn spec_assemble(raw: Seq<u8>, assets: Seq<Asset>) -> Result<Seq<u8>, ScrapeError>
    decreases assets.len(),
{
    if assets.len() == 0 {
        Result::Ok(raw)
    } else {
        match spec_content_type(assets[0].response) {
            Result::Err(e) => Result::Err(e),
            Result::Ok(ct) => spec_assemble(
                spec_replace(raw, assets[0].reference@, data_uri(ct, assets[0].response.body@)),
                assets.skip(1),
            ),
        }
    }
}

/// The self-contained vector page: the raw description with every
/// occurrence of each asset's reference replaced by that asset's data URI,
/// keyed by the asset's `Content-Type`. Fails, with no partial inlining
/// surfaced, when any asset lacks a usable `Content-Type` header.
pub fn get_page_svg(raw: &Vec<u8>, assets: &Vec<Asset>) -> (r: Result<Vec<u8>, ScrapeError>)
    ensures
        r is Ok <==> spec_assemble(raw@, assets@) is Ok,
        r is Ok ==> r->Ok_0@ == spec_assemble(raw@, assets@)->Ok_0,
        r is Err ==> r->Err_0 == spec_assemble(raw@, assets@)->Err_0,
{
    let mut svg = copy_bytes(raw);
    let n = assets.len();
    let mut i: usize = 0;
    assert(assets@.skip(0) =~= assets@);
    while i < n
        invariant
            n == assets@.len(),
            0 <= i <= n,
            spec_assemble(raw@, assets@) == spec_assemble(svg@, assets@.skip(i as int)),
        decreases n - i,
    {
        assert(assets@.skip(i as int)[0] == assets@[i as int]);
        let asset = &assets[i];
        match asset.response.content_type() {
            Result::Err(e) => {
                return Result::Err(e);
            },
            Result::Ok(ct) => {
                let uri = data_uri_exec(&ct, &asset.response.body);
                svg = replace_all(&svg, &asset.reference, &uri);
                assert(assets@.skip(i as int).skip(1) =~= assets@.skip(i as int + 1));
                i = i + 1;
            },
        }
    }
    assert(assets@.skip(n as int) =~= Seq::<Asset>::empty());
    Result::Ok(svg)
}

/// Relies on svg2pdf: `usvg::Tree::from_str` parses the assembled document
/// and `svg2pdf::to_pdf` converts it to PDF bytes. A document either of
/// them rejects is an `Assembly` failure; nothing is claimed of the
/// produced bytes, which depend on renderer internals.
#[verifier::external_body]
fn render_pdf(svg: &Vec<u8>) -> (r: Result<Vec<u8>, ScrapeError>)
    ensures
        r is Err ==> r->Err_0 == ScrapeError::Assembly,
{
    let text = match core::str::from_utf8(svg.as_slice()) {
        Ok(t) => t,
        Err(_) => return Err(ScrapeError::Assembly),
    };
    let options = svg2pdf::usvg::Options::default();
    let tree = match svg2pdf::usvg::Tree::from_str(text, &options) {
        Ok(t) => t,
        Err(_) => return Err(ScrapeError::Assembly),
    };
    let conversion = svg2pdf::ConversionOptions::default();
    let page = svg2pdf::PageOptions::default();
    match svg2pdf::to_pdf(&tree, conversion, page) {
        Ok(b) => Ok(b),
        Err(_) => Err(ScrapeError::Assembly),
    }
}

/// The final rendered page: the assembled, self-contained document handed
/// to the rendering collaborator. Assembly failures surface exactly as
/// `get_page_svg` reports them; a document the renderer rejects is an
/// `Assembly` error, never silently dropped.
pub fn fetch_page_pdf(raw: &Vec<u8>, assets: &Vec<Asset>) -> (r: Result<Vec<u8>, ScrapeError>)
    ensures
        spec_assemble(raw@, assets@) is Err ==> r is Err && r->Err_0 == spec_assemble(
            raw@,
            assets@,
        )->Err_0,
        r is Ok ==> spec_assemble(raw@, assets@) is Ok,
        spec_assemble(raw@, assets@) is Ok && r is Err ==> r->Err_0 == ScrapeError::Assembly,
{
    match get_page_svg(raw, assets) {
        Result::Err(e) => Result::Err(e),
        Result::Ok(svg) => render_pdf(&svg),
    }
}

} // verus!
