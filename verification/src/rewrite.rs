//! Textual rewriting: whole-string replacement of every occurrence of a
//! reference, and the data URI an asset is inlined as.

use vstd::prelude::*;
use crate::encoding::{b64_decode, b64_encode, base64_encode, lemma_b64_round_trip};

verus! {

/// Whether `p` occurs in `t` starting at position `i`.
pub open spec fn matches_at(t: Seq<u8>, p: Seq<u8>, i: int) -> bool {
    0 <= i && i + p.len() <= t.len() && t.subrange(i, i + p.len()) == p
}

/// The text from position `i` on, with every leftmost, non-overlapping
/// occurrence of `p` replaced by `r`.
pub open spec fn spec_replace_from(t: Seq<u8>, p: Seq<u8>, r: Seq<u8>, i: int) -> Seq<u8>
    decreases t.len() - i,
{
    if i < 0 || p.len() == 0 || i + p.len() > t.len() {
        if 0 <= i <= t.len() {
            t.skip(i)
        } else {
            Seq::empty()
        }
    } else if matches_at(t, p, i) {
        r + spec_replace_from(t, p, r, i + p.len())
    } else {
        seq![t[i]] + spec_replace_from(t, p, r, i + 1)
    }
}

/// The whole text with every occurrence of `p` replaced by `r`.
pub open spec fn spec_replace(t: Seq<u8>, p: Seq<u8>, r: Seq<u8>) -> Seq<u8> {
    spec_replace_from(t, p, r, 0)
}

/// Whether `p` occurs in `t` starting at `i`, checked byte by byte.
pub fn matches_at_exec(t: &Vec<u8>, p: &Vec<u8>, i: usize) -> (r: bool)
    ensures
        r == matches_at(t@, p@, i as int),
{
    let m = p.len();
    let n = t.len();
    if m > n || i > n - m {
        return false;
    }
    let mut k: usize = 0;
    while k < m
        invariant
            m == p@.len(),
            n == t@.len(),
            i + m <= n,
            0 <= k <= m,
            forall|j: int| 0 <= j < k ==> t@[i + j] == p@[j],
        decreases m - k,
    {
        if t[i + k] != p[k] {
            assert(t@.subrange(i as int, i as int + m) != p@) by {
                assert(t@.subrange(i as int, i as int + m)[k as int] != p@[k as int]);
            }
            return false;
        }
        k = k + 1;
    }
    assert(t@.subrange(i as int, i as int + m) =~= p@);
    true
}

/// Every occurrence of `p` in `t`, scanning from the left and never
/// overlapping, replaced by `r`. Mirrors the standard library's
/// `str::replace` on bytes.
pub fn replace_all(t: &Vec<u8>, p: &Vec<u8>, r: &Vec<u8>) -> (out: Vec<u8>)
    ensures
        out@ == spec_replace(t@, p@, r@),
{
    let mut out: Vec<u8> = Vec::new();
    let mut i: usize = 0;
    if p.len() == 0 {
        // An empty pattern replaces nothing: the text is returned unchanged.
        let copy = crate::response::copy_bytes(t);
        assert(t@.skip(0) =~= t@);
        return copy;
    }
    assert(t@.skip(0) =~= t@);
    while i < t.len()
        invariant
            0 <= i <= t@.len(),
            p@.len() > 0,
            out@ + spec_replace_from(t@, p@, r@, i as int) == spec_replace(t@, p@, r@),
        decreases t@.len() - i,
    {
        if matches_at_exec(t, p, i) {
            out.extend_from_slice(r.as_slice());
            i = i + p.len();
        } else {
            out.push(t[i]);
            assert(seq![t@[i as int]] =~= out@.skip(out@.len() - 1));
            i = i + 1;
        }
    }
    assert(spec_replace_from(t@, p@, r@, i as int) =~= Seq::<u8>::empty());
    assert(out@ =~= out@ + Seq::<u8>::empty());
    out
}

/// The bytes of `data:`.
pub open spec fn data_prefix() -> Seq<u8> {
    seq![100u8, 97u8, 116u8, 97u8, 58u8]
}

/// The bytes of `;base64,`.
pub open spec fn b64_marker() -> Seq<u8> {
    seq![59u8, 98u8, 97u8, 115u8, 101u8, 54u8, 52u8, 44u8]
}

/// The data URI an asset is inlined as: its content type and its bytes in
/// standard base64, `data:<content-type>;base64,<payload>`.
pub open spec fn data_uri(ct: Seq<u8>, body: Seq<u8>) -> Seq<u8> {
    data_prefix() + ct + b64_marker() + b64_encode(body)
}

/// Builds the data URI for an asset's content type and bytes.
pub fn data_uri_exec(ct: &Vec<u8>, body: &Vec<u8>) -> (r: Vec<u8>)
    ensures
        r@ == data_uri(ct@, body@),
{
    let mut out: Vec<u8> = vec![100u8, 97u8, 116u8, 97u8, 58u8];
    assert(out@ =~= data_prefix());
    out.extend_from_slice(ct.as_slice());
    let marker: Vec<u8> = vec![59u8, 98u8, 97u8, 115u8, 101u8, 54u8, 52u8, 44u8];
    assert(marker@ =~= b64_marker());
    out.extend_from_slice(marker.as_slice());
    let payload = base64_encode(body);
    out.extend_from_slice(payload.as_slice());
    assert(out@ =~= data_uri(ct@, body@));
    out
}

/// Law: content-type fidelity round trip. The data URI built for an asset
/// declares exactly the asset's content type, and its payload decodes back
/// to exactly the asset's bytes.
pub proof fn lemma_data_uri_round_trip(ct: Seq<u8>, body: Seq<u8>)
    ensures
        ({
            let u = data_uri(ct, body);
            &&& u.len() == 13 + ct.len() + b64_encode(body).len()
            &&& u.subrange(0, 5) == data_prefix()
            &&& u.subrange(5, 5 + ct.len() as int) == ct
            &&& u.subrange(5 + ct.len() as int, 13 + ct.len() as int) == b64_marker()
            &&& b64_decode(u.skip(13 + ct.len() as int)) == Some(body)
        }),
{
    let u = data_uri(ct, body);
    assert(u.subrange(0, 5) =~= data_prefix());
    assert(u.subrange(5, 5 + ct.len() as int) =~= ct);
    assert(u.subrange(5 + ct.len() as int, 13 + ct.len() as int) =~= b64_marker());
    assert(u.skip(13 + ct.len() as int) =~= b64_encode(body));
    lemma_b64_round_trip(body);
}

} // verus!
