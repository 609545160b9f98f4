//! Standard base64 as a mathematical function, the trusted call into the
//! encoder, and the decode round trip.

use vstd::prelude::*;
use vstd::arithmetic::div_mod::{lemma_fundamental_div_mod, lemma_fundamental_div_mod_converse};
use base64::Engine;
use base64::prelude::BASE64_STANDARD;

verus! {

/// The RFC 4648 standard alphabet, as the byte for sextet `v`.
pub open spec fn b64_char(v: int) -> u8 {
    if v < 26 {
        (65 + v) as u8  // 'A'..='Z'
    } else if v < 52 {
        (71 + v) as u8  // 'a'..='z'
    } else if v < 62 {
        (v - 4) as u8  // '0'..='9'
    } else if v == 62 {
        43u8  // '+'
    } else {
        47u8  // '/'
    }
}

/// One full 3-byte group as its 4 output bytes.
pub open spec fn b64_group(a: u8, b: u8, c: u8) -> Seq<u8> {
    seq![
        b64_char(a as int / 4),
        b64_char((a as int % 4) * 16 + b as int / 16),
        b64_char((b as int % 16) * 4 + c as int / 64),
        b64_char(c as int % 64),
    ]
}

/// Standard base64 with `=` padding, group by group from the left.
pub open spec fn b64_encode(s: Seq<u8>) -> Seq<u8>
    decreases s.len(),
{
    if s.len() == 0 {
        Seq::empty()
    } else if s.len() == 1 {
        seq![
            b64_char(s[0] as int / 4),
            b64_char((s[0] as int % 4) * 16),
            61u8,
            61u8,
        ]
    } else if s.len() == 2 {
        seq![
            b64_char(s[0] as int / 4),
            b64_char((s[0] as int % 4) * 16 + s[1] as int / 16),
            b64_char((s[1] as int % 16) * 4),
            61u8,
        ]
    } else {
        b64_group(s[0], s[1], s[2]) + b64_encode(s.skip(3))
    }
}

/// The sextet a byte decodes to, or -1 where it is not in the alphabet.
pub open spec fn b64_sextet(c: u8) -> int {
    if 65 <= c && c <= 90 {
        c as int - 65
    } else if 97 <= c && c <= 122 {
        c as int - 71
    } else if 48 <= c && c <= 57 {
        c as int + 4
    } else if c == 43 {
        62
    } else if c == 47 {
        63
    } else {
        -1
    }
}

/// Decoding of the final (possibly padded) 4-byte group.
pub open spec fn b64_decode_tail(w: u8, x: u8, y: u8, z: u8) -> Option<Seq<u8>> {
    if b64_sextet(w) < 0 || b64_sextet(x) < 0 {
        None
    } else if y == 61 && z == 61 {
        if b64_sextet(x) % 16 == 0 {
            Some(seq![(b64_sextet(w) * 4 + b64_sextet(x) / 16) as u8])
        } else {
            None
        }
    } else if z == 61 {
        if b64_sextet(y) >= 0 && b64_sextet(y) % 4 == 0 {
            Some(seq![
                (b64_sextet(w) * 4 + b64_sextet(x) / 16) as u8,
                ((b64_sextet(x) % 16) * 16 + b64_sextet(y) / 4) as u8,
            ])
        } else {
            None
        }
    } else {
        if b64_sextet(y) >= 0 && b64_sextet(z) >= 0 {
            Some(seq![
                (b64_sextet(w) * 4 + b64_sextet(x) / 16) as u8,
                ((b64_sextet(x) % 16) * 16 + b64_sextet(y) / 4) as u8,
                ((b64_sextet(y) % 4) * 64 + b64_sextet(z)) as u8,
            ])
        } else {
            None
        }
    }
}

/// Standard base64 decoding: groups of 4, padding allowed only at the end.
pub open spec fn b64_decode(s: Seq<u8>) -> Option<Seq<u8>>
    decreases s.len(),
{
    if s.len() == 0 {
        Some(Seq::empty())
    } else if s.len() < 4 {
        None
    } else if s.len() == 4 {
        b64_decode_tail(s[0], s[1], s[2], s[3])
    } else {
        if b64_sextet(s[0]) >= 0 && b64_sextet(s[1]) >= 0 && b64_sextet(s[2]) >= 0
            && b64_sextet(s[3]) >= 0 {
            match b64_decode(s.skip(4)) {
                None => None,
                Some(rest) => Some(
                    seq![
                        (b64_sextet(s[0]) * 4 + b64_sextet(s[1]) / 16) as u8,
                        ((b64_sextet(s[1]) % 16) * 16 + b64_sextet(s[2]) / 4) as u8,
                        ((b64_sextet(s[2]) % 4) * 64 + b64_sextet(s[3])) as u8,
                    ] + rest,
                ),
            }
        } else {
            None
        }
    }
}

/// Relies on base64's `BASE64_STANDARD` engine: RFC 4648 standard alphabet
/// with `=` padding, which is exactly `b64_encode` of the input bytes.
#[verifier::external_body]
pub fn base64_encode(b: &Vec<u8>) -> (r: Vec<u8>)
    ensures
        r@ == b64_encode(b@),
{
    BASE64_STANDARD.encode(b.as_slice()).into_bytes()
}

/// A sextet comes back out of the alphabet unchanged.
proof fn lemma_sextet_char(v: int)
    requires
        0 <= v < 64,
    ensures
        b64_sextet(b64_char(v)) == v,
{
}

/// Every alphabet byte is distinct from the padding byte `=`.
proof fn lemma_char_not_pad(v: int)
    requires
        0 <= v < 64,
    ensures
        b64_char(v) != 61,
{
}

/// The four sextets of a full encoded group, and that they reconstruct the
/// three input bytes.
proof fn lemma_group_decode(a: u8, b: u8, c: u8)
    ensures
        ({
            let g = b64_group(a, b, c);
            &&& 0 <= b64_sextet(g[0]) < 64
            &&& 0 <= b64_sextet(g[1]) < 64
            &&& 0 <= b64_sextet(g[2]) < 64
            &&& 0 <= b64_sextet(g[3]) < 64
            &&& b64_sextet(g[0]) * 4 + b64_sextet(g[1]) / 16 == a as int
            &&& (b64_sextet(g[1]) % 16) * 16 + b64_sextet(g[2]) / 4 == b as int
            &&& (b64_sextet(g[2]) % 4) * 64 + b64_sextet(g[3]) == c as int
        }),
{
    let ai = a as int;
    let bi = b as int;
    let ci = c as int;
    let w = ai / 4;
    let x = (ai % 4) * 16 + bi / 16;
    let y = (bi % 16) * 4 + ci / 64;
    let z = ci % 64;
    lemma_fundamental_div_mod(ai, 4);
    lemma_fundamental_div_mod(bi, 16);
    lemma_fundamental_div_mod(ci, 64);
    lemma_sextet_char(w);
    lemma_sextet_char(x);
    lemma_sextet_char(y);
    lemma_sextet_char(z);
    lemma_fundamental_div_mod_converse(x, 16, ai % 4, bi / 16);
    lemma_fundamental_div_mod_converse(y, 4, bi % 16, ci / 64);
}

/// The encoding of one trailing byte decodes back to it.
proof fn lemma_tail1_decode(a: u8)
    ensures
        b64_decode_tail(
            b64_char(a as int / 4),
            b64_char((a as int % 4) * 16),
            61u8,
            61u8,
        ) == Some(seq![a]),
{
    let ai = a as int;
    let w = ai / 4;
    let x = (ai % 4) * 16;
    lemma_fundamental_div_mod(ai, 4);
    lemma_sextet_char(w);
    lemma_sextet_char(x);
    lemma_fundamental_div_mod_converse(x, 16, ai % 4, 0);
    assert(b64_decode_tail(b64_char(w), b64_char(x), 61u8, 61u8)
        == Some(seq![(w * 4 + x / 16) as u8]));
    assert(w * 4 + x / 16 == ai);
    assert(seq![(w * 4 + x / 16) as u8] =~= seq![a]);
}

/// The encoding of two trailing bytes decodes back to them.
proof fn lemma_tail2_decode(a: u8, b: u8)
    ensures
        b64_decode_tail(
            b64_char(a as int / 4),
            b64_char((a as int % 4) * 16 + b as int / 16),
            b64_char((b as int % 16) * 4),
            61u8,
        ) == Some(seq![a, b]),
{
    let ai = a as int;
    let bi = b as int;
    let w = ai / 4;
    let x = (ai % 4) * 16 + bi / 16;
    let y = (bi % 16) * 4;
    lemma_fundamental_div_mod(ai, 4);
    lemma_fundamental_div_mod(bi, 16);
    lemma_sextet_char(w);
    lemma_sextet_char(x);
    lemma_sextet_char(y);
    lemma_char_not_pad(y);
    lemma_fundamental_div_mod_converse(x, 16, ai % 4, bi / 16);
    lemma_fundamental_div_mod_converse(y, 4, bi % 16, 0);
    assert(b64_decode_tail(b64_char(w), b64_char(x), b64_char(y), 61u8)
        == Some(seq![(w * 4 + x / 16) as u8, ((x % 16) * 16 + y / 4) as u8]));
    assert(w * 4 + x / 16 == ai);
    assert((x % 16) * 16 + y / 4 == bi);
    assert(seq![(w * 4 + x / 16) as u8, ((x % 16) * 16 + y / 4) as u8] =~= seq![a, b]);
}

/// Decoding inverts encoding: standard base64 loses no information.
pub proof fn lemma_b64_round_trip(s: Seq<u8>)
    ensures
        b64_decode(b64_encode(s)) == Some(s),
    decreases s.len(),
{
    let e = b64_encode(s);
    if s.len() == 0 {
        assert(s =~= Seq::<u8>::empty());
    } else if s.len() == 1 {
        lemma_tail1_decode(s[0]);
    } else if s.len() == 2 {
        lemma_tail2_decode(s[0], s[1]);
    } else {
        let g = b64_group(s[0], s[1], s[2]);
        let rest = b64_encode(s.skip(3));
        assert(e == g + rest);
        assert(e[0] == g[0] && e[1] == g[1] && e[2] == g[2] && e[3] == g[3]);
        lemma_group_decode(s[0], s[1], s[2]);
        lemma_sextet_char(s[2] as int % 64);
        lemma_char_not_pad((s[1] as int % 16) * 4 + s[2] as int / 64);
        lemma_char_not_pad(s[2] as int % 64);
        if s.len() == 3 {
            assert(s.skip(3) =~= Seq::<u8>::empty());
            assert(rest.len() == 0);
            assert(e.len() == 4);
            assert(b64_decode(e) == b64_decode_tail(e[0], e[1], e[2], e[3]));
            assert(b64_decode_tail(e[0], e[1], e[2], e[3]) == Some(seq![
                (b64_sextet(e[0]) * 4 + b64_sextet(e[1]) / 16) as u8,
                ((b64_sextet(e[1]) % 16) * 16 + b64_sextet(e[2]) / 4) as u8,
                ((b64_sextet(e[2]) % 4) * 64 + b64_sextet(e[3])) as u8,
            ]));
            assert(seq![
                (b64_sextet(e[0]) * 4 + b64_sextet(e[1]) / 16) as u8,
                ((b64_sextet(e[1]) % 16) * 16 + b64_sextet(e[2]) / 4) as u8,
                ((b64_sextet(e[2]) % 4) * 64 + b64_sextet(e[3])) as u8,
            ] =~= s);
        } else {
            lemma_b64_round_trip(s.skip(3));
            lemma_encode_nonempty(s.skip(3));
            assert(e.len() >= 8);
            assert(e.skip(4) =~= rest);
            let head = seq![
                (b64_sextet(e[0]) * 4 + b64_sextet(e[1]) / 16) as u8,
                ((b64_sextet(e[1]) % 16) * 16 + b64_sextet(e[2]) / 4) as u8,
                ((b64_sextet(e[2]) % 4) * 64 + b64_sextet(e[3])) as u8,
            ];
            assert(b64_decode(e) == Some(head + s.skip(3)));
            assert(head + s.skip(3) =~= s);
        }
    }
}

/// A nonempty input always encodes to at least one full output group.
proof fn lemma_encode_nonempty(s: Seq<u8>)
    requires
        s.len() > 0,
    ensures
        b64_encode(s).len() >= 4,
{
}

} // verus!
