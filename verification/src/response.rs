//! The buffered response type and header inspection.

use vstd::prelude::*;
use crate::errors::ScrapeError;

verus! {

/// One HTTP header as plain bytes.
#[derive(Clone)]
pub struct Header {
    pub name: Vec<u8>,
    pub value: Vec<u8>,
}

/// An immutable, fully materialized HTTP response: the URL reached after
/// following redirects, the response headers, and the body bytes.
#[derive(Clone)]
pub struct BufferedResponse {
    pub final_url: Vec<u8>,
    pub headers: Vec<Header>,
    pub body: Vec<u8>,
}

/// ASCII lower case of one byte.
pub open spec fn lower_byte(b: u8) -> u8 {
    if 65 <= b && b <= 90 {
        (b + 32) as u8
    } else {
        b
    }
}

/// ASCII lower case of a byte sequence.
pub open spec fn lower_bytes(s: Seq<u8>) -> Seq<u8> {
    s.map_values(|b: u8| lower_byte(b))
}

/// Two header names match when they agree up to ASCII case.
pub open spec fn name_matches(n: Seq<u8>, q: Seq<u8>) -> bool {
    lower_bytes(n) == lower_bytes(q)
}

/// The value of the first header whose name matches `q`, case-insensitively.
pub open spec fn spec_lookup(headers: Seq<Header>, q: Seq<u8>) -> Option<Seq<u8>>
    decreases headers.len(),
{
    if headers.len() == 0 {
        None
    } else if name_matches(headers[0].name@, q) {
        Some(headers[0].value@)
    } else {
        spec_lookup(headers.skip(1), q)
    }
}

/// The bytes of the header name `Content-Type`.
pub open spec fn content_type_name() -> Seq<u8> {
    seq![67u8, 111u8, 110u8, 116u8, 101u8, 110u8, 116u8, 45u8, 84u8, 121u8, 112u8, 101u8]
}

/// A header value is usable as text when every byte is visible ASCII or space.
pub open spec fn is_visible_ascii(v: Seq<u8>) -> bool {
    forall|i: int| 0 <= i < v.len() ==> 32 <= #[trigger] v[i] && v[i] <= 126
}

/// What `content_type` returns: the `Content-Type` header value, or the
/// error that says why it is unusable.
pub open spec fn spec_content_type(r: BufferedResponse) -> Result<Seq<u8>, ScrapeError> {
    match spec_lookup(r.headers@, content_type_name()) {
        Option::None => Result::Err(ScrapeError::MissingContentType),
        Option::Some(v) => if is_visible_ascii(v) {
            Result::Ok(v)
        } else {
            Result::Err(ScrapeError::MalformedContentType)
        },
    }
}

fn lower_byte_exec(b: u8) -> (r: u8)
    ensures
        r == lower_byte(b),
{
    if 65 <= b && b <= 90 {
        b + 32
    } else {
        b
    }
}

/// Whether two header names agree up to ASCII case.
fn names_match(a: &Vec<u8>, b: &Vec<u8>) -> (r: bool)
    ensures
        r == name_matches(a@, b@),
{
    if a.len() != b.len() {
        assert(lower_bytes(a@).len() != lower_bytes(b@).len());
        return false;
    }
    let n = a.len();
    let mut i: usize = 0;
    while i < n
        invariant
            n == a.len() == b.len(),
            0 <= i <= n,
            forall|k: int| 0 <= k < i ==> lower_byte(a@[k]) == lower_byte(b@[k]),
        decreases n - i,
    {
        if lower_byte_exec(a[i]) != lower_byte_exec(b[i]) {
            assert(lower_bytes(a@)[i as int] != lower_bytes(b@)[i as int]);
            return false;
        }
        i = i + 1;
    }
    assert(lower_bytes(a@) =~= lower_bytes(b@));
    true
}

/// A byte-for-byte copy of a vector.
pub fn copy_bytes(v: &Vec<u8>) -> (r: Vec<u8>)
    ensures
        r@ == v@,
{
    let mut out: Vec<u8> = Vec::new();
    out.extend_from_slice(v.as_slice());
    assert(out@ =~= v@);
    out
}

/// The exec form of `content_type_name`.
fn content_type_name_exec() -> (r: Vec<u8>)
    ensures
        r@ == content_type_name(),
{
    let r: Vec<u8> = vec![67u8, 111u8, 110u8, 116u8, 101u8, 110u8, 116u8, 45u8, 84u8, 121u8, 112u8, 101u8];
    assert(r@ =~= content_type_name());
    r
}

impl BufferedResponse {
    /// The value of the first header whose name matches `name`,
    /// case-insensitively, as the platform sends header names in
    /// varying capitalizations.
    pub fn header_value(&self, name: &Vec<u8>) -> (r: Option<&Vec<u8>>)
        ensures
            r is Some <==> spec_lookup(self.headers@, name@) is Some,
            r is Some ==> r->0@ == spec_lookup(self.headers@, name@)->0,
    {
        let n = self.headers.len();
        let mut i: usize = 0;
        assert(self.headers@.skip(0) =~= self.headers@);
        while i < n
            invariant
                n == self.headers.len(),
                0 <= i <= n,
                spec_lookup(self.headers@, name@) == spec_lookup(self.headers@.skip(i as int), name@),
            decreases n - i,
        {
            if names_match(&self.headers[i].name, name) {
                assert(self.headers@.skip(i as int)[0] == self.headers@[i as int]);
                return Some(&self.headers[i].value);
            }
            assert(self.headers@.skip(i as int).skip(1) =~= self.headers@.skip(i as int + 1));
            i = i + 1;
        }
        assert(self.headers@.skip(n as int) =~= Seq::<Header>::empty());
        None
    }

    /// The `Content-Type` of this response, required for data-URI inlining.
    /// A missing header or a non-text value is a fatal condition for the
    /// enclosing page assembly.
    pub fn content_type(&self) -> (r: Result<Vec<u8>, ScrapeError>)
        ensures
            r is Ok <==> spec_content_type(*self) is Ok,
            r is Ok ==> r->Ok_0@ == spec_content_type(*self)->Ok_0,
            r is Err ==> r->Err_0 == spec_content_type(*self)->Err_0,
    {
        let name = content_type_name_exec();
        match self.header_value(&name) {
            Option::None => Result::Err(ScrapeError::MissingContentType),
            Option::Some(v) => {
                let n = v.len();
                let mut i: usize = 0;
                while i < n
                    invariant
                        n == v.len(),
                        0 <= i <= n,
                        v@ == spec_content_type(*self)->Ok_0 || !is_visible_ascii(v@),
                        spec_lookup(self.headers@, content_type_name()) == Some(v@),
                        forall|k: int| 0 <= k < i ==> 32 <= #[trigger] v@[k] && v@[k] <= 126,
                    decreases n - i,
                {
                    let b = v[i];
                    if b < 32 || b > 126 {
                        return Result::Err(ScrapeError::MalformedContentType);
                    }
                    i = i + 1;
                }
                assert(is_visible_ascii(v@));
                Result::Ok(copy_bytes(v))
            },
        }
    }
}

} // verus!
