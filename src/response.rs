use vstd::prelude::*;

verus! {

/// What `HeaderName::from_bytes` decides for a header name: whether it is a
/// legal HTTP header name.
pub uninterp spec fn header_name_accepted(name: Seq<char>) -> bool;

/// Bytes a header value may hold: visible characters, bytes from 128 up,
/// and the horizontal tab.
pub open spec fn header_value_byte_ok(b: u8) -> bool {
    (b >= 32 && b != 127) || b == 9
}

pub open spec fn header_value_ok(v: Seq<u8>) -> bool {
    forall|i: int| 0 <= i < v.len() ==> header_value_byte_ok(#[trigger] v[i])
}

/// The three-digit range of HTTP status codes.
pub open spec fn status_ok(code: u16) -> bool {
    100 <= code < 1000
}

/// Relies on `hyper::StatusCode::from_u16`: it accepts exactly the codes
/// from 100 to 999.
#[verifier::external_body]
fn status_code_accepted(code: u16) -> (r: bool)
    ensures
        r == status_ok(code),
{
    hyper::StatusCode::from_u16(code).is_ok()
}

/// Relies on `hyper::header::HeaderName::from_bytes`: its verdict depends
/// on the name alone, and the empty name is refused.
#[verifier::external_body]
fn header_name_is_valid(name: &String) -> (r: bool)
    ensures
        r == header_name_accepted(name@),
        name@.len() == 0 ==> !r,
{
    hyper::header::HeaderName::from_bytes(name.as_bytes()).is_ok()
}

/// Relies on `hyper::header::HeaderValue::from_bytes`: it accepts a value
/// exactly when each byte is one of `header_value_byte_ok`.
#[verifier::external_body]
fn header_value_is_valid(value: &Vec<u8>) -> (r: bool)
    ensures
        r == header_value_ok(value@),
{
    hyper::header::HeaderValue::from_bytes(value.as_slice()).is_ok()
}

/// One response header: a name and its raw value.
#[derive(Debug)]
pub struct HeaderPair {
    pub name: String,
    pub value: Vec<u8>,
}

impl View for HeaderPair {
    type V = (Seq<char>, Seq<u8>);

    open spec fn view(&self) -> (Seq<char>, Seq<u8>) {
        (self.name@, self.value@)
    }
}

impl HeaderPair {
    pub fn duplicate(&self) -> (r: HeaderPair)
        ensures
            r@ == self@,
    {
        let value = vstd::slice::slice_to_vec(self.value.as_slice());
        HeaderPair { name: self.name.clone(), value }
    }
}

/// The parts of an HTTP response that are cached for replay: status code,
/// header list in order (duplicates kept) and body bytes.
pub ghost struct ResponseView {
    pub status: u16,
    pub headers: Seq<(Seq<char>, Seq<u8>)>,
    pub body: Seq<u8>,
}

pub open spec fn headers_view(headers: Seq<HeaderPair>) -> Seq<(Seq<char>, Seq<u8>)> {
    headers.map_values(|h: HeaderPair| h@)
}

pub open spec fn header_ok(h: (Seq<char>, Seq<u8>)) -> bool {
    header_name_accepted(h.0) && header_value_ok(h.1)
}

pub open spec fn headers_ok(headers: Seq<(Seq<char>, Seq<u8>)>) -> bool {
    forall|i: int| 0 <= i < headers.len() ==> header_ok(#[trigger] headers[i])
}

/// A response that can be rebuilt as an HTTP response.
pub open spec fn response_ok(r: ResponseView) -> bool {
    status_ok(r.status) && headers_ok(r.headers)
}

/// Why a response cannot be cached.
#[derive(Debug, Clone, Copy, PartialEq, Eq, Structural)]
pub enum ResponseError {
    InvalidStatusCode,
    InvalidHeader,
}

/// A response as the idempotency store keeps it.
#[derive(Debug)]
pub struct SavedResponse {
    status: u16,
    headers: Vec<HeaderPair>,
    body: Vec<u8>,
}

impl View for SavedResponse {
    type V = ResponseView;

    closed spec fn view(&self) -> ResponseView {
        ResponseView { status: self.status, headers: headers_view(self.headers@), body: self.body@ }
    }
}

fn duplicate_headers(headers: &Vec<HeaderPair>) -> (r: Vec<HeaderPair>)
    ensures
        headers_view(r@) == headers_view(headers@),
{
    let mut out: Vec<HeaderPair> = Vec::new();
    let mut i: usize = 0;
    while i < headers.len()
        invariant
            i <= headers@.len(),
            out@.len() == i,
            forall|j: int| 0 <= j < i ==> (#[trigger] out@[j])@ == headers@[j]@,
        decreases headers@.len() - i,
    {
        out.push(headers[i].duplicate());
        i += 1;
    }
    assert(headers_view(out@) =~= headers_view(headers@));
    out
}

impl SavedResponse {
    pub open spec fn wf(&self) -> bool {
        response_ok(self@)
    }

    /// Builds a cacheable response; refused when the status code or a header
    /// could not be turned back into an HTTP response.
    pub fn new(status: u16, headers: Vec<HeaderPair>, body: Vec<u8>) -> (r: Result<
        SavedResponse,
        ResponseError,
    >)
        ensures
            r is Ok <==> response_ok(
                ResponseView { status, headers: headers_view(headers@), body: body@ },
            ),
            r is Ok ==> r->Ok_0@ == (ResponseView {
                status,
                headers: headers_view(headers@),
                body: body@,
            }),
            !status_ok(status) ==> r == Err::<SavedResponse, ResponseError>(
                ResponseError::InvalidStatusCode,
            ),
            status_ok(status) && !headers_ok(headers_view(headers@)) ==> r == Err::<
                SavedResponse,
                ResponseError,
            >(ResponseError::InvalidHeader),
    {
        if !status_code_accepted(status) {
            return Err(ResponseError::InvalidStatusCode);
        }
        let mut i: usize = 0;
        while i < headers.len()
            invariant
                status_ok(status),
                i <= headers@.len(),
                forall|j: int| 0 <= j < i ==> header_ok(#[trigger] headers@[j]@),
            decreases headers@.len() - i,
        {
            let h = &headers[i];
            let name_ok = header_name_is_valid(&h.name);
            let value_ok = header_value_is_valid(&h.value);
            if !name_ok || !value_ok {
                let ghost hv = headers_view(headers@);
                assert(hv[i as int] == headers@[i as int]@);
                assert(!header_ok(hv[i as int]));
                return Err(ResponseError::InvalidHeader);
            }
            i += 1;
        }
        assert(forall|j: int|
            0 <= j < headers@.len() ==> #[trigger] headers_view(headers@)[j] == headers@[j]@);
        Ok(SavedResponse { status, headers, body })
    }

    pub fn status(&self) -> (r: u16)
        ensures
            r == self@.status,
    {
        self.status
    }

    pub fn headers(&self) -> (r: &Vec<HeaderPair>)
        ensures
            headers_view(r@) == self@.headers,
    {
        &self.headers
    }

    pub fn body(&self) -> (r: &Vec<u8>)
        ensures
            r@ == self@.body,
    {
        &self.body
    }

    /// A copy equal in status, headers and body.
    pub fn duplicate(&self) -> (r: SavedResponse)
        ensures
            r@ == self@,
    {
        let body = vstd::slice::slice_to_vec(self.body.as_slice());
        SavedResponse { status: self.status, headers: duplicate_headers(&self.headers), body }
    }
}

} // verus!
