//! HTTP responses as the views build them.

use vstd::prelude::*;
use vstd::utf8::encode_utf8;
use vstd::string::StrSliceExecFns;
use vstd::string::StringSliceAdditionalSpecFns;

verus! {

pub const OK: u16 = 200;

pub const CREATED: u16 = 201;

pub const NOT_FOUND: u16 = 404;

pub const INTERNAL_SERVER_ERROR: u16 = 500;

pub const SERVICE_UNAVAILABLE: u16 = 503;

/// A response: status code, headers in the order they were set, and body.
pub struct Response {
    pub status: u16,
    pub headers: Vec<(String, String)>,
    pub body: Vec<u8>,
}

/// The headers of a response, as text.
pub open spec fn headers_view(headers: Seq<(String, String)>) -> Seq<(Seq<char>, Seq<char>)> {
    headers.map_values(|h: (String, String)| (h.0@, h.1@))
}

/// The headers that every response carries: its content type and the server name.
pub open spec fn base_headers(content_type: Seq<char>) -> Seq<(Seq<char>, Seq<char>)> {
    seq![("Content-Type"@, content_type), ("Server"@, "reinhardt"@)]
}

/// A response with status `status`, content type `content_type` and body `body`.
pub fn response(status: u16, content_type: &str, body: Vec<u8>) -> (r: Response)
    ensures
        r.status == status,
        headers_view(r.headers@) == base_headers(content_type@),
        r.body@ == body@,
{
    let mut headers: Vec<(String, String)> = Vec::new();
    headers.push(("Content-Type".to_owned(), content_type.to_owned()));
    headers.push(("Server".to_owned(), "reinhardt".to_owned()));
    assert(headers_view(headers@) =~= base_headers(content_type@));
    Response { status, headers, body }
}

/// A `text/plain` response whose body is the UTF-8 encoding of `body`.
pub fn text_response(status: u16, body: &str) -> (r: Response)
    ensures
        r.status == status,
        headers_view(r.headers@) == base_headers("text/plain"@),
        r.body@ == encode_utf8(body@),
{
    response(status, "text/plain", body.as_bytes_vec())
}

impl Response {
    /// The response with one more header, set after the others.
    pub fn with_header(self, name: &str, value: &str) -> (r: Response)
        ensures
            r.status == self.status,
            r.body@ == self.body@,
            headers_view(r.headers@) == headers_view(self.headers@).push((name@, value@)),
    {
        let mut headers = self.headers;
        let ghost before = headers@;
        headers.push((name.to_owned(), value.to_owned()));
        assert(headers_view(headers@) =~= headers_view(before).push((name@, value@)));
        Response { status: self.status, headers, body: self.body }
    }
}

/// An answer whose JSON body the application encodes from `payload`.
pub struct JsonReply<P> {
    pub status: u16,
    pub payload: P,
}

} // verus!
