use vstd::prelude::*;
use crate::envelope::Header;
use crate::json::decimal;
use crate::json::push_all;
use crate::json::push_decimal;

verus! {

/// An inbound HTTP request: method, target, headers in order, and the whole body.
pub struct HttpRequest {
    pub method: Vec<u8>,
    pub path: Vec<u8>,
    pub headers: Vec<Header>,
    pub body: Vec<u8>,
}

/// A response as the bridge decides it: a status and a body. The framing and
/// the CORS headers are added by `render_response`.
pub struct HttpResponse {
    pub status: u16,
    pub body: Vec<u8>,
}

pub const STATUS_OK: u16 = 200;

/// The answer to bytes that do not form a request.
pub const STATUS_BAD_REQUEST: u16 = 400;

pub const STATUS_INTERNAL_ERROR: u16 = 500;

pub const STATUS_GATEWAY_TIMEOUT: u16 = 504;

/// `Access-Control-Allow-Origin: *`
pub open spec fn allow_origin_line() -> Seq<u8> {
    seq![65u8, 99, 99, 101, 115, 115, 45, 67, 111, 110, 116, 114, 111, 108, 45, 65, 108, 108, 111, 119, 45, 79, 114, 105, 103, 105, 110, 58, 32, 42, 13, 10]
}

/// `Access-Control-Allow-Headers: *`
pub open spec fn allow_headers_line() -> Seq<u8> {
    seq![65u8, 99, 99, 101, 115, 115, 45, 67, 111, 110, 116, 114, 111, 108, 45, 65, 108, 108, 111, 119, 45, 72, 101, 97, 100, 101, 114, 115, 58, 32, 42, 13, 10]
}

/// `Access-Control-Allow-Methods: *`
pub open spec fn allow_methods_line() -> Seq<u8> {
    seq![65u8, 99, 99, 101, 115, 115, 45, 67, 111, 110, 116, 114, 111, 108, 45, 65, 108, 108, 111, 119, 45, 77, 101, 116, 104, 111, 100, 115, 58, 32, 42, 13, 10]
}

/// `Access-Control-Expose-Headers: *`
pub open spec fn expose_headers_line() -> Seq<u8> {
    seq![65u8, 99, 99, 101, 115, 115, 45, 67, 111, 110, 116, 114, 111, 108, 45, 69, 120, 112, 111, 115, 101, 45, 72, 101, 97, 100, 101, 114, 115, 58, 32, 42, 13, 10]
}

/// `Access-Control-Allow-Private-Network: true`
pub open spec fn allow_private_network_line() -> Seq<u8> {
    seq![65u8, 99, 99, 101, 115, 115, 45, 67, 111, 110, 116, 114, 111, 108, 45, 65, 108, 108, 111, 119, 45, 80, 114, 105, 118, 97, 116, 101, 45, 78, 101, 116, 119, 111, 114, 107, 58, 32, 116, 114, 117, 101, 13, 10]
}

/// The CORS header set that every response carries: any origin, any request
/// header, any method, every response header exposed, and access from a
/// private network allowed.
pub open spec fn cors_headers() -> Seq<u8> {
    allow_origin_line() + allow_headers_line() + allow_methods_line() + expose_headers_line()
        + allow_private_network_line()
}

/// `HTTP/1.1 `
pub open spec fn version_prefix() -> Seq<u8> {
    seq![72u8, 84, 84, 80, 47, 49, 46, 49, 32]
}

/// `Content-Length: `
pub open spec fn content_length_prefix() -> Seq<u8> {
    seq![67u8, 111, 110, 116, 101, 110, 116, 45, 76, 101, 110, 103, 116, 104, 58, 32]
}

/// A response on the wire: the status line (with an empty reason phrase), the
/// CORS headers, the body's length, a blank line, then the body.
pub open spec fn response_text(status: u16, body: Seq<u8>) -> Seq<u8> {
    version_prefix() + decimal(status as nat) + seq![32u8, 13, 10] + cors_headers()
        + content_length_prefix() + decimal(body.len()) + seq![13u8, 10, 13, 10] + body
}

fn push_cors_headers(out: &mut Vec<u8>)
    ensures
        final(out)@ == old(out)@ + cors_headers(),
{
    let allow_origin: [u8; 32] = [65, 99, 99, 101, 115, 115, 45, 67, 111, 110, 116, 114, 111, 108, 45, 65, 108, 108, 111, 119, 45, 79, 114, 105, 103, 105, 110, 58, 32, 42, 13, 10];
    assert(allow_origin@ == allow_origin_line());
    push_all(out, &allow_origin);
    let allow_headers: [u8; 33] = [65, 99, 99, 101, 115, 115, 45, 67, 111, 110, 116, 114, 111, 108, 45, 65, 108, 108, 111, 119, 45, 72, 101, 97, 100, 101, 114, 115, 58, 32, 42, 13, 10];
    assert(allow_headers@ == allow_headers_line());
    push_all(out, &allow_headers);
    let allow_methods: [u8; 33] = [65, 99, 99, 101, 115, 115, 45, 67, 111, 110, 116, 114, 111, 108, 45, 65, 108, 108, 111, 119, 45, 77, 101, 116, 104, 111, 100, 115, 58, 32, 42, 13, 10];
    assert(allow_methods@ == allow_methods_line());
    push_all(out, &allow_methods);
    let expose_headers: [u8; 34] = [65, 99, 99, 101, 115, 115, 45, 67, 111, 110, 116, 114, 111, 108, 45, 69, 120, 112, 111, 115, 101, 45, 72, 101, 97, 100, 101, 114, 115, 58, 32, 42, 13, 10];
    assert(expose_headers@ == expose_headers_line());
    push_all(out, &expose_headers);
    let allow_private_network: [u8; 44] = [65, 99, 99, 101, 115, 115, 45, 67, 111, 110, 116, 114, 111, 108, 45, 65, 108, 108, 111, 119, 45, 80, 114, 105, 118, 97, 116, 101, 45, 78, 101, 116, 119, 111, 114, 107, 58, 32, 116, 114, 117, 101, 13, 10];
    assert(allow_private_network@ == allow_private_network_line());
    push_all(out, &allow_private_network);
    assert(out@ =~= old(out)@ + cors_headers());
}

/// Writes `r` as an HTTP/1.1 response with the CORS headers.
pub fn render_response(r: &HttpResponse) -> (out: Vec<u8>)
    ensures
        out@ == response_text(r.status, r.body@),
{
    let mut out: Vec<u8> = Vec::new();
    push_all(&mut out, &[72, 84, 84, 80, 47, 49, 46, 49, 32]);
    push_decimal(&mut out, r.status as u64);
    push_all(&mut out, &[32, 13, 10]);
    push_cors_headers(&mut out);
    push_all(&mut out, &[67, 111, 110, 116, 101, 110, 116, 45, 76, 101, 110, 103, 116, 104, 58, 32]);
    push_decimal(&mut out, r.body.len() as u64);
    push_all(&mut out, &[13, 10, 13, 10]);
    push_all(&mut out, r.body.as_slice());
    assert(out@ =~= response_text(r.status, r.body@));
    out
}

} // verus!
