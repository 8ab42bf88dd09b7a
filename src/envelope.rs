use vstd::prelude::*;
use vstd::utf8::valid_utf8;
use crate::json::decimal;
use crate::json::json_string;
use crate::json::push_all;
use crate::json::push_decimal;
use crate::json::push_json_string;
use crate::json::COMMA;
use crate::json::LBRACKET;
use crate::json::RBRACE;
use crate::json::RBRACKET;
use crate::text::is_utf8;

verus! {

/// One header line of a request, as bytes.
pub struct Header {
    pub name: Vec<u8>,
    pub value: Vec<u8>,
}

impl View for Header {
    type V = (Seq<u8>, Seq<u8>);

    open spec fn view(&self) -> (Seq<u8>, Seq<u8>) {
        (self.name@, self.value@)
    }
}

/// An inbound HTTP request as it is handed to the external responder.
pub struct RequestEnvelope {
    pub method: Vec<u8>,
    pub path: Vec<u8>,
    pub headers: Vec<Header>,
    pub body: Vec<u8>,
    pub request_id: u64,
}

/// The mathematical value of a `RequestEnvelope`.
pub struct RequestView {
    pub method: Seq<u8>,
    pub path: Seq<u8>,
    pub headers: Seq<(Seq<u8>, Seq<u8>)>,
    pub body: Seq<u8>,
    pub request_id: u64,
}

impl View for RequestEnvelope {
    type V = RequestView;

    open spec fn view(&self) -> RequestView {
        RequestView {
            method: self.method@,
            path: self.path@,
            headers: self.headers@.map_values(|h: Header| h@),
            body: self.body@,
            request_id: self.request_id,
        }
    }
}

/// A reply from the external responder.
pub struct ResponseEnvelope {
    pub request_id: u64,
    /// The status as it came over the wire, before any range check.
    pub status: u64,
    pub body: Vec<u8>,
}

/// The mathematical value of a `ResponseEnvelope`.
pub struct ResponseView {
    pub request_id: u64,
    pub status: u64,
    pub body: Seq<u8>,
}

impl View for ResponseEnvelope {
    type V = ResponseView;

    open spec fn view(&self) -> ResponseView {
        ResponseView { request_id: self.request_id, status: self.status, body: self.body@ }
    }
}

/// Why a request envelope cannot be written as JSON.
pub enum EncodeError {
    /// A text field is not valid UTF-8, which a JSON document cannot carry.
    InvalidText,
}

/// `{"method":`
pub open spec fn method_key() -> Seq<u8> {
    seq![123u8, 34, 109, 101, 116, 104, 111, 100, 34, 58]
}

/// `,"path":`
pub open spec fn path_key() -> Seq<u8> {
    seq![44u8, 34, 112, 97, 116, 104, 34, 58]
}

/// `,"headers":[`
pub open spec fn headers_key() -> Seq<u8> {
    seq![44u8, 34, 104, 101, 97, 100, 101, 114, 115, 34, 58, 91]
}

/// `,"body":`
pub open spec fn body_key() -> Seq<u8> {
    seq![44u8, 34, 98, 111, 100, 121, 34, 58]
}

/// `,"request_id":`
pub open spec fn request_id_key() -> Seq<u8> {
    seq![44u8, 34, 114, 101, 113, 117, 101, 115, 116, 95, 105, 100, 34, 58]
}

/// A header as the JSON array `[name,value]`.
pub open spec fn header_text(h: (Seq<u8>, Seq<u8>)) -> Seq<u8> {
    seq![LBRACKET] + json_string(h.0) + seq![COMMA] + json_string(h.1) + seq![RBRACKET]
}

/// The headers as the comma-separated elements of a JSON array, in order.
pub open spec fn headers_text(hs: Seq<(Seq<u8>, Seq<u8>)>) -> Seq<u8>
    decreases hs.len(),
{
    if hs.len() == 0 {
        Seq::empty()
    } else if hs.len() == 1 {
        header_text(hs[0])
    } else {
        headers_text(hs.drop_last()) + seq![COMMA] + header_text(hs.last())
    }
}

/// The JSON object that carries a request to the external responder:
/// `{"method":..,"path":..,"headers":[[name,value],..],"body":..,"request_id":N}`.
pub open spec fn request_text(r: RequestView) -> Seq<u8> {
    method_key() + json_string(r.method) + path_key() + json_string(r.path) + headers_key()
        + headers_text(r.headers) + seq![RBRACKET] + body_key() + json_string(r.body)
        + request_id_key() + decimal(r.request_id as nat) + seq![RBRACE]
}

/// Whether every text field of the request is valid UTF-8.
pub open spec fn request_encodable(r: RequestView) -> bool {
    &&& valid_utf8(r.method)
    &&& valid_utf8(r.path)
    &&& forall|i: int| 0 <= i < r.headers.len() ==> valid_utf8(#[trigger] r.headers[i].0)
        && valid_utf8(r.headers[i].1)
    &&& valid_utf8(r.body)
}

fn headers_encodable(headers: &Vec<Header>) -> (r: bool)
    ensures
        r == forall|i: int|
            0 <= i < headers@.len() ==> valid_utf8(#[trigger] headers@[i].name@) && valid_utf8(
                headers@[i].value@,
            ),
{
    let mut i: usize = 0;
    while i < headers.len()
        invariant
            i <= headers@.len(),
            forall|j: int|
                0 <= j < i ==> valid_utf8(#[trigger] headers@[j].name@) && valid_utf8(
                    headers@[j].value@,
                ),
        decreases headers@.len() - i,
    {
        let name_ok = is_utf8(headers[i].name.as_slice());
        let value_ok = is_utf8(headers[i].value.as_slice());
        if !name_ok || !value_ok {
            assert(!(valid_utf8(headers@[i as int].name@) && valid_utf8(headers@[i as int].value@)));
            return false;
        }
        let ghost k = i as int;
        assert(valid_utf8(headers@[k].name@) && valid_utf8(headers@[k].value@));
        i = i + 1;
        assert forall|j: int| 0 <= j < i implies valid_utf8(#[trigger] headers@[j].name@)
            && valid_utf8(headers@[j].value@) by {
            if j == k {
            } else {
                assert(j < k);
                assert(valid_utf8(headers@[j].name@));
                assert(valid_utf8(headers@[j].value@));
            }
        }
    }
    true
}

fn push_headers(out: &mut Vec<u8>, headers: &Vec<Header>)
    ensures
        final(out)@ == old(out)@ + headers_text(headers@.map_values(|h: Header| h@)),
{
    let ghost hs = headers@.map_values(|h: Header| h@);
    let mut i: usize = 0;
    while i < headers.len()
        invariant
            i <= headers@.len(),
            hs == headers@.map_values(|h: Header| h@),
            out@ == old(out)@ + headers_text(hs.subrange(0, i as int)),
        decreases headers@.len() - i,
    {
        let ghost before = out@;
        if i > 0 {
            out.push(COMMA);
        }
        out.push(LBRACKET);
        push_json_string(out, headers[i].name.as_slice());
        out.push(COMMA);
        push_json_string(out, headers[i].value.as_slice());
        out.push(RBRACKET);
        i = i + 1;
        assert(hs.subrange(0, i as int).drop_last() =~= hs.subrange(0, i - 1));
        assert(hs.subrange(0, i as int).last() == headers@[i - 1]@);
        if i == 1 {
            assert(hs.subrange(0, 0) =~= Seq::empty());
        }
        assert(out@ =~= old(out)@ + headers_text(hs.subrange(0, i as int)));
    }
    assert(hs.subrange(0, i as int) =~= hs);
}

/// Writes a request envelope as the JSON object `request_text`. Fails exactly
/// when a text field is not valid UTF-8.
pub fn encode_request(env: &RequestEnvelope) -> (r: Result<Vec<u8>, EncodeError>)
    ensures
        match r {
            Ok(bytes) => request_encodable(env@) && bytes@ == request_text(env@),
            Err(EncodeError::InvalidText) => !request_encodable(env@),
        },
{
    let ok = is_utf8(env.method.as_slice()) && is_utf8(env.path.as_slice()) && headers_encodable(
        &env.headers,
    ) && is_utf8(env.body.as_slice());
    assert(ok == request_encodable(env@)) by {
        assert forall|i: int| 0 <= i < env.headers@.len() implies #[trigger] env@.headers[i] == (
            env.headers@[i].name@,
            env.headers@[i].value@,
        ) by {}
        if ok {
            assert forall|i: int| 0 <= i < env@.headers.len() implies valid_utf8(
                #[trigger] env@.headers[i].0,
            ) && valid_utf8(env@.headers[i].1) by {
                assert(valid_utf8(env.headers@[i].name@));
            }
        }
        if request_encodable(env@) {
            assert forall|i: int| 0 <= i < env.headers@.len() implies valid_utf8(
                #[trigger] env.headers@[i].name@,
            ) && valid_utf8(env.headers@[i].value@) by {
                assert(valid_utf8(env@.headers[i].0));
            }
        }
    }
    if !ok {
        return Err(EncodeError::InvalidText);
    }
    let mut out: Vec<u8> = Vec::new();
    push_all(&mut out, &[123, 34, 109, 101, 116, 104, 111, 100, 34, 58]);
    push_json_string(&mut out, env.method.as_slice());
    push_all(&mut out, &[44, 34, 112, 97, 116, 104, 34, 58]);
    push_json_string(&mut out, env.path.as_slice());
    push_all(&mut out, &[44, 34, 104, 101, 97, 100, 101, 114, 115, 34, 58, 91]);
    push_headers(&mut out, &env.headers);
    out.push(RBRACKET);
    push_all(&mut out, &[44, 34, 98, 111, 100, 121, 34, 58]);
    push_json_string(&mut out, env.body.as_slice());
    push_all(&mut out, &[44, 34, 114, 101, 113, 117, 101, 115, 116, 95, 105, 100, 34, 58]);
    push_decimal(&mut out, env.request_id);
    out.push(RBRACE);
    assert(out@ =~= request_text(env@));
    Ok(out)
}

} // verus!
