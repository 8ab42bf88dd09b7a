use vstd::prelude::*;
use vstd::utf8::valid_utf8;
use crate::correlator::discard_step;
use crate::correlator::register_step;
use crate::correlator::resolve_step;
use crate::correlator::take_step;
use crate::correlator::Correlator;
use crate::correlator::IdSource;
use crate::correlator::Poll;
use crate::decode::decode_response;
use crate::decode::parse_response;
use crate::envelope::encode_request;
use crate::envelope::request_encodable;
use crate::envelope::request_text;
use crate::envelope::EncodeError;
use crate::envelope::RequestEnvelope;
use crate::envelope::RequestView;
use crate::envelope::ResponseEnvelope;
use crate::http::HttpRequest;
use crate::http::HttpResponse;
use crate::http::STATUS_GATEWAY_TIMEOUT;
use crate::http::STATUS_INTERNAL_ERROR;
use crate::http::STATUS_OK;
use crate::text::lossy_text;
use crate::text::utf8_lossy;

verus! {

/// How the handling of a request starts.
pub enum Start {
    /// Answer the caller with this response now.
    Respond(HttpResponse),
    /// Forward the request to the external responder under this identifier.
    Forward(u64),
}

/// What the HTTP side does next for a forwarded request.
pub enum Step {
    /// Answer the caller with this response now.
    Respond(HttpResponse),
    /// Send `payload` to the external responder, then wait on the reply slot
    /// of `request_id`.
    Emit { request_id: u64, payload: Vec<u8> },
}

/// Why a message from the external responder was dropped before delivery.
pub enum Dropped {
    /// The message was empty.
    Empty,
    /// The message is not a well-formed reply.
    Malformed,
}

/// `OPTIONS`, the method of a CORS preflight request.
pub open spec fn preflight_method() -> Seq<u8> {
    seq![79u8, 80, 84, 73, 79, 78, 83]
}

/// Maps a wire status to the HTTP status the caller receives: codes in
/// `100..=599` pass through, anything else becomes 200.
pub open spec fn effective_status(wire: u64) -> u16 {
    if 100 <= wire && wire <= 599 {
        wire as u16
    } else {
        STATUS_OK
    }
}

/// The envelope that carries `req` under `id`, its body decoded leniently.
pub open spec fn envelope_view(req: HttpRequest, id: u64) -> RequestView {
    RequestView {
        method: req.method@,
        path: req.path@,
        headers: req.headers@.map_values(|h: crate::envelope::Header| h@),
        body: utf8_lossy(req.body@),
        request_id: id,
    }
}

/// Whether a response has the given status and an empty body.
pub open spec fn is_empty_response(r: HttpResponse, status: u16) -> bool {
    r.status == status && r.body@.len() == 0
}

/// The HTTP status for a wire status.
pub fn http_status(wire: u64) -> (r: u16)
    ensures
        r == effective_status(wire),
{
    if 100 <= wire && wire <= 599 {
        wire as u16
    } else {
        STATUS_OK
    }
}

fn is_preflight(method: &[u8]) -> (r: bool)
    ensures
        r == (method@ == preflight_method()),
{
    let options: [u8; 7] = [79, 80, 84, 73, 79, 78, 83];
    assert(options@ == preflight_method());
    if method.len() != 7 {
        return false;
    }
    let mut i: usize = 0;
    while i < 7
        invariant
            i <= 7,
            method@.len() == 7,
            options@ == preflight_method(),
            forall|k: int| 0 <= k < i ==> method@[k] == options@[k],
        decreases 7 - i,
    {
        if method[i] != options[i] {
            return false;
        }
        i = i + 1;
    }
    assert(method@ =~= options@);
    true
}

/// Starts the handling of a request. A CORS preflight is answered at once
/// with an empty 200 and takes no identifier; any other request takes the next
/// identifier, or gets an empty 500 once identifiers are used up.
pub fn begin(ids: &mut IdSource, req: &HttpRequest) -> (r: Start)
    ensures
        req.method@ == preflight_method() ==> final(ids)@ == old(ids)@ && (r matches Start::Respond(
            resp,
        ) && is_empty_response(resp, STATUS_OK)),
        req.method@ != preflight_method() && old(ids)@ < u64::MAX ==> final(ids)@ == old(ids)@ + 1
            && r == Start::Forward(old(ids)@ as u64),
        req.method@ != preflight_method() && old(ids)@ >= u64::MAX ==> final(ids)@ == old(ids)@ && (
        r matches Start::Respond(resp) && is_empty_response(resp, STATUS_INTERNAL_ERROR)),
{
    if is_preflight(req.method.as_slice()) {
        return Start::Respond(HttpResponse { status: STATUS_OK, body: Vec::new() });
    }
    match ids.next_id() {
        Some(id) => Start::Forward(id),
        None => Start::Respond(HttpResponse { status: STATUS_INTERNAL_ERROR, body: Vec::new() }),
    }
}

/// Registers the pending entry of request `id` and writes its envelope, the
/// body decoded leniently (never a failure: the decoded body is always valid
/// UTF-8, and a valid body goes out unchanged), as `request_text`. Where the envelope cannot be
/// written as JSON the entry is discarded again and the answer is an empty
/// 500, as it is when `id` has a slot already.
pub fn submit(table: &mut Correlator, id: u64, req: HttpRequest) -> (r: Step)
    requires
        old(table).wf(),
    ensures
        final(table).wf(),
        valid_utf8(utf8_lossy(req.body@)),
        valid_utf8(req.body@) ==> utf8_lossy(req.body@) == req.body@,
        ({
            let (registered, fresh) = register_step(old(table)@, id);
            let env = envelope_view(req, id);
            if fresh && request_encodable(env) {
                &&& r matches Step::Emit { request_id, payload }
                &&& request_id == id
                &&& payload@ == request_text(env)
                &&& final(table)@ == registered
            } else {
                &&& r matches Step::Respond(resp)
                &&& is_empty_response(resp, STATUS_INTERNAL_ERROR)
                &&& final(table)@ == old(table)@
            }
        }),
{
    let body = lossy_text(req.body.as_slice());
    if !table.register(id) {
        return Step::Respond(HttpResponse { status: STATUS_INTERNAL_ERROR, body: Vec::new() });
    }
    let env = RequestEnvelope {
        method: req.method,
        path: req.path,
        headers: req.headers,
        body,
        request_id: id,
    };
    assert(env@ == envelope_view(req, id));
    match encode_request(&env) {
        Ok(payload) => Step::Emit { request_id: id, payload },
        Err(EncodeError::InvalidText) => {
            table.discard(id);
            assert(final(table)@.pending =~= old(table)@.pending);
            Step::Respond(HttpResponse { status: STATUS_INTERNAL_ERROR, body: Vec::new() })
        },
    }
}

/// The emission of request `id` failed: its pending entry is discarded and the
/// caller gets an empty 500.
pub fn emission_failed(table: &mut Correlator, id: u64) -> (r: HttpResponse)
    requires
        old(table).wf(),
    ensures
        final(table).wf(),
        final(table)@ == discard_step(old(table)@, id),
        is_empty_response(r, STATUS_INTERNAL_ERROR),
{
    table.discard(id);
    HttpResponse { status: STATUS_INTERNAL_ERROR, body: Vec::new() }
}

/// Looks at the reply slot of request `id` on behalf of its caller: `None`
/// while it waits; else the delivered reply with its status mapped by
/// `effective_status`, or an empty 504 when the slot was abandoned.
///
/// There is no deadline: a slot whose reply never comes stays pending, and
/// its caller keeps waiting, until someone discards it.
pub fn poll_reply(table: &mut Correlator, id: u64) -> (r: Option<HttpResponse>)
    requires
        old(table).wf(),
    ensures
        final(table).wf(),
        final(table)@ == take_step(old(table)@, id),
        old(table)@.delivered.contains_key(id) ==> (r matches Some(resp) && resp.status
            == effective_status(old(table)@.delivered[id].status) && resp.body@ == old(
            table,
        )@.delivered[id].body),
        !old(table)@.delivered.contains_key(id) && old(table)@.pending.contains(id) ==> r is None,
        !old(table)@.delivered.contains_key(id) && !old(table)@.pending.contains(id) ==> (r matches Some(
            resp,
        ) && is_empty_response(resp, STATUS_GATEWAY_TIMEOUT)),
{
    match table.take(id) {
        Poll::Waiting => None,
        Poll::Ready(e) => Some(HttpResponse { status: http_status(e.status), body: e.body }),
        Poll::Abandoned => Some(HttpResponse { status: STATUS_GATEWAY_TIMEOUT, body: Vec::new() }),
    }
}

/// Reads one message from the external responder as a reply; an empty or
/// malformed message is dropped.
pub fn read_reply(message: &[u8]) -> (r: Result<ResponseEnvelope, Dropped>)
    ensures
        message@.len() == 0 ==> r == Err::<ResponseEnvelope, Dropped>(Dropped::Empty),
        message@.len() > 0 && parse_response(message@) is None ==> r == Err::<
            ResponseEnvelope,
            Dropped,
        >(Dropped::Malformed),
        message@.len() > 0 && parse_response(message@) is Some ==> (r matches Ok(e) && e@
            == parse_response(message@)->0),
{
    if message.len() == 0 {
        return Err(Dropped::Empty);
    }
    match decode_response(message) {
        None => Err(Dropped::Malformed),
        Some(reply) => Ok(reply),
    }
}

/// Hands a reply to the slot of its own `request_id`. Says whether it was
/// delivered; a reply that matches no pending entry (unknown, or resolved
/// already) changes nothing.
pub fn deliver(table: &mut Correlator, reply: ResponseEnvelope) -> (r: bool)
    requires
        old(table).wf(),
    ensures
        final(table).wf(),
        (final(table)@, r) == resolve_step(old(table)@, reply.request_id, reply@),
{
    let id = reply.request_id;
    table.resolve(id, reply)
}

} // verus!
