use http_bridge::bridge::begin;
use http_bridge::bridge::deliver;
use http_bridge::bridge::emission_failed;
use http_bridge::bridge::http_status;
use http_bridge::bridge::poll_reply;
use http_bridge::bridge::read_reply;
use http_bridge::bridge::submit;
use http_bridge::bridge::Dropped;
use http_bridge::bridge::Start;
use http_bridge::bridge::Step;
use http_bridge::correlator::Correlator;
use http_bridge::correlator::IdSource;
use http_bridge::envelope::Header;
use http_bridge::http::render_response;
use http_bridge::http::HttpRequest;
use http_bridge::http::HttpResponse;

fn request(method: &str, path: &str, headers: &[(&str, &str)], body: &[u8]) -> HttpRequest {
    HttpRequest {
        method: method.as_bytes().to_vec(),
        path: path.as_bytes().to_vec(),
        headers: headers
            .iter()
            .map(|(n, v)| Header { name: n.as_bytes().to_vec(), value: v.as_bytes().to_vec() })
            .collect(),
        body: body.to_vec(),
    }
}

/// An identifier source and one table, as a single-shard front door uses them.
struct Bridge {
    ids: IdSource,
    table: Correlator,
}

impl Bridge {
    fn new() -> Bridge {
        Bridge { ids: IdSource::new(), table: Correlator::new() }
    }

    fn handle(&mut self, req: HttpRequest) -> Step {
        match begin(&mut self.ids, &req) {
            Start::Respond(r) => Step::Respond(r),
            Start::Forward(id) => submit(&mut self.table, id, req),
        }
    }
}

#[derive(Debug, PartialEq)]
enum Ingest {
    Empty,
    Malformed,
    Unmatched(u64),
    Delivered(u64),
}

fn ingest(b: &mut Bridge, message: &[u8]) -> Ingest {
    match read_reply(message) {
        Err(Dropped::Empty) => Ingest::Empty,
        Err(Dropped::Malformed) => Ingest::Malformed,
        Ok(reply) => {
            let id = reply.request_id;
            if deliver(&mut b.table, reply) {
                Ingest::Delivered(id)
            } else {
                Ingest::Unmatched(id)
            }
        }
    }
}

fn emitted(step: Step) -> (u64, String) {
    match step {
        Step::Emit { request_id, payload } => (request_id, String::from_utf8(payload).unwrap()),
        Step::Respond(r) => panic!("expected an emission, got status {}", r.status),
    }
}

fn responded(step: Step) -> HttpResponse {
    match step {
        Step::Respond(r) => r,
        Step::Emit { request_id, .. } => panic!("expected a response, got emission {}", request_id),
    }
}

#[test]
fn ids_are_distinct_and_increasing() {
    let mut ids = IdSource::new();
    let mut last = 0u64;
    for _ in 0..100 {
        let id = ids.next_id().unwrap();
        assert!(id > last);
        last = id;
    }
    assert_eq!(last, 100);
}

#[test]
fn first_request_gets_id_one() {
    let mut c = Bridge::new();
    let (id, _) = emitted(c.handle(request("GET", "/", &[], b"")));
    assert_eq!(id, 1);
    let (id, _) = emitted(c.handle(request("GET", "/", &[], b"")));
    assert_eq!(id, 2);
}

#[test]
fn post_items_end_to_end() {
    let mut c = Bridge::new();
    let step = c.handle(request("POST", "/items", &[("Host", "localhost")], b"hello"));
    let (id, payload) = emitted(step);
    assert_eq!(id, 1);
    assert_eq!(
        payload,
        r#"{"method":"POST","path":"/items","headers":[["Host","localhost"]],"body":"hello","request_id":1}"#
    );
    assert!(c.table.is_pending(1));
    assert!(poll_reply(&mut c.table, 1).is_none());
    let out = ingest(&mut c, br#"{"request_id":1,"status":201,"body":"created"}"#);
    assert!(matches!(out, Ingest::Delivered(1)));
    assert!(!c.table.is_pending(1));
    let resp = poll_reply(&mut c.table, 1).unwrap();
    assert_eq!(resp.status, 201);
    assert_eq!(resp.body, b"created".to_vec());
}

#[test]
fn out_of_range_status_becomes_200() {
    let mut c = Bridge::new();
    let (id, _) = emitted(c.handle(request("GET", "/x", &[], b"")));
    assert_eq!(id, 1);
    let out = ingest(&mut c, br#"{"request_id":1,"status":70000,"body":"x"}"#);
    assert!(matches!(out, Ingest::Delivered(1)));
    let resp = poll_reply(&mut c.table, 1).unwrap();
    assert_eq!(resp.status, 200);
    assert_eq!(resp.body, b"x".to_vec());
}

#[test]
fn status_mapping_edges() {
    assert_eq!(http_status(0), 200);
    assert_eq!(http_status(99), 200);
    assert_eq!(http_status(100), 100);
    assert_eq!(http_status(404), 404);
    assert_eq!(http_status(599), 599);
    assert_eq!(http_status(600), 200);
    assert_eq!(http_status(u64::MAX), 200);
}

#[test]
fn concurrent_replies_out_of_order_reach_their_own_request() {
    let mut c = Bridge::new();
    let mut ids = Vec::new();
    for i in 0..3 {
        let path = format!("/r{}", i);
        let (id, _) = emitted(c.handle(request("GET", &path, &[], b"")));
        ids.push(id);
    }
    assert_eq!(ids, vec![1, 2, 3]);
    for id in [3u64, 1, 2] {
        let msg = format!(r#"{{"request_id":{},"status":200,"body":"reply {}"}}"#, id, id);
        assert!(matches!(ingest(&mut c, msg.as_bytes()), Ingest::Delivered(d) if d == id));
    }
    for id in [2u64, 3, 1] {
        let resp = poll_reply(&mut c.table, id).unwrap();
        assert_eq!(resp.body, format!("reply {}", id).into_bytes());
    }
    assert_eq!(c.table.pending_count(), 0);
}

#[test]
fn unknown_reply_is_dropped() {
    let mut c = Bridge::new();
    let (id, _) = emitted(c.handle(request("GET", "/", &[], b"")));
    let out = ingest(&mut c, br#"{"request_id":42,"status":200,"body":"stray"}"#);
    assert!(matches!(out, Ingest::Unmatched(42)));
    assert!(c.table.is_pending(id));
    assert!(poll_reply(&mut c.table, id).is_none());
}

#[test]
fn second_reply_is_dropped() {
    let mut c = Bridge::new();
    let (id, _) = emitted(c.handle(request("GET", "/", &[], b"")));
    let first = ingest(&mut c, br#"{"request_id":1,"status":200,"body":"first"}"#);
    assert!(matches!(first, Ingest::Delivered(1)));
    let second = ingest(&mut c, br#"{"request_id":1,"status":500,"body":"second"}"#);
    assert!(matches!(second, Ingest::Unmatched(1)));
    let resp = poll_reply(&mut c.table, id).unwrap();
    assert_eq!(resp.status, 200);
    assert_eq!(resp.body, b"first".to_vec());
}

#[test]
fn empty_and_malformed_messages_are_dropped() {
    let mut c = Bridge::new();
    let (id, _) = emitted(c.handle(request("GET", "/", &[], b"")));
    assert!(matches!(ingest(&mut c, b""), Ingest::Empty));
    assert!(matches!(ingest(&mut c, b"not json"), Ingest::Malformed));
    assert!(matches!(ingest(&mut c, br#"{"request_id":1,"status":200}"#), Ingest::Malformed));
    assert!(c.table.is_pending(id));
}

#[test]
fn options_is_answered_without_an_entry() {
    let mut c = Bridge::new();
    let resp = responded(c.handle(request("OPTIONS", "/anything", &[], b"ignored")));
    assert_eq!(resp.status, 200);
    assert!(resp.body.is_empty());
    assert_eq!(c.table.pending_count(), 0);
    let (id, _) = emitted(c.handle(request("GET", "/", &[], b"")));
    assert_eq!(id, 1);
    let wire = String::from_utf8(render_response(&resp)).unwrap();
    assert!(wire.starts_with("HTTP/1.1 200 \r\n"));
    assert!(wire.contains("Access-Control-Allow-Origin: *\r\n"));
    assert!(wire.contains("Access-Control-Allow-Private-Network: true\r\n"));
    assert!(wire.ends_with("Content-Length: 0\r\n\r\n"));
}

#[test]
fn submit_refuses_an_id_that_has_a_slot() {
    let mut table = Correlator::new();
    let step = submit(&mut table, 5, request("GET", "/", &[], b""));
    assert!(matches!(step, Step::Emit { request_id: 5, .. }));
    let again = submit(&mut table, 5, request("GET", "/", &[], b""));
    match again {
        Step::Respond(r) => assert_eq!(r.status, 500),
        Step::Emit { .. } => panic!("an id with a slot was registered twice"),
    }
    assert!(table.is_pending(5));
    assert_eq!(table.pending_count(), 1);
}

#[test]
fn lowercase_options_is_forwarded() {
    let mut c = Bridge::new();
    let (id, _) = emitted(c.handle(request("options", "/", &[], b"")));
    assert_eq!(id, 1);
}

#[test]
fn failed_emission_gives_500_and_leaves_no_entry() {
    let mut c = Bridge::new();
    let (id, _) = emitted(c.handle(request("POST", "/items", &[], b"hello")));
    let resp = emission_failed(&mut c.table, id);
    assert_eq!(resp.status, 500);
    assert!(resp.body.is_empty());
    assert!(!c.table.is_pending(id));
    assert_eq!(c.table.pending_count(), 0);
    let (next, _) = emitted(c.handle(request("GET", "/", &[], b"")));
    assert_eq!(next, id + 1);
    assert!(matches!(
        ingest(&mut c, br#"{"request_id":1,"status":200,"body":"late"}"#),
        Ingest::Unmatched(1)
    ));
}

#[test]
fn discarded_slot_is_seen_as_abandoned() {
    let mut c = Bridge::new();
    let (id, _) = emitted(c.handle(request("GET", "/", &[], b"")));
    c.table.discard(id);
    let resp = poll_reply(&mut c.table, id).unwrap();
    assert_eq!(resp.status, 504);
    assert!(resp.body.is_empty());
}

#[test]
fn invalid_utf8_header_is_a_serialization_failure() {
    let mut c = Bridge::new();
    let mut req = request("GET", "/", &[], b"");
    req.headers.push(Header { name: b"X-Raw".to_vec(), value: vec![0xff, 0xfe] });
    let resp = responded(c.handle(req));
    assert_eq!(resp.status, 500);
    assert_eq!(c.table.pending_count(), 0);
    let (id, _) = emitted(c.handle(request("GET", "/", &[], b"")));
    assert_eq!(id, 2);
}

#[test]
fn invalid_utf8_body_is_replaced() {
    let mut c = Bridge::new();
    let (_, payload) = emitted(c.handle(request("POST", "/", &[], &[b'a', 0xff, b'b'])));
    assert!(payload.contains("\"body\":\"a\u{FFFD}b\""));
}

#[test]
fn escapes_in_request_text() {
    let mut c = Bridge::new();
    let body = b"q\"b\\n\nt\tc\x01e";
    let (_, payload) = emitted(c.handle(request("PUT", "/a?b=c", &[("A", "x\"y")], body)));
    assert_eq!(
        payload,
        r#"{"method":"PUT","path":"/a?b=c","headers":[["A","x\"y"]],"body":"q\"b\\n\nt\tc\u0001e","request_id":1}"#
    );
}

#[test]
fn headers_keep_their_order_and_repeats() {
    let mut c = Bridge::new();
    let hs = [("B", "1"), ("A", "2"), ("B", "3")];
    let (_, payload) = emitted(c.handle(request("GET", "/", &hs, b"")));
    assert!(payload.contains(r#""headers":[["B","1"],["A","2"],["B","3"]]"#));
}

#[test]
fn render_response_frames_the_body() {
    let resp = HttpResponse { status: 201, body: b"created".to_vec() };
    let wire = String::from_utf8(render_response(&resp)).unwrap();
    assert_eq!(
        wire,
        "HTTP/1.1 201 \r\nAccess-Control-Allow-Origin: *\r\nAccess-Control-Allow-Headers: *\r\nAccess-Control-Allow-Methods: *\r\nAccess-Control-Expose-Headers: *\r\nAccess-Control-Allow-Private-Network: true\r\nContent-Length: 7\r\n\r\ncreated"
    );
}

#[test]
fn valid_body_goes_out_unchanged() {
    let mut table = Correlator::new();
    let step = submit(&mut table, 1, request("POST", "/items", &[], "hello é".as_bytes()));
    let (_, payload) = emitted(step);
    assert!(payload.contains("\"body\":\"hello é\""));
}
