use http_bridge::request::parse_request;
use http_bridge::request::Parsed;

fn complete(s: &[u8]) -> (http_bridge::http::HttpRequest, usize) {
    match parse_request(s) {
        Parsed::Complete(r, n) => (r, n),
        Parsed::Incomplete => panic!("incomplete"),
        Parsed::Invalid => panic!("invalid"),
    }
}

#[test]
fn simple_get() {
    let s = b"GET /a?b=1 HTTP/1.1\r\nHost: x\r\n\r\n";
    let (r, n) = complete(s);
    assert_eq!(r.method, b"GET".to_vec());
    assert_eq!(r.path, b"/a?b=1".to_vec());
    assert_eq!(r.headers.len(), 1);
    assert_eq!(r.headers[0].name, b"Host".to_vec());
    assert_eq!(r.headers[0].value, b"x".to_vec());
    assert!(r.body.is_empty());
    assert_eq!(n, s.len());
}

#[test]
fn post_with_body_and_pipelined_rest() {
    let s = b"POST /items HTTP/1.1\r\ncontent-LENGTH:  5 \r\nX-A: 1\r\nX-A: 2\r\n\r\nhelloGET";
    let (r, n) = complete(s);
    assert_eq!(r.method, b"POST".to_vec());
    assert_eq!(r.body, b"hello".to_vec());
    assert_eq!(n, s.len() - 3);
    let names: Vec<Vec<u8>> = r.headers.iter().map(|h| h.name.clone()).collect();
    assert_eq!(names, vec![b"content-LENGTH".to_vec(), b"X-A".to_vec(), b"X-A".to_vec()]);
    assert_eq!(r.headers[0].value, b"5".to_vec());
    assert_eq!(r.headers[2].value, b"2".to_vec());
}

#[test]
fn no_headers_http10() {
    let (r, n) = complete(b"DELETE /x HTTP/1.0\r\n\r\n");
    assert_eq!(r.method, b"DELETE".to_vec());
    assert!(r.headers.is_empty());
    assert_eq!(n, 22);
}

#[test]
fn incomplete_inputs() {
    for s in [&b""[..], b"GET / HTTP/1.1\r\n", b"GET / HTTP/1.1\r\nHost: x\r\n\r", b"POST / HTTP/1.1\r\nContent-Length: 10\r\n\r\nshort"] {
        assert!(matches!(parse_request(s), Parsed::Incomplete), "{:?}", s);
    }
}

#[test]
fn invalid_inputs() {
    let bad: [&[u8]; 8] = [
        b"GET /\r\n\r\n",
        b" / HTTP/1.1\r\n\r\n",
        b"GET  HTTP/1.1\r\n\r\n",
        b"GET / HTTP/2.0\r\n\r\n",
        b"GET / HTTP/1.1\r\nNoColon\r\n\r\n",
        b"GET / HTTP/1.1\r\nBad Name: v\r\n\r\n",
        b"GET / HTTP/1.1\r\n: v\r\n\r\n",
        b"POST / HTTP/1.1\r\nContent-Length: 5x\r\n\r\nhello",
    ];
    for s in bad.iter() {
        assert!(matches!(parse_request(s), Parsed::Invalid), "{:?}", s);
    }
}
