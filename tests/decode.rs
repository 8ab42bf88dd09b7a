use http_bridge::decode::decode_response;

fn ok(s: &str) -> (u64, u64, Vec<u8>) {
    let e = decode_response(s.as_bytes()).expect("should decode");
    (e.request_id, e.status, e.body)
}

#[test]
fn plain_reply() {
    assert_eq!(ok(r#"{"request_id":1,"status":201,"body":"created"}"#), (1, 201, b"created".to_vec()));
}

#[test]
fn whitespace_and_key_order() {
    let s = " \n{ \"body\" : \"b\" ,\t\"status\":404 , \"request_id\" : 7 }\r\n";
    assert_eq!(ok(s), (7, 404, b"b".to_vec()));
}

#[test]
fn string_escapes() {
    let s = r#"{"request_id":2,"status":200,"body":"a\"b\\c\/d\b\f\n\r\t\u00e9\u20ac\ud83d\ude00"}"#;
    let mut want = b"a\"b\\c/d\x08\x0c\n\r\t".to_vec();
    want.extend_from_slice("é€😀".as_bytes());
    assert_eq!(ok(s), (2, 200, want));
}

#[test]
fn raw_non_ascii_passes_through() {
    assert_eq!(ok("{\"request_id\":3,\"status\":200,\"body\":\"h\u{e9}\"}").2, "h\u{e9}".as_bytes().to_vec());
}

#[test]
fn largest_id() {
    let s = r#"{"request_id":18446744073709551615,"status":0,"body":""}"#;
    assert_eq!(ok(s), (u64::MAX, 0, Vec::new()));
}

#[test]
fn rejected_replies() {
    let bad = [
        "",
        "{}",
        "[]",
        r#"{"request_id":1,"status":200}"#,
        r#"{"request_id":1,"status":200,"body":"x","body":"y"}"#,
        r#"{"request_id":1,"status":200,"body":"x","extra":1}"#,
        r#"{"request_id":01,"status":200,"body":"x"}"#,
        r#"{"request_id":-1,"status":200,"body":"x"}"#,
        r#"{"request_id":1.5,"status":200,"body":"x"}"#,
        r#"{"request_id":18446744073709551616,"status":200,"body":"x"}"#,
        r#"{"request_id":1,"status":200,"body":"x"} trailing"#,
        r#"{"request_id":1,"status":200,"body":"x",}"#,
        r#"{"request_id":1,"status":200,"body":"\ud83d"}"#,
        r#"{"request_id":1,"status":200,"body":"\ude00"}"#,
        r#"{"request_id":1,"status":200,"body":"\q"}"#,
        r#"{"request_id":1,"status":"200","body":"x"}"#,
        "{\"request_id\":1,\"status\":200,\"body\":\"a\nb\"}",
        r#"{"request_id":1,"status":200,"body":"x""#,
    ];
    for b in bad.iter() {
        assert!(decode_response(b.as_bytes()).is_none(), "accepted {:?}", b);
    }
}

#[test]
fn compact_reply_with_escaped_controls() {
    let s = r#"{"request_id":9,"status":503,"body":"a\u0001b\u001fc\"\\\n"}"#;
    assert_eq!(ok(s), (9, 503, b"a\x01b\x1fc\"\\\n".to_vec()));
}

#[test]
fn uppercase_hex_escape() {
    assert_eq!(ok(r#"{"request_id":1,"status":200,"body":"\u00E9"}"#).2, "\u{e9}".as_bytes().to_vec());
}
