use http_bridge::keys::generate_private_key;
use http_bridge::keys::key_text;
use http_bridge::keys::sign_message;

#[test]
fn private_key_is_the_placeholder() {
    assert_eq!(generate_private_key(), "mocked_private_key_1234");
}

#[test]
fn signature_wraps_the_message() {
    assert_eq!(sign_message("hello".to_string()), "signed(hello)");
    assert_eq!(sign_message(String::new()), "signed()");
    assert_eq!(sign_message("é(x)".to_string()), "signed(é(x))");
}

#[test]
fn stored_key_text() {
    assert_eq!(key_text(b"mocked_private_key_1234".to_vec()), Some("mocked_private_key_1234".to_string()));
    assert_eq!(key_text(Vec::new()), Some(String::new()));
    assert_eq!(key_text("clé".as_bytes().to_vec()), Some("clé".to_string()));
    assert_eq!(key_text(vec![b'k', 0xff]), None);
}
