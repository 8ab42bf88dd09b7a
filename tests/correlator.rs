use http_bridge::correlator::shard_of;
use http_bridge::correlator::Correlator;
use http_bridge::correlator::IdSource;
use http_bridge::correlator::Poll;
use http_bridge::envelope::ResponseEnvelope;

fn reply(id: u64, body: &str) -> ResponseEnvelope {
    ResponseEnvelope { request_id: id, status: 200, body: body.as_bytes().to_vec() }
}

#[test]
fn register_resolve_take() {
    let mut ids = IdSource::new();
    let mut c = Correlator::new();
    let id = ids.next_id().unwrap();
    assert_eq!(id, 1);
    assert!(c.register(id));
    assert!(!c.register(id));
    assert!(matches!(c.take(id), Poll::Waiting));
    assert!(c.resolve(id, reply(id, "a")));
    assert!(!c.resolve(id, reply(id, "b")));
    match c.take(id) {
        Poll::Ready(e) => assert_eq!(e.body, b"a".to_vec()),
        _ => panic!("expected a reply"),
    }
    assert!(matches!(c.take(id), Poll::Abandoned));
}

#[test]
fn ids_start_at_one() {
    let mut ids = IdSource::new();
    assert_eq!(ids.next_id(), Some(1));
    assert_eq!(ids.next_id(), Some(2));
    assert_eq!(ids.next_id(), Some(3));
}

#[test]
fn shards_split_ids_evenly() {
    assert_eq!(shard_of(0, 16), 0);
    assert_eq!(shard_of(17, 16), 1);
    assert_eq!(shard_of(u64::MAX, 16), 15);
    assert_eq!(shard_of(12345, 1), 0);
}

#[test]
fn register_refuses_id_whose_reply_waits() {
    let mut ids = IdSource::new();
    let mut c = Correlator::new();
    let id = ids.next_id().unwrap();
    assert!(c.register(id));
    assert!(c.resolve(id, reply(id, "a")));
    assert!(!c.register(id));
}

#[test]
fn resolve_unknown_changes_nothing() {
    let mut ids = IdSource::new();
    let mut c = Correlator::new();
    let id = ids.next_id().unwrap();
    assert!(c.register(id));
    assert!(!c.resolve(id + 1, reply(id + 1, "x")));
    assert!(c.is_pending(id));
    assert_eq!(c.pending_count(), 1);
}

#[test]
fn discard_then_resolve_is_dropped() {
    let mut ids = IdSource::new();
    let mut c = Correlator::new();
    let id = ids.next_id().unwrap();
    assert!(c.register(id));
    c.discard(id);
    assert!(!c.resolve(id, reply(id, "late")));
    assert!(matches!(c.take(id), Poll::Abandoned));
}
