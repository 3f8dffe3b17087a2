use yakstore::bootstrap::ensure_genesis;
use yakstore::commands::{
    append_event, append_event_with_id, format_log_message, read_content, AppendEventError,
    ContentError,
};
use yakstore::frame::{Frame, SYSTEM_CONTEXT};
use yakstore::replay::replay;
use yakstore::sink::Sink;
use yakstore::store::Store;

#[test]
fn test_append_event_and_get_content() {
    let mut store = Store::new();

    let hash = store.cas_insert(b"test content".to_vec());

    let retrieved = store.cas_read(&hash).unwrap();
    assert_eq!(retrieved, b"test content".to_vec());

    let frame = Frame {
        id: u128::from(scru128::new()),
        context_id: SYSTEM_CONTEXT,
        topic: "test.topic".to_string(),
        hash: Some(hash),
        meta: None,
        ttl: None,
    };

    let appended = store.append(frame).unwrap();
    assert_eq!(appended.topic, "test.topic");
    assert!(appended.hash.is_some());
}

#[test]
fn fresh_store_bootstrap_creates_single_sentinel() {
    let mut store = Store::new();
    let mut sink = Sink::new();

    let created = ensure_genesis(&mut store, &mut sink).unwrap();
    assert!(created.is_some());
    assert_eq!(store.len(), 1);
    assert_eq!(store.get(0).topic, "yak.create");
    assert!(store.get(0).hash.is_none());
    assert_eq!(sink.len(), 1);

    let again = ensure_genesis(&mut store, &mut sink).unwrap();
    assert!(again.is_none());
    assert_eq!(store.len(), 1);
    assert_eq!(sink.len(), 1);

    let once_more = ensure_genesis(&mut store, &mut sink).unwrap();
    assert!(once_more.is_none());
    assert_eq!(store.len(), 1);
}

#[test]
fn append_then_read_round_trip() {
    let mut store = Store::new();
    let mut sink = Sink::new();

    let id = append_event(
        &mut store,
        &mut sink,
        "user.note".to_string(),
        "hello".to_string(),
        None,
    )
    .unwrap();
    assert!(!id.is_empty());

    let hash = store.get(0).hash.clone().unwrap();
    let content = read_content(&store, &hash).unwrap();
    assert_eq!(content, "hello");
}

#[test]
fn append_empty_content_has_no_hash() {
    let mut store = Store::new();
    let mut sink = Sink::new();

    append_event(
        &mut store,
        &mut sink,
        "user.note".to_string(),
        "".to_string(),
        None,
    )
    .unwrap();
    assert!(store.get(0).hash.is_none());
    assert_eq!(store.cas_len(), 0);
}

#[test]
fn malformed_hash_is_reported_as_such() {
    let store = Store::new();
    let r = read_content(&store, &"not-a-hash".to_string());
    assert_eq!(r.unwrap_err(), ContentError::MalformedHash);
}

#[test]
fn missing_content_is_reported_as_such() {
    let mut filled = Store::new();
    let hash = filled.cas_insert(b"abc".to_vec());

    let empty = Store::new();
    assert_eq!(
        read_content(&empty, &hash).unwrap_err(),
        ContentError::MissingContent
    );
}

#[test]
fn invalid_utf8_content_is_reported_as_such() {
    let mut store = Store::new();
    let hash = store.cas_insert(vec![0xff, 0xfe]);
    assert_eq!(
        read_content(&store, &hash).unwrap_err(),
        ContentError::InvalidEncoding
    );
}

#[test]
fn cas_insert_is_idempotent() {
    let mut store = Store::new();
    let h1 = store.cas_insert(b"hello".to_vec());
    let h2 = store.cas_insert(b"hello".to_vec());
    assert_eq!(h1, h2);
    assert_eq!(store.cas_len(), 1);

    let other = store.cas_insert(b"world".to_vec());
    assert_ne!(h1, other);
    assert_eq!(store.cas_len(), 2);
}

#[test]
fn cas_hash_is_the_sha256_integrity_string() {
    let mut store = Store::new();
    let h = store.cas_insert(b"hello".to_vec());
    assert_eq!(h, "sha256-LPJNul+wow4m6DsqxbninhsWHlwfp0JecwQzYpOLmCQ=");
}

#[test]
fn append_rejects_empty_topic() {
    let mut store = Store::new();
    let mut sink = Sink::new();
    let r = append_event(
        &mut store,
        &mut sink,
        "".to_string(),
        "payload".to_string(),
        None,
    );
    assert_eq!(r.unwrap_err(), AppendEventError::EmptyTopic);
    assert_eq!(store.len(), 0);
    assert_eq!(sink.len(), 0);
}

#[test]
fn append_rejects_non_increasing_ids() {
    let mut store = Store::new();
    let mut sink = Sink::new();

    append_event_with_id(
        &mut store,
        &mut sink,
        10,
        "a.b".to_string(),
        "".to_string(),
        None,
    )
    .unwrap();
    let stale = append_event_with_id(
        &mut store,
        &mut sink,
        10,
        "a.b".to_string(),
        "".to_string(),
        None,
    );
    assert_eq!(stale.unwrap_err(), AppendEventError::StaleId);

    append_event_with_id(
        &mut store,
        &mut sink,
        11,
        "a.b".to_string(),
        "".to_string(),
        None,
    )
    .unwrap();
    assert_eq!(store.len(), 2);
    assert!(store.get(0).id < store.get(1).id);
}

#[test]
fn returned_frame_id_is_canonical_text() {
    let mut store = Store::new();
    let mut sink = Sink::new();
    let id = append_event_with_id(
        &mut store,
        &mut sink,
        3,
        "a.b".to_string(),
        "".to_string(),
        None,
    )
    .unwrap();
    assert_eq!(id, "0000000000000000000000003");

    let id = append_event_with_id(
        &mut store,
        &mut sink,
        35,
        "a.b".to_string(),
        "".to_string(),
        None,
    )
    .unwrap();
    assert_eq!(id, "000000000000000000000000z");

    let id = append_event_with_id(
        &mut store,
        &mut sink,
        36 * 36 + 10 * 36 + 11,
        "a.b".to_string(),
        "".to_string(),
        None,
    )
    .unwrap();
    assert_eq!(id, "00000000000000000000001ab");

    assert_eq!(id.len(), 25);
}

#[test]
fn replay_forwards_all_frames_in_order_once() {
    let mut store = Store::new();
    let mut sink = Sink::new();
    append_event_with_id(
        &mut store,
        &mut sink,
        1,
        "t.one".to_string(),
        "x".to_string(),
        None,
    )
    .unwrap();
    append_event_with_id(
        &mut store,
        &mut sink,
        2,
        "t.two".to_string(),
        "y".to_string(),
        None,
    )
    .unwrap();

    let mut subscriber = Sink::new();
    let count = replay(&store, &mut subscriber);
    assert_eq!(count, 2);
    assert_eq!(subscriber.len(), 2);
    assert_eq!(subscriber.get(0).id, 1);
    assert_eq!(subscriber.get(0).topic, "t.one");
    assert_eq!(subscriber.get(1).id, 2);
    assert_eq!(subscriber.get(1).topic, "t.two");

    let count_again = replay(&store, &mut subscriber);
    assert_eq!(count_again, 2);
    assert_eq!(subscriber.len(), 4);
}

#[test]
fn snapshot_returns_the_whole_log_in_order() {
    let mut store = Store::new();
    let mut sink = Sink::new();
    append_event_with_id(
        &mut store,
        &mut sink,
        1,
        "t.one".to_string(),
        "".to_string(),
        None,
    )
    .unwrap();
    append_event_with_id(
        &mut store,
        &mut sink,
        2,
        "t.two".to_string(),
        "".to_string(),
        None,
    )
    .unwrap();

    let snap = store.snapshot();
    assert_eq!(snap.len(), 2);
    assert_eq!(snap[0].topic, "t.one");
    assert_eq!(snap[1].topic, "t.two");
    assert!(snap[0].id < snap[1].id);
}

#[test]
fn appended_frames_are_emitted_live() {
    let mut store = Store::new();
    let mut sink = Sink::new();
    append_event_with_id(
        &mut store,
        &mut sink,
        5,
        "t.live".to_string(),
        "payload".to_string(),
        None,
    )
    .unwrap();
    assert_eq!(sink.len(), 1);
    assert_eq!(sink.get(0).topic, "t.live");
    assert_eq!(sink.get(0).id, 5);
}

#[test]
fn meta_is_carried_on_the_frame() {
    let mut store = Store::new();
    let mut sink = Sink::new();
    let mut doc = serde_json::Map::new();
    doc.insert(
        "kind".to_string(),
        serde_json::Value::String("note".to_string()),
    );
    let meta = serde_json::Value::Object(doc);

    append_event_with_id(
        &mut store,
        &mut sink,
        1,
        "user.note".to_string(),
        "".to_string(),
        Some(meta.clone()),
    )
    .unwrap();

    assert_eq!(store.get(0).meta.as_ref().unwrap(), &meta);
    assert!(store.get(0).ttl.is_none());
    assert_eq!(store.get(0).context_id, SYSTEM_CONTEXT);
}

#[test]
fn error_messages_are_distinct_and_human_readable() {
    assert_eq!(ContentError::MalformedHash.message(), "invalid hash format");
    assert_eq!(ContentError::MissingContent.message(), "failed to read content");
    assert_eq!(ContentError::InvalidEncoding.message(), "invalid utf-8 content");
    assert_eq!(
        AppendEventError::EmptyTopic.message(),
        "failed to append frame: empty topic"
    );
    assert_ne!(
        AppendEventError::StaleId.message(),
        AppendEventError::EmptyTopic.message()
    );
}

#[test]
fn log_message_formatting() {
    let (line, to_stderr) = format_log_message(&"error".to_string(), &"boom".to_string());
    assert_eq!(line, "[FRONTEND ERROR] boom");
    assert!(to_stderr);

    let (line, to_stderr) = format_log_message(&"warn".to_string(), &"careful".to_string());
    assert_eq!(line, "[FRONTEND WARN] careful");
    assert!(to_stderr);

    let (line, to_stderr) = format_log_message(&"info".to_string(), &"hi".to_string());
    assert_eq!(line, "[FRONTEND LOG] hi");
    assert!(!to_stderr);
}
