use zarlink::connection::{BufferMode, Connection, ReadProgress};

#[test]
fn single_message_resets_cursor() {
    let mut conn = Connection::new(BufferMode::Growable);
    assert!(!conn.message_available());
    let r = conn.feed(b"{\"parameters\":{\"x\":1}}\0");
    assert!(matches!(r, Ok(ReadProgress::Complete)));
    assert!(conn.message_available());
    let msg = conn.next_message();
    assert_eq!(msg, b"{\"parameters\":{\"x\":1}}".to_vec());
    assert!(!conn.message_available());
}

#[test]
fn success_document_decodes_with_continues_absent() {
    let mut conn = Connection::new(BufferMode::Growable);
    let r = conn.feed(b"{\"parameters\":{\"x\":1}}\0");
    assert!(matches!(r, Ok(ReadProgress::Complete)));
    let msg = conn.next_message();
    let v: serde_json::Value = serde_json::from_slice(&msg).unwrap();
    assert_eq!(v.get("parameters").unwrap().get("x").unwrap().as_i64().unwrap(), 1);
    assert!(v.get("continues").is_none());
    assert!(!conn.message_available());
}

#[test]
fn error_document_is_distinguishable() {
    let mut conn = Connection::new(BufferMode::Growable);
    let r = conn.feed(b"{\"error\":\"org.example.ftl.Alpha\",\"parameters\":{}}\0");
    assert!(matches!(r, Ok(ReadProgress::Complete)));
    let msg = conn.next_message();
    let v: serde_json::Value = serde_json::from_slice(&msg).unwrap();
    assert!(v.get("error").is_some());
    assert_eq!(v.get("error").unwrap().as_str().unwrap(), "org.example.ftl.Alpha");
    assert!(!conn.message_available());
}

#[test]
fn batched_replies_come_back_in_order() {
    let mut conn = Connection::new(BufferMode::Growable);
    let r = conn.feed(b"{\"parameters\":1}\0{\"parameters\":22}\0{\"parameters\":333}\0");
    assert!(matches!(r, Ok(ReadProgress::Complete)));
    assert!(conn.message_available());
    assert_eq!(conn.next_message(), b"{\"parameters\":1}".to_vec());
    assert!(conn.message_available());
    assert_eq!(conn.next_message(), b"{\"parameters\":22}".to_vec());
    assert!(conn.message_available());
    assert_eq!(conn.next_message(), b"{\"parameters\":333}".to_vec());
    assert!(!conn.message_available());
}

#[test]
fn split_delivery_joins_one_message() {
    let mut conn = Connection::new(BufferMode::Growable);
    let r = conn.feed(b"{\"par");
    assert!(matches!(r, Ok(ReadProgress::NeedMore)));
    assert!(!conn.message_available());
    let r = conn.feed(b"ams\":1}\0");
    assert!(matches!(r, Ok(ReadProgress::Complete)));
    assert_eq!(conn.next_message(), b"{\"params\":1}".to_vec());
}

#[test]
fn consumed_buffer_needs_fresh_read_each_time() {
    let mut conn = Connection::new(BufferMode::Growable);
    for i in 0..3u8 {
        assert!(!conn.message_available());
        let body = format!("{{\"parameters\":{}}}", i);
        let mut chunk = body.as_bytes().to_vec();
        chunk.push(0);
        let r = conn.feed(&chunk);
        assert!(matches!(r, Ok(ReadProgress::Complete)));
        assert_eq!(conn.next_message(), body.as_bytes().to_vec());
        assert!(!conn.message_available());
    }
}
