use zarlink::connection::{BufferMode, Connection, ReadProgress, METHOD_NAME_BUFFER_SIZE};
use zarlink::error::Error;

#[test]
fn call_without_flags_encodes_exactly() {
    let mut conn = Connection::new(BufferMode::Growable);
    let r = conn.prepare_call("org.example.ftl", "Echo", b"{\"x\":1}", None, None, None);
    assert_eq!(r, Ok(()));
    assert_eq!(
        conn.outgoing(),
        b"{\"method\":\"org.example.ftl.Echo\",\"parameters\":{\"x\":1}}\0".as_slice()
    );
}

#[test]
fn call_with_flags_encodes_exactly() {
    let mut conn = Connection::new(BufferMode::Growable);
    let r = conn.prepare_call(
        "org.example.ftl",
        "Echo",
        b"null",
        Some(true),
        Some(false),
        Some(true),
    );
    assert_eq!(r, Ok(()));
    let expected = b"{\"method\":\"org.example.ftl.Echo\",\"parameters\":null,\"one_way\":true,\"more\":false,\"upgrade\":true}\0";
    assert_eq!(conn.outgoing(), expected.as_slice());
}

#[test]
fn method_name_is_json_escaped() {
    let mut conn = Connection::new(BufferMode::Growable);
    let r = conn.prepare_call("a\"b", "m\\n", b"0", None, None, None);
    assert_eq!(r, Ok(()));
    assert_eq!(
        conn.outgoing(),
        b"{\"method\":\"a\\\"b.m\\\\n\",\"parameters\":0}\0".as_slice()
    );
    let r = conn.prepare_call("ctl", "\u{1}", b"0", None, None, None);
    assert_eq!(r, Ok(()));
    assert_eq!(
        conn.outgoing(),
        b"{\"method\":\"ctl.\\u0001\",\"parameters\":0}\0".as_slice()
    );
}

#[test]
fn oversized_method_name_overflows_and_transmits_nothing() {
    let mut conn = Connection::new(BufferMode::Growable);
    let interface = "i".repeat(300);
    let r = conn.prepare_call(&interface, "Echo", b"1", None, None, None);
    assert_eq!(r, Err(Error::BufferOverflow));
    assert!(conn.outgoing().is_empty());
}

#[test]
fn method_name_fills_its_buffer_to_the_byte() {
    let mut conn = Connection::new(BufferMode::Growable);
    let interface = "i".repeat(127);
    let method = "m".repeat(METHOD_NAME_BUFFER_SIZE - 128);
    assert_eq!(conn.prepare_call(&interface, &method, b"1", None, None, None), Ok(()));
    let method = "m".repeat(METHOD_NAME_BUFFER_SIZE - 127);
    assert_eq!(
        conn.prepare_call(&interface, &method, b"1", None, None, None),
        Err(Error::BufferOverflow)
    );
    assert!(conn.outgoing().is_empty());
}

#[test]
fn oversized_parameters_fail_serialization_and_transmit_nothing() {
    let mut conn = Connection::new(BufferMode::Growable);
    let params = "9".repeat(1200);
    let r = conn.prepare_call("org.example.ftl", "Echo", params.as_bytes(), None, None, None);
    assert_eq!(r, Err(Error::Serialization));
    assert!(conn.outgoing().is_empty());
}

#[test]
fn parameters_with_nul_fail_serialization() {
    let mut conn = Connection::new(BufferMode::Growable);
    let r = conn.prepare_call("org.example.ftl", "Echo", b"\"a\0b\"", None, None, None);
    assert_eq!(r, Err(Error::Serialization));
    assert!(conn.outgoing().is_empty());
}

#[test]
fn second_call_replaces_the_first() {
    let mut conn = Connection::new(BufferMode::Growable);
    assert_eq!(conn.prepare_call("org.a", "One", b"1", None, None, None), Ok(()));
    assert_eq!(conn.prepare_call("org.b", "Two", b"2", None, None, None), Ok(()));
    assert_eq!(
        conn.outgoing(),
        b"{\"method\":\"org.b.Two\",\"parameters\":2}\0".as_slice()
    );
}

#[test]
fn outgoing_call_decodes_as_json() {
    let mut conn = Connection::new(BufferMode::Growable);
    let params = serde_json::to_vec(&serde_json::Value::Bool(true)).unwrap();
    assert_eq!(conn.prepare_call("org.example.ftl", "Go", &params, Some(true), None, None), Ok(()));
    let out = conn.outgoing();
    assert_eq!(*out.last().unwrap(), 0u8);
    let v: serde_json::Value = serde_json::from_slice(&out[..out.len() - 1]).unwrap();
    assert_eq!(v.get("method").unwrap().as_str().unwrap(), "org.example.ftl.Go");
    assert_eq!(v.get("parameters").unwrap().as_bool().unwrap(), true);
    assert_eq!(v.get("one_way").unwrap().as_bool().unwrap(), true);
    assert!(v.get("more").is_none());
    assert!(v.get("upgrade").is_none());
}

#[test]
fn prepared_call_frames_cleanly_through_a_peer() {
    let mut sender = Connection::new(BufferMode::Growable);
    assert_eq!(sender.prepare_call("org.example.ftl", "Echo", b"{\"x\":1}", None, None, None), Ok(()));
    let wire = sender.outgoing().to_vec();
    let mut receiver = Connection::new(BufferMode::Growable);
    let r = receiver.feed(&wire);
    assert!(matches!(r, Ok(ReadProgress::Complete)));
    assert_eq!(receiver.next_message(), wire[..wire.len() - 1].to_vec());
    assert!(!receiver.message_available());
}
