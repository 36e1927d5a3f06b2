use zarlink::connection::Reply;
use zarlink::error::Error;

#[test]
fn reply_keeps_its_parts() {
    let reply = Reply::new(5u32, Some(true));
    assert_eq!(*reply.parameters(), 5u32);
    assert_eq!(reply.continues(), Some(true));
    let reply: Reply<Option<u8>> = Reply::new(None, None);
    assert!(reply.parameters().is_none());
    assert_eq!(reply.continues(), None);
}

#[test]
fn error_conditions_are_distinct() {
    assert_eq!(Error::BufferOverflow, Error::BufferOverflow);
    assert_ne!(Error::BufferOverflow, Error::Serialization);
    assert_ne!(Error::Serialization, Error::Deserialization);
    assert_ne!(Error::Deserialization, Error::Transport);
}
