//! Client-side transport core of a message-oriented RPC protocol.
//!
//! Method calls and their replies travel as single-line JSON documents, each
//! followed by one NUL byte, over an arbitrary bidirectional byte stream.
//! This crate owns the framing and buffering engine: it turns a byte stream
//! that may deliver partial messages, several concatenated messages, or
//! pipelined reply batches into a sequence of individually decodable JSON
//! documents, using a bounded working buffer that either stays at a fixed
//! capacity or grows in fixed increments up to a hard ceiling.
//!
//! The transport itself (sockets, async I/O) and the typed JSON codec sit
//! outside this crate; callers hand in and receive plain bytes.

pub mod batch;
pub mod connection;
pub mod error;
pub mod wire;

pub use connection::Connection;
pub use error::Error;
