//! The connection: framing, buffering, and the read cursor.

use vstd::prelude::*;
use vstd::string::StringSliceAdditionalSpecFns;

use crate::error::Error;
use crate::wire;

verus! {

/// Capacity of the write buffer and initial capacity of the read buffer,
/// in bytes. Also the increment by which a growable read buffer extends.
pub const BUFFER_SIZE: usize = 1024;

/// Hard ceiling for the read buffer in the growable discipline.
pub const MAX_BUFFER_SIZE: usize = 1048576;

/// Capacity of the method-name scratch buffer. This buffer never grows,
/// in either discipline.
pub const METHOD_NAME_BUFFER_SIZE: usize = 256;

/// The buffer discipline, chosen once at connection creation.
///
/// - `Fixed`: every buffer keeps its initial capacity forever; anything that
///   would not fit fails with [`Error::BufferOverflow`].
/// - `Growable`: the read buffer may extend in [`BUFFER_SIZE`] increments up
///   to [`MAX_BUFFER_SIZE`]; the write buffer and the method-name buffer stay
///   fixed.
#[derive(Debug, Clone, Copy, PartialEq, Eq, Structural)]
pub enum BufferMode {
    Fixed,
    Growable,
}

/// Outcome of feeding one chunk of received bytes into the read buffer.
#[derive(Debug, Clone, Copy, PartialEq, Eq, Structural)]
pub enum ReadProgress {
    /// The buffer now ends at a message boundary: at least one complete
    /// NUL-terminated message is buffered and can be extracted.
    Complete,
    /// No boundary yet; more bytes must be read from the transport.
    NeedMore,
}

/// The framing and buffering engine of one connection.
///
/// It owns a write buffer for the outgoing message, a read buffer holding
/// received bytes, a read cursor marking the start of the next undelivered
/// message, and a method-name scratch buffer. The transport that carries the
/// bytes lives outside this crate: received chunks come in through
/// [`Connection::feed`], and the encoded call goes out through
/// [`Connection::outgoing`].
pub struct Connection {
    /// The buffer discipline.
    pub mode: BufferMode,
    /// Received bytes. Its length is the current capacity; only the prefix
    /// up to `fill` holds received data, with a NUL sentinel at `fill`.
    pub read_buffer: Vec<u8>,
    /// Offset of the start of the next undelivered message, or 0.
    pub read_pos: usize,
    /// Number of received bytes currently buffered.
    pub fill: usize,
    /// The encoded outgoing message, including its NUL terminator.
    pub write_buffer: Vec<u8>,
    /// Scratch space for the fully qualified method name.
    pub method_name_buffer: Vec<u8>,
}

impl Connection {
    /// Current capacity of the read buffer.
    pub open spec fn cap(self) -> int {
        self.read_buffer@.len() as int
    }

    /// A complete batch of messages is buffered and not yet fully consumed:
    /// the received data ends with a message-terminating NUL, the sentinel
    /// just past it makes the double-NUL batch end, and the cursor still
    /// points at the start of an unconsumed message.
    pub open spec fn batch_ready(self) -> bool {
        &&& 0 < self.fill
        &&& self.fill < self.read_buffer@.len()
        &&& self.read_buffer@[self.fill as int] == 0
        &&& self.read_buffer@[self.fill - 1] == 0
        &&& self.read_pos < self.fill
    }

    /// Well-formedness, established by [`Connection::new`] and preserved by
    /// every operation: capacities respect the chosen discipline, the fill
    /// level leaves room for the sentinel, and a nonzero cursor always marks
    /// the start of a complete, framed message already in the buffer.
    pub open spec fn wf(self) -> bool {
        &&& BUFFER_SIZE <= self.read_buffer@.len()
        &&& (self.mode is Fixed ==> self.read_buffer@.len() == BUFFER_SIZE)
        &&& self.read_buffer@.len() <= MAX_BUFFER_SIZE
        &&& self.fill < self.read_buffer@.len()
        &&& self.read_pos <= self.fill
        &&& (self.fill == 0 ==> self.read_pos == 0)
        &&& (self.read_pos > 0 ==> self.batch_ready())
        &&& self.method_name_buffer@.len() <= METHOD_NAME_BUFFER_SIZE
        &&& self.write_buffer@.len() <= BUFFER_SIZE
    }

    /// Create a connection with empty, pre-allocated buffers.
    pub fn new(mode: BufferMode) -> (c: Connection)
        ensures
            c.wf(),
            c.mode == mode,
            c.read_pos == 0,
            c.fill == 0,
            c.cap() == BUFFER_SIZE,
            c.write_buffer@.len() == 0,
            c.method_name_buffer@.len() == 0,
    {
        let mut read_buffer: Vec<u8> = Vec::new();
        read_buffer.resize(BUFFER_SIZE, 0u8);
        Connection {
            mode,
            read_buffer,
            read_pos: 0,
            fill: 0,
            write_buffer: Vec::new(),
            method_name_buffer: Vec::new(),
        }
    }

    /// Current capacity of the read buffer, in bytes.
    pub fn capacity(&self) -> (n: usize)
        ensures
            n == self.cap(),
    {
        self.read_buffer.len()
    }

    /// Whether a complete, not yet consumed message is buffered. While this
    /// holds, [`Connection::next_message`] delivers the next message without
    /// any transport read; once it no longer holds, fresh bytes must be fed
    /// in first.
    pub fn message_available(&self) -> (r: bool)
        requires
            self.wf(),
        ensures
            r == self.batch_ready(),
    {
        0 < self.fill && self.read_buffer[self.fill] == 0 && self.read_buffer[self.fill - 1] == 0
            && self.read_pos < self.fill
    }

    /// Build `interface`, `.`, `method` into the method-name scratch buffer.
    /// Fails with `BufferOverflow` exactly when the combined name does not
    /// fit the buffer's fixed capacity, leaving the buffer as it was.
    fn push_method_name(&mut self, interface: &str, method: &str) -> (r: Result<(), Error>)
        requires
            old(self).wf(),
        ensures
            final(self).wf(),
            final(self).mode == old(self).mode,
            final(self).read_buffer@ == old(self).read_buffer@,
            final(self).read_pos == old(self).read_pos,
            final(self).fill == old(self).fill,
            final(self).write_buffer@ == old(self).write_buffer@,
            ({
                let name = interface.spec_bytes() + seq![46u8] + method.spec_bytes();
                if name.len() <= METHOD_NAME_BUFFER_SIZE {
                    &&& r is Ok
                    &&& final(self).method_name_buffer@ == name
                } else {
                    &&& r == Err::<(), Error>(Error::BufferOverflow)
                    &&& final(self).method_name_buffer@ == old(self).method_name_buffer@
                }
            }),
    {
        let ib = interface.as_bytes();
        let mb = method.as_bytes();
        let il = ib.len();
        let ml = mb.len();
        if il >= METHOD_NAME_BUFFER_SIZE {
            return Err(Error::BufferOverflow);
        }
        if ml > METHOD_NAME_BUFFER_SIZE - 1 - il {
            return Err(Error::BufferOverflow);
        }
        self.method_name_buffer.clear();
        self.method_name_buffer.extend_from_slice(ib);
        self.method_name_buffer.push(46);
        self.method_name_buffer.extend_from_slice(mb);
        proof {
            assert(self.method_name_buffer@ =~= interface.spec_bytes() + seq![46u8]
                + method.spec_bytes());
        }
        Ok(())
    }

    /// Encode one framed call into the write buffer, ready to transmit.
    ///
    /// Builds the fully qualified method name `interface` + `.` + `method`
    /// into the method-name scratch buffer, then the complete call document
    /// with its single NUL terminator into the write buffer. `parameters` is
    /// the caller's already-encoded JSON parameter value, inserted verbatim.
    ///
    /// Fails with `BufferOverflow` exactly when the combined name does not
    /// fit the method-name buffer, and with `Serialization` exactly when the
    /// parameter bytes hold a NUL byte (which the framing cannot carry) or
    /// the terminated document does not fit the write buffer. On failure the
    /// write buffer is left empty, so nothing is transmitted.
    pub fn prepare_call(
        &mut self,
        interface: &str,
        method: &str,
        parameters: &[u8],
        one_way: Option<bool>,
        more: Option<bool>,
        upgrade: Option<bool>,
    ) -> (r: Result<(), Error>)
        requires
            old(self).wf(),
        ensures
            final(self).wf(),
            final(self).mode == old(self).mode,
            final(self).read_buffer@ == old(self).read_buffer@,
            final(self).read_pos == old(self).read_pos,
            final(self).fill == old(self).fill,
            ({
                let name = interface.spec_bytes() + seq![46u8] + method.spec_bytes();
                let doc = wire::call_document(name, parameters@, one_way, more, upgrade);
                if name.len() > METHOD_NAME_BUFFER_SIZE {
                    &&& r == Err::<(), Error>(Error::BufferOverflow)
                    &&& final(self).write_buffer@.len() == 0
                    &&& final(self).method_name_buffer@ == old(self).method_name_buffer@
                } else if !wire::nul_free(parameters@) || doc.len() + 1 > BUFFER_SIZE {
                    &&& r == Err::<(), Error>(Error::Serialization)
                    &&& final(self).write_buffer@.len() == 0
                    &&& final(self).method_name_buffer@ == name
                } else {
                    &&& r is Ok
                    &&& final(self).method_name_buffer@ == name
                    &&& final(self).write_buffer@ == doc + seq![0u8]
                }
            }),
    {
        self.write_buffer.clear();
        match self.push_method_name(interface, method) {
            Err(e) => {
                return Err(e);
            },
            Ok(()) => {},
        }
        match wire::find_byte(0, parameters) {
            Some(_) => {
                return Err(Error::Serialization);
            },
            None => {},
        }
        wire::build_document(
            &mut self.write_buffer,
            self.method_name_buffer.as_slice(),
            parameters,
            one_way,
            more,
            upgrade,
        );
        if self.write_buffer.len() > BUFFER_SIZE - 1 {
            self.write_buffer.clear();
            return Err(Error::Serialization);
        }
        self.write_buffer.push(0);
        Ok(())
    }

    /// The encoded outgoing message: the call document followed by its NUL
    /// terminator. The transport must send exactly these bytes.
    pub fn outgoing(&self) -> (r: &[u8])
        ensures
            r@ == self.write_buffer@,
    {
        self.write_buffer.as_slice()
    }

    /// Record `chunk`, the bytes of one transport read, into the read buffer
    /// and say whether a message boundary has been reached.
    ///
    /// A NUL sentinel is kept just past the received bytes; the boundary is
    /// reached exactly when the chunk ends with a NUL, which makes the
    /// sentinel the second NUL of the batch terminator. This assumes the
    /// transport delivers whole batches: a terminator that arrives in the
    /// middle of a chunk, with the next message's opening bytes after it,
    /// goes unreported until some later chunk ends at a boundary — the
    /// framing stays exact either way. When the bytes do
    /// not fit: in the growable discipline the buffer extends in
    /// [`BUFFER_SIZE`] increments and only data past [`MAX_BUFFER_SIZE`]
    /// fails with `BufferOverflow`; in the fixed discipline anything past
    /// [`BUFFER_SIZE`] fails with `BufferOverflow` at once, with no growth.
    /// On failure the connection is unchanged, consistent for a retry.
    ///
    /// A transport read delivers at least one byte or fails, so `chunk` is
    /// never empty.
    pub fn feed(&mut self, chunk: &[u8]) -> (r: Result<ReadProgress, Error>)
        requires
            old(self).wf(),
            !old(self).batch_ready(),
            chunk@.len() >= 1,
        ensures
            final(self).wf(),
            final(self).mode == old(self).mode,
            final(self).write_buffer@ == old(self).write_buffer@,
            final(self).method_name_buffer@ == old(self).method_name_buffer@,
            ({
                let limit = if old(self).mode is Fixed {
                    BUFFER_SIZE as int
                } else {
                    MAX_BUFFER_SIZE as int
                };
                let needed = old(self).fill + chunk@.len() + 1;
                if needed > limit {
                    &&& r == Err::<ReadProgress, Error>(Error::BufferOverflow)
                    &&& *final(self) == *old(self)
                } else {
                    &&& r is Ok
                    &&& final(self).fill == old(self).fill + chunk@.len()
                    &&& final(self).read_pos == 0
                    &&& final(self).read_buffer@.subrange(0, old(self).fill as int) == old(self).read_buffer@.subrange(0, old(self).fill as int)
                    &&& final(self).read_buffer@.subrange(old(self).fill as int, needed - 1)
                        == chunk@
                    &&& final(self).read_buffer@[needed - 1] == 0
                    &&& (needed <= old(self).cap() ==> final(self).cap() == old(self).cap())
                    &&& (needed > old(self).cap() ==> old(self).cap() < final(self).cap()
                        < needed + BUFFER_SIZE)
                    &&& (r == Ok::<ReadProgress, Error>(ReadProgress::Complete) <==> chunk@[
                        chunk@.len() - 1
                    ] == 0)
                    &&& (r == Ok::<ReadProgress, Error>(ReadProgress::Complete) <==> final(self).batch_ready())
                }
            }),
    {
        let len = chunk.len();
        let limit = match self.mode {
            BufferMode::Fixed => BUFFER_SIZE,
            BufferMode::Growable => MAX_BUFFER_SIZE,
        };
        if len > limit - self.fill - 1 {
            return Err(Error::BufferOverflow);
        }
        let needed = self.fill + len + 1;
        while self.read_buffer.len() < needed
            invariant
                needed <= MAX_BUFFER_SIZE,
                self.mode is Fixed ==> needed <= BUFFER_SIZE,
                self.mode == old(self).mode,
                self.read_pos == old(self).read_pos,
                self.fill == old(self).fill,
                self.write_buffer@ == old(self).write_buffer@,
                self.method_name_buffer@ == old(self).method_name_buffer@,
                old(self).wf(),
                BUFFER_SIZE <= self.read_buffer@.len() <= MAX_BUFFER_SIZE,
                self.mode is Fixed ==> self.read_buffer@.len() == BUFFER_SIZE,
                old(self).cap() <= self.cap(),
                self.cap() == old(self).cap() || self.cap() < needed + BUFFER_SIZE,
                needed <= old(self).cap() ==> self.cap() == old(self).cap(),
                self.read_buffer@.subrange(0, old(self).cap())
                    == old(self).read_buffer@,
            decreases
                    (if self.read_buffer@.len() < needed {
                        needed - self.read_buffer@.len()
                    } else {
                        0int
                    }),
        {
            let mut nl = self.read_buffer.len() + BUFFER_SIZE;
            if nl > MAX_BUFFER_SIZE {
                nl = MAX_BUFFER_SIZE;
            }
            let ghost pre = self.read_buffer@;
            self.read_buffer.resize(nl, 0);
            proof {
                assert(self.read_buffer@.subrange(0, pre.len() as int) =~= pre);
                assert(self.read_buffer@.subrange(0, old(self).cap()) =~= pre.subrange(
                    0,
                    old(self).cap(),
                ));
            }
        }
        let ghost grown = self.read_buffer@;
        let mut i: usize = 0;
        while i < len
            invariant
                i <= len,
                len == chunk@.len(),
                needed == self.fill + len + 1,
                needed <= self.read_buffer@.len(),
                self.mode == old(self).mode,
                self.read_pos == old(self).read_pos,
                self.fill == old(self).fill,
                self.write_buffer@ == old(self).write_buffer@,
                self.method_name_buffer@ == old(self).method_name_buffer@,
                old(self).wf(),
                self.read_buffer@.len() == grown.len(),
                self.read_buffer@.subrange(0, self.fill as int) == grown.subrange(
                    0,
                    self.fill as int,
                ),
                forall|j: int| 0 <= j < i ==> self.read_buffer@[self.fill + j] == chunk@[j],
            decreases len - i,
        {
            let k = self.fill + i;
            self.read_buffer[k] = chunk[i];
            proof {
                assert(self.read_buffer@.subrange(0, self.fill as int) =~= grown.subrange(
                    0,
                    self.fill as int,
                ));
            }
            i = i + 1;
        }
        let end = self.fill + len;
        self.read_buffer[end] = 0;
        let complete = self.read_buffer[end - 1] == 0;
        proof {
            let of = self.fill as int;
            assert(grown.subrange(0, old(self).cap()) == old(self).read_buffer@);
            assert forall|j: int| 0 <= j < of implies self.read_buffer@[j] == old(
                self,
            ).read_buffer@[j] by {
                assert(self.read_buffer@.subrange(0, of)[j] == grown.subrange(0, of)[j]);
                assert(grown.subrange(0, old(self).cap())[j] == grown[j]);
            }
            assert(self.read_buffer@.subrange(0, of) =~= old(self).read_buffer@.subrange(0, of));
            assert(self.read_buffer@.subrange(of, needed - 1) =~= chunk@);
            assert(self.read_buffer@[of + len - 1] == chunk@[len - 1]);
        }
        self.fill = end;
        if complete {
            Ok(ReadProgress::Complete)
        } else {
            Ok(ReadProgress::NeedMore)
        }
    }

    /// Extract the next framed message: the bytes from the read cursor up to
    /// (excluding) the first NUL terminator at or after it.
    ///
    /// When the byte just past that terminator is also NUL, the batch is
    /// fully consumed: the cursor and the fill level reset to 0, and the
    /// next message needs fresh transport reads. Otherwise the cursor
    /// advances to just past the terminator, where the next buffered message
    /// starts, still available without further reads.
    pub fn next_message(&mut self) -> (msg: Vec<u8>)
        requires
            old(self).wf(),
            old(self).batch_ready(),
        ensures
            final(self).wf(),
            final(self).mode == old(self).mode,
            final(self).read_buffer@ == old(self).read_buffer@,
            final(self).write_buffer@ == old(self).write_buffer@,
            final(self).method_name_buffer@ == old(self).method_name_buffer@,
            ({
                let n = wire::first_nul(old(self).read_buffer@, old(self).read_pos as int);
                &&& old(self).read_pos <= n < old(self).fill
                &&& msg@ == old(self).read_buffer@.subrange(old(self).read_pos as int, n)
                &&& if old(self).read_buffer@[n + 1] == 0 {
                    final(self).read_pos == 0 && final(self).fill == 0 && !final(self).batch_ready()
                } else {
                    final(self).read_pos == n + 1 && final(self).fill == old(self).fill && final(self).batch_ready()
                }
            }),
    {
        let cap = self.read_buffer.len();
        let tail = vstd::slice::slice_subrange(self.read_buffer.as_slice(), self.read_pos, cap);
        let i = match wire::find_byte(0, tail) {
            Some(i) => i,
            None => {
                proof {
                    assert(tail@[self.fill - self.read_pos] == 0);
                }
                vstd::pervasive::unreached()
            },
        };
        let n = self.read_pos + i;
        proof {
            assert(self.read_buffer@[n as int] == 0);
            assert forall|j: int| self.read_pos <= j < n implies self.read_buffer@[j] != 0 by {
                assert(tail@[j - self.read_pos] != 0);
            }
            wire::lemma_first_nul_exact(self.read_buffer@, self.read_pos as int, n as int);
            if n >= self.fill {
                assert(tail@[self.fill - 1 - self.read_pos] == self.read_buffer@[self.fill - 1]);
                assert(false);
            }
        }
        let msg = vstd::slice::slice_to_vec(
            vstd::slice::slice_subrange(self.read_buffer.as_slice(), self.read_pos, n),
        );
        if self.read_buffer[n + 1] == 0 {
            self.read_pos = 0;
            self.fill = 0;
        } else {
            self.read_pos = n + 1;
        }
        msg
    }
}

/// A successful method call reply, decoded from one framed document.
#[derive(Debug)]
pub struct Reply<Params> {
    /// The decoded parameter value of the reply.
    pub parameters: Params,
    /// Whether more replies will follow for the same call.
    pub continues: Option<bool>,
}

impl<Params> Reply<Params> {
    /// Assemble a reply from its decoded parts.
    pub fn new(parameters: Params, continues: Option<bool>) -> (r: Reply<Params>)
        ensures
            r.parameters == parameters,
            r.continues == continues,
    {
        Reply { parameters, continues }
    }

    /// The parameters of the reply.
    pub fn parameters(&self) -> (r: &Params)
        ensures
            r == &self.parameters,
    {
        &self.parameters
    }

    /// If there are more replies to come.
    pub fn continues(&self) -> (r: Option<bool>)
        ensures
            r == self.continues,
    {
        self.continues
    }
}

} // verus!
