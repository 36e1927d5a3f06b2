//! In-order delivery of a batch of framed messages.

use vstd::prelude::*;

use crate::connection::Connection;
use crate::wire::{first_nul, wire_message};

verus! {

/// The encoding of a batch: each message followed by its NUL terminator.
pub open spec fn batch_encoding(msgs: Seq<Seq<u8>>) -> Seq<u8>
    decreases msgs.len(),
{
    if msgs.len() == 0 {
        Seq::empty()
    } else {
        msgs[0] + seq![0u8] + batch_encoding(msgs.drop_first())
    }
}

/// The offset at which message `k` starts within the encoding of its batch.
pub open spec fn batch_offset(msgs: Seq<Seq<u8>>, k: int) -> int
    decreases k,
{
    if k <= 0 {
        0
    } else {
        batch_offset(msgs, k - 1) + msgs[k - 1].len() + 1
    }
}

/// Offsets into a batch shift by the first message's framed length when
/// that message is dropped.
proof fn lemma_batch_offset_shift(msgs: Seq<Seq<u8>>, k: int)
    requires
        1 <= k <= msgs.len(),
    ensures
        batch_offset(msgs, k) == msgs[0].len() + 1 + batch_offset(msgs.drop_first(), k - 1),
    decreases k,
{
    if k == 1 {
        assert(batch_offset(msgs, 0) == 0);
        assert(batch_offset(msgs.drop_first(), 0) == 0);
    } else {
        lemma_batch_offset_shift(msgs, k - 1);
        assert(msgs.drop_first()[k - 2] == msgs[k - 1]);
    }
}

/// The encoding of a batch is exactly as long as the offset just past its
/// last message's terminator.
pub proof fn lemma_batch_encoding_len(msgs: Seq<Seq<u8>>)
    ensures
        batch_encoding(msgs).len() == batch_offset(msgs, msgs.len() as int),
    decreases msgs.len(),
{
    if msgs.len() > 0 {
        lemma_batch_encoding_len(msgs.drop_first());
        lemma_batch_offset_shift(msgs, msgs.len() as int);
    }
}

/// Within the encoding of a batch, message `k` stands verbatim at its
/// offset, followed by its NUL terminator.
pub proof fn lemma_batch_message_bytes(msgs: Seq<Seq<u8>>, k: int)
    requires
        0 <= k < msgs.len(),
    ensures
        ({
            let enc = batch_encoding(msgs);
            let off = batch_offset(msgs, k);
            &&& 0 <= off
            &&& off + msgs[k].len() + 1 <= enc.len()
            &&& enc.subrange(off, off + msgs[k].len()) == msgs[k]
            &&& enc[off + msgs[k].len()] == 0
        }),
    decreases k,
{
    let enc = batch_encoding(msgs);
    let off = batch_offset(msgs, k);
    if k == 0 {
        assert(enc.subrange(0, msgs[0].len() as int) =~= msgs[0]);
    } else {
        lemma_batch_message_bytes(msgs.drop_first(), k - 1);
        lemma_batch_offset_shift(msgs, k);
        assert(msgs.drop_first()[k - 1] == msgs[k]);
        let encd = batch_encoding(msgs.drop_first());
        let offd = batch_offset(msgs.drop_first(), k - 1);
        assert forall|j: int| 0 <= j < msgs[k].len() implies enc[off + j] == msgs[k][j] by {
            assert(enc[off + j] == encd[offd + j]);
            assert(encd.subrange(offd, offd + msgs[k].len())[j] == encd[offd + j]);
        }
        assert(enc.subrange(off, off + msgs[k].len()) =~= msgs[k]);
        assert(enc[off + msgs[k].len()] == encd[offd + msgs[k].len()]);
    }
}

/// In-order delivery of a batched read.
///
/// When the read buffer holds the encoding of a batch of wire messages,
/// with the sentinel NUL just past it, and the cursor stands at the start
/// of message `k`, then the bytes from the cursor up to the first NUL at
/// or after it — exactly what [`Connection::next_message`] returns and how
/// it moves the cursor — are message `k` itself; afterwards the cursor
/// stands at the start of message `k + 1`, and it returns to 0 exactly
/// when message `k` was the last of the batch.
pub proof fn lemma_batch_in_order(c: Connection, msgs: Seq<Seq<u8>>, k: int)
    requires
        c.wf(),
        0 <= k < msgs.len(),
        forall|i: int| 0 <= i < msgs.len() ==> wire_message(#[trigger] msgs[i]),
        c.fill == batch_encoding(msgs).len(),
        c.read_buffer@.subrange(0, c.fill as int) == batch_encoding(msgs),
        c.read_buffer@[c.fill as int] == 0,
        c.read_pos == batch_offset(msgs, k),
    ensures
        ({
            let n = first_nul(c.read_buffer@, c.read_pos as int);
            &&& n == c.read_pos + msgs[k].len()
            &&& c.read_buffer@.subrange(c.read_pos as int, n) == msgs[k]
            &&& (k < msgs.len() - 1 ==> c.read_buffer@[n + 1] != 0 && n + 1 == batch_offset(
                msgs,
                k + 1,
            ))
            &&& (k == msgs.len() - 1 ==> c.read_buffer@[n + 1] == 0)
        }),
{
    let buf = c.read_buffer@;
    let enc = batch_encoding(msgs);
    let fill = c.fill as int;
    let off = batch_offset(msgs, k);
    let len_k = msgs[k].len() as int;
    lemma_batch_message_bytes(msgs, k);
    assert forall|j: int| 0 <= j < fill implies buf[j] == enc[j] by {
        assert(buf.subrange(0, fill)[j] == buf[j]);
    }
    assert forall|j: int| off <= j < off + len_k implies buf[j] != 0 by {
        assert(enc.subrange(off, off + len_k)[j - off] == enc[j]);
        assert(msgs[k][j - off] != 0);
    }
    assert(buf[off + len_k] == 0);
    crate::wire::lemma_first_nul_exact(buf, off, off + len_k);
    let n = off + len_k;
    assert(buf.subrange(off, n) =~= msgs[k]);
    if k < msgs.len() - 1 {
        lemma_batch_message_bytes(msgs, k + 1);
        let off1 = batch_offset(msgs, k + 1);
        assert(off1 == n + 1);
        assert(enc.subrange(off1, off1 + msgs[k + 1].len())[0] == enc[off1]);
        assert(enc[off1] == msgs[k + 1][0]);
        assert(msgs[k + 1][0] != 0);
    } else {
        lemma_batch_encoding_len(msgs);
        assert(n + 1 == fill);
    }
}

} // verus!
