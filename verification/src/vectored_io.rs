//! Batched writes and framing for vectored I/O: splitting data into
//! chunks, collecting buffers into batches, encoding message batches and
//! splitting a byte stream into length-prefixed messages.

use vstd::prelude::*;
use bytes::{Bytes, BytesMut};
use vstd::string::StringSliceAdditionalSpecFns;
use vstd::utf8::{decode_utf8, valid_utf8};
use crate::bufs::{
    bytes_as_slice, bytes_mut_advance, bytes_mut_as_slice, bytes_mut_clear, bytes_mut_extend_from_slice,
    bytes_mut_freeze, bytes_mut_split, bytes_mut_split_to, bytes_mut_view, bytes_mut_with_capacity, bytes_view,
};
use crate::codec::{be_u32_bytes, be_u32_value, read_u32_be};
use crate::message::{announced_len, Message};
use crate::text::{decimal, push_decimal, string_push, string_push_str};

verus! {

/// The `i`-th chunk of `data` cut into pieces of `size` bytes (the last
/// one shorter if need be).
pub open spec fn chunk_of(data: Seq<u8>, size: int, i: int) -> Seq<u8> {
    let end = if (i + 1) * size < data.len() { (i + 1) * size } else { data.len() as int };
    data.subrange(i * size, end)
}

/// The number of chunks of `size` bytes that `len` bytes make.
pub open spec fn chunk_count(len: int, size: int) -> int {
    (len + size - 1) / size
}

/// Cuts `data` into consecutive chunks of `max_chunk_size` bytes, the last
/// one possibly shorter.
pub fn split_for_vectored_io(data: &[u8], max_chunk_size: usize) -> (r: Vec<&[u8]>)
    requires
        max_chunk_size > 0,
    ensures
        r@.len() == chunk_count(data@.len() as int, max_chunk_size as int),
        forall|i: int| 0 <= i < r@.len() ==> (#[trigger] r@[i])@ == chunk_of(data@, max_chunk_size as int, i),
{
    let n = data.len();
    let mut r: Vec<&[u8]> = Vec::new();
    let mut start: usize = 0;
    let ghost mut k: int = 0;
    proof {
        if n == 0 {
            assert(chunk_count(0, max_chunk_size as int) == 0) by (nonlinear_arith)
                requires
                    max_chunk_size > 0,
            ;
        }
    }
    while start < n
        invariant
            n == data@.len(),
            max_chunk_size > 0,
            start <= n,
            r@.len() == k,
            start < n ==> start == k * max_chunk_size,
            start == n ==> k == chunk_count(n as int, max_chunk_size as int),
            forall|i: int| 0 <= i < r@.len() ==> (#[trigger] r@[i])@ == chunk_of(data@, max_chunk_size as int, i),
        decreases n - start,
    {
        let end = if n - start > max_chunk_size { start + max_chunk_size } else { n };
        let piece = &data[start..end];
        proof {
            assert(piece@ =~= data@.subrange(start as int, end as int));
            assert((k + 1) * max_chunk_size == k * max_chunk_size + max_chunk_size) by (nonlinear_arith);
        }
        r.push(piece);
        proof {
            if end < n {
                assert(end == (k + 1) * max_chunk_size);
            } else {
                assert(chunk_count(n as int, max_chunk_size as int) == k + 1) by (nonlinear_arith)
                    requires
                        start == k * max_chunk_size,
                        start < n,
                        n <= start + max_chunk_size,
                        max_chunk_size > 0,
                ;
            }
        }
        start = end;
        proof {
            k = k + 1;
        }
    }
    r
}

/// The suggested read buffer size, write buffer size and number of
/// buffers per vectored write: 8192, 32768 and 16.
pub fn calculate_optimal_buffer_sizes() -> (r: (usize, usize, usize))
    ensures
        r == (8192usize, 32768usize, 16usize),
{
    (8192, 32768, 16)
}

/// Buffers collected for one vectored write, with their total size and the
/// limits that call for a flush.
pub struct WriteBatch {
    buffers: Vec<Bytes>,
    total_size: usize,
    max_batch_size: usize,
    max_batch_count: usize,
}

/// The total length of a list of buffers.
pub open spec fn total_len(bs: Seq<Bytes>) -> int
    decreases bs.len(),
{
    if bs.len() == 0 {
        0
    } else {
        total_len(bs.drop_last()) + bytes_view(bs.last()).len()
    }
}

impl WriteBatch {
    /// The pending buffers, oldest first.
    pub closed spec fn pending(&self) -> Seq<Bytes> {
        self.buffers@
    }

    /// The flush limits: total size and number of buffers.
    pub closed spec fn limits(&self) -> (usize, usize) {
        (self.max_batch_size, self.max_batch_count)
    }

    /// The running total size equals the pending buffers' total length.
    pub closed spec fn wf(&self) -> bool {
        self.total_size == total_len(self.buffers@)
    }

    /// An empty batch flushed at 64 KiB or 16 buffers.
    pub fn new() -> (b: WriteBatch)
        ensures
            b.wf(),
            b.pending().len() == 0,
            b.limits() == (65536usize, 16usize),
    {
        WriteBatch::with_limits(64 * 1024, 16)
    }

    /// An empty batch with the given flush limits.
    pub fn with_limits(max_batch_size: usize, max_batch_count: usize) -> (b: WriteBatch)
        ensures
            b.wf(),
            b.pending().len() == 0,
            b.limits() == (max_batch_size, max_batch_count),
    {
        WriteBatch { buffers: Vec::new(), total_size: 0, max_batch_size, max_batch_count }
    }

    /// Adds a buffer; answers whether the batch has reached a limit and is
    /// to be flushed.
    pub fn add_buffer(&mut self, buffer: Bytes) -> (flush: bool)
        requires
            old(self).wf(),
            total_len(old(self).pending()) + bytes_view(buffer).len() <= usize::MAX,
        ensures
            final(self).wf(),
            final(self).pending() == old(self).pending().push(buffer),
            final(self).limits() == old(self).limits(),
            flush == (final(self).pending().len() >= final(self).limits().1
                || total_len(final(self).pending()) >= final(self).limits().0),
    {
        let len = bytes_as_slice(&buffer).len();
        self.total_size = self.total_size + len;
        let ghost before = self.buffers@;
        self.buffers.push(buffer);
        proof {
            assert(self.buffers@.drop_last() =~= before);
        }
        self.buffers.len() >= self.max_batch_count || self.total_size >= self.max_batch_size
    }

    /// Takes all pending buffers, oldest first, leaving the batch empty.
    pub fn take_batch(&mut self) -> (bs: Vec<Bytes>)
        ensures
            final(self).wf(),
            bs@ == old(self).pending(),
            final(self).pending().len() == 0,
            final(self).limits() == old(self).limits(),
    {
        let mut bs: Vec<Bytes> = Vec::new();
        std::mem::swap(&mut bs, &mut self.buffers);
        self.total_size = 0;
        bs
    }

    /// The number of pending buffers.
    pub fn pending_count(&self) -> (n: usize)
        ensures
            n == self.pending().len(),
    {
        self.buffers.len()
    }

    /// The total size of the pending buffers.
    pub fn pending_size(&self) -> (n: usize)
        requires
            self.wf(),
        ensures
            n == total_len(self.pending()),
    {
        self.total_size
    }
}

/// What lossy UTF-8 decoding of some bytes gives.
pub uninterp spec fn lossy_text_of(bytes: Seq<u8>) -> Seq<char>;

/// `String::from_utf8_lossy(..).into_owned()`: the bytes decoded as UTF-8,
/// each invalid sequence replaced by U+FFFD; valid UTF-8 decodes exactly.
#[verifier::external_body]
pub(crate) fn utf8_lossy(bytes: &[u8]) -> (s: String)
    ensures
        s@ == lossy_text_of(bytes@),
        valid_utf8(bytes@) ==> s@ == decode_utf8(bytes@),
{
    String::from_utf8_lossy(bytes).into_owned()
}

/// The text a message is encoded as in a batch: id, timestamp and payload
/// (decoded lossily), separated by colons.
pub open spec fn message_text(id: u64, timestamp: u64, payload: Seq<u8>) -> Seq<char> {
    decimal(id as nat) + seq![':'] + decimal(timestamp as nat) + seq![':'] + lossy_text_of(payload)
}

/// The length-prefixed record of a text: its UTF-8 length as four
/// big-endian bytes (cut to 32 bits), then its UTF-8 bytes.
pub open spec fn text_record(text: Seq<char>) -> Seq<u8> {
    be_u32_bytes(vstd::utf8::encode_utf8(text).len() as u32) + vstd::utf8::encode_utf8(text)
}

/// Encodes batches of messages into one buffer of length-prefixed records.
pub struct OptimizedEncoder {
    buffer: BytesMut,
}

impl OptimizedEncoder {
    /// The bytes in the encoder's buffer.
    pub closed spec fn pending(&self) -> Seq<u8> {
        bytes_mut_view(self.buffer)
    }

    /// An encoder with an empty buffer.
    pub fn new() -> (e: OptimizedEncoder)
        ensures
            e.pending() == Seq::<u8>::empty(),
    {
        OptimizedEncoder { buffer: bytes_mut_with_capacity(4096) }
    }

    /// The record of one message, appended to the buffer.
    fn encode_single_message(&mut self, message: &Message)
        requires
            bytes_mut_view(old(self).buffer).len() + 4 + vstd::utf8::encode_utf8(
                message_text(message.id, message.timestamp, bytes_view(message.payload))).len() <= isize::MAX,
        ensures
            bytes_mut_view(final(self).buffer) == bytes_mut_view(old(self).buffer)
                + text_record(message_text(message.id, message.timestamp, bytes_view(message.payload))),
    {
        let mut text = String::new();
        push_decimal(&mut text, message.id);
        string_push(&mut text, ':');
        push_decimal(&mut text, message.timestamp);
        string_push(&mut text, ':');
        let payload = utf8_lossy(bytes_as_slice(&message.payload));
        string_push_str(&mut text, payload.as_str());
        proof {
            assert(text@ =~= message_text(message.id, message.timestamp, bytes_view(message.payload)));
        }
        let data = text.as_str().as_bytes();
        let mut prefix: Vec<u8> = Vec::new();
        crate::codec::push_u32_be(&mut prefix, data.len() as u32);
        proof {
            assert(prefix@ =~= be_u32_bytes(data@.len() as u32));
        }
        bytes_mut_extend_from_slice(&mut self.buffer, prefix.as_slice());
        bytes_mut_extend_from_slice(&mut self.buffer, data);
        proof {
            assert(bytes_mut_view(self.buffer) =~= bytes_mut_view(old(self).buffer)
                + text_record(message_text(message.id, message.timestamp, bytes_view(message.payload))));
        }
    }

    /// The records of `messages`, in order, as one buffer; the encoder's
    /// buffer is left empty.
    pub fn encode_message_batch(&mut self, messages: &[&Message]) -> (out: Bytes)
        requires
            batch_records(messages@).len() <= isize::MAX,
        ensures
            bytes_view(out) == batch_records(messages@),
            final(self).pending() == Seq::<u8>::empty(),
    {
        bytes_mut_clear(&mut self.buffer);
        let mut i: usize = 0;
        while i < messages.len()
            invariant
                i <= messages@.len(),
                batch_records(messages@).len() <= isize::MAX,
                bytes_mut_view(self.buffer) == batch_records(messages@.subrange(0, i as int)),
            decreases messages@.len() - i,
        {
            let ghost pre = messages@.subrange(0, i as int);
            let ghost next = messages@.subrange(0, i + 1);
            proof {
                assert(next.drop_last() =~= pre);
                lemma_batch_prefix_le(messages@, i + 1);
            }
            self.encode_single_message(messages[i]);
            i = i + 1;
        }
        proof {
            assert(messages@.subrange(0, messages@.len() as int) =~= messages@);
        }
        let out = bytes_mut_split(&mut self.buffer);
        bytes_mut_freeze(out)
    }

    /// Empties the encoder's buffer.
    pub fn clear(&mut self)
        ensures
            final(self).pending() == Seq::<u8>::empty(),
    {
        bytes_mut_clear(&mut self.buffer);
    }
}

/// A prefix of a batch encodes to no more bytes than the whole batch.
proof fn lemma_batch_prefix_le(ms: Seq<&Message>, i: int)
    requires
        0 <= i <= ms.len(),
    ensures
        batch_records(ms.subrange(0, i)).len() <= batch_records(ms).len(),
    decreases ms.len() - i,
{
    if i == ms.len() {
        assert(ms.subrange(0, i) =~= ms);
    } else {
        lemma_batch_prefix_le(ms, i + 1);
        assert(ms.subrange(0, i + 1).drop_last() =~= ms.subrange(0, i));
    }
}

/// The records of a list of messages, in order.
pub open spec fn batch_records(ms: Seq<&Message>) -> Seq<u8>
    decreases ms.len(),
{
    if ms.len() == 0 {
        Seq::<u8>::empty()
    } else {
        batch_records(ms.drop_last())
            + text_record(message_text(ms.last().id, ms.last().timestamp, bytes_view(ms.last().payload)))
    }
}

/// The whole length-prefixed messages at the front of a byte stream, and
/// what is left after them.
pub open spec fn split_messages(b: Seq<u8>) -> (Seq<Seq<u8>>, Seq<u8>)
    decreases b.len(),
{
    if b.len() >= 4 && b.len() >= 4 + announced_len(b) {
        let n = announced_len(b);
        let rest = split_messages(b.subrange(4 + n, b.len() as int));
        (seq![b.subrange(4, 4 + n)] + rest.0, rest.1)
    } else {
        (Seq::<Seq<u8>>::empty(), b)
    }
}

/// Splits a byte stream into length-prefixed messages.
pub struct MessageSplitter {
    buffer: BytesMut,
}

impl MessageSplitter {
    /// The bytes received and not yet taken as messages.
    pub closed spec fn view(&self) -> Seq<u8> {
        bytes_mut_view(self.buffer)
    }

    /// A splitter with nothing received.
    pub fn new() -> (s: MessageSplitter)
        ensures
            s.view() == Seq::<u8>::empty(),
    {
        MessageSplitter { buffer: bytes_mut_with_capacity(8192) }
    }

    /// Appends received bytes.
    pub fn add_data(&mut self, data: &[u8])
        requires
            old(self).view().len() + data@.len() <= isize::MAX,
        ensures
            final(self).view() == old(self).view() + data@,
    {
        bytes_mut_extend_from_slice(&mut self.buffer, data);
    }

    /// Takes every whole message off the front, in order; a partial one
    /// stays for later.
    pub fn extract_messages(&mut self) -> (ms: Vec<Bytes>)
        ensures
            ms@.map_values(|b: Bytes| bytes_view(b)) == split_messages(old(self).view()).0,
            final(self).view() == split_messages(old(self).view()).1,
    {
        let mut ms: Vec<Bytes> = Vec::new();
        loop
            invariant
                ms@.map_values(|b: Bytes| bytes_view(b)) + split_messages(self.view()).0
                    == split_messages(old(self).view()).0,
                split_messages(self.view()).1 == split_messages(old(self).view()).1,
            ensures
                split_messages(self.view()).0 == Seq::<Seq<u8>>::empty(),
                ms@.map_values(|b: Bytes| bytes_view(b)) == split_messages(old(self).view()).0,
                split_messages(self.view()).1 == split_messages(old(self).view()).1,
            decreases self.view().len(),
        {
            let data = bytes_mut_as_slice(&self.buffer);
            if data.len() < 4 {
                proof {
                    assert(split_messages(self.view()).0 =~= Seq::<Seq<u8>>::empty());
                    assert(ms@.map_values(|b: Bytes| bytes_view(b)) + Seq::<Seq<u8>>::empty()
                        =~= ms@.map_values(|b: Bytes| bytes_view(b)));
                }
                break;
            }
            let len = read_u32_be(data, 0) as usize;
            if data.len() - 4 < len {
                proof {
                    assert(split_messages(self.view()).0 =~= Seq::<Seq<u8>>::empty());
                    assert(ms@.map_values(|b: Bytes| bytes_view(b)) + Seq::<Seq<u8>>::empty()
                        =~= ms@.map_values(|b: Bytes| bytes_view(b)));
                }
                break;
            }
            let ghost b = self.view();
            bytes_mut_advance(&mut self.buffer, 4);
            let m = bytes_mut_split_to(&mut self.buffer, len);
            let ghost before = ms@;
            ms.push(bytes_mut_freeze(m));
            proof {
                assert(b.subrange(4, b.len() as int).subrange(0, len as int) =~= b.subrange(4, 4 + len));
                assert(b.subrange(4, b.len() as int).subrange(len as int, b.len() - 4) =~= b.subrange(4 + len, b.len() as int));
                let rest = split_messages(self.view());
                assert(split_messages(b).0 =~= seq![b.subrange(4, 4 + len)] + rest.0);
                assert(ms@.map_values(|x: Bytes| bytes_view(x)) =~= before.map_values(|x: Bytes| bytes_view(x))
                    + seq![b.subrange(4, 4 + len)]);
                assert(ms@.map_values(|x: Bytes| bytes_view(x)) + rest.0
                    =~= before.map_values(|x: Bytes| bytes_view(x)) + split_messages(b).0);
            }
        }
        ms
    }

    /// The number of bytes not yet taken as messages.
    pub fn remaining_bytes(&self) -> (n: usize)
        ensures
            n == self.view().len(),
    {
        bytes_mut_as_slice(&self.buffer).len()
    }
}

} // verus!
