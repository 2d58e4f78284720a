//! Compact binary framing: an 8-byte header, the topic, then the body.
//!
//! Header layout (the packed, little-endian layout of the broker's header
//! record): bytes 0..4 hold the total frame size, byte 4 the opcode in its
//! high nibble and the flags in its low nibble, byte 5 the topic length and
//! bytes 6..8 a reserved field.

use vstd::prelude::*;
use vstd::string::StringSliceAdditionalSpecFns;
use crate::bufs::{
    bytes_mut_clear, bytes_mut_freeze, bytes_mut_put_slice, bytes_mut_split, bytes_mut_view,
    bytes_mut_with_capacity, bytes_view,
};
use crate::codec::{le_u32_bytes, le_u32_value, lemma_le_u32_roundtrip, push_u32_le, read_u32_le};
use bytes::{Bytes, BytesMut};

verus! {

/// Command types carried in the high nibble of the header's `op_flags`.
#[derive(Debug, Clone, Copy, PartialEq, Eq, Structural)]
pub enum OpCode {
    Pub,
    Sub,
    Unsub,
    Quit,
    Ack,
    Msg,
    Ping,
    Pong,
}

/// The wire number of each opcode.
pub open spec fn opcode_number(op: OpCode) -> u8 {
    match op {
        OpCode::Pub => 1,
        OpCode::Sub => 2,
        OpCode::Unsub => 3,
        OpCode::Quit => 4,
        OpCode::Ack => 5,
        OpCode::Msg => 6,
        OpCode::Ping => 7,
        OpCode::Pong => 8,
    }
}

/// The opcode with a given wire number, if there is one.
pub open spec fn opcode_of_number(n: u8) -> Option<OpCode> {
    if n == 1 { Some(OpCode::Pub) }
    else if n == 2 { Some(OpCode::Sub) }
    else if n == 3 { Some(OpCode::Unsub) }
    else if n == 4 { Some(OpCode::Quit) }
    else if n == 5 { Some(OpCode::Ack) }
    else if n == 6 { Some(OpCode::Msg) }
    else if n == 7 { Some(OpCode::Ping) }
    else if n == 8 { Some(OpCode::Pong) }
    else { None }
}

impl OpCode {
    /// The wire number of this opcode.
    pub fn number(self) -> (n: u8)
        ensures
            n == opcode_number(self),
            1 <= n <= 8,
    {
        match self {
            OpCode::Pub => 1,
            OpCode::Sub => 2,
            OpCode::Unsub => 3,
            OpCode::Quit => 4,
            OpCode::Ack => 5,
            OpCode::Msg => 6,
            OpCode::Ping => 7,
            OpCode::Pong => 8,
        }
    }

    /// The opcode with wire number `n`, if any.
    pub fn from_number(n: u8) -> (op: Option<OpCode>)
        ensures
            op == opcode_of_number(n),
    {
        if n == 1 { Some(OpCode::Pub) }
        else if n == 2 { Some(OpCode::Sub) }
        else if n == 3 { Some(OpCode::Unsub) }
        else if n == 4 { Some(OpCode::Quit) }
        else if n == 5 { Some(OpCode::Ack) }
        else if n == 6 { Some(OpCode::Msg) }
        else if n == 7 { Some(OpCode::Ping) }
        else if n == 8 { Some(OpCode::Pong) }
        else { None }
    }
}

/// Every opcode's number maps back to the opcode.
pub proof fn lemma_opcode_number_roundtrip(op: OpCode)
    ensures
        opcode_of_number(opcode_number(op)) == Some(op),
{
}

/// The fixed-size frame header.
#[derive(Debug, Clone, Copy)]
pub struct FrameHeader {
    /// Total frame size including the header.
    pub frame_size: u32,
    /// Opcode (high 4 bits) and flags (low 4 bits).
    pub op_flags: u8,
    /// Topic length.
    pub topic_len: u8,
    /// Reserved for alignment.
    pub reserved: u16,
}

/// The size of the encoded header.
pub open spec fn header_size() -> int {
    8
}

/// The flag bits of an `op_flags` byte.
pub open spec fn flag_bits(op_flags: u8) -> u8 {
    op_flags & 0x0F
}

/// The opcode bits of an `op_flags` byte.
pub open spec fn opcode_bits(op_flags: u8) -> u8 {
    (op_flags >> 4) & 0x0F
}

/// An `op_flags` byte holding opcode number `op` and flag bits `flags`.
pub open spec fn pack_op_flags(op: u8, flags: u8) -> u8 {
    ((op << 4) | (flags & 0x0F)) as u8
}

/// The eight header bytes in the packed little-endian layout.
pub open spec fn header_bytes(h: FrameHeader) -> Seq<u8> {
    le_u32_bytes(h.frame_size) + seq![h.op_flags, h.topic_len, (h.reserved % 256) as u8, (h.reserved / 256) as u8]
}

impl FrameHeader {
    /// The size of the encoded header in bytes.
    pub fn size() -> (n: usize)
        ensures
            n == header_size(),
    {
        8
    }

    /// The opcode in the high nibble. The nibble must name an opcode: the
    /// header's numbering has no other values.
    pub fn opcode(&self) -> (op: OpCode)
        requires
            opcode_of_number(opcode_bits(self.op_flags)) is Some,
        ensures
            Some(op) == opcode_of_number(opcode_bits(self.op_flags)),
    {
        let n = (self.op_flags >> 4) & 0x0F;
        match OpCode::from_number(n) {
            Some(op) => op,
            None => OpCode::Pub,
        }
    }

    /// The flags in the low nibble.
    pub fn flags(&self) -> (f: u8)
        ensures
            f == flag_bits(self.op_flags),
            f < 16,
    {
        let o = self.op_flags;
        assert(o & 0x0F < 16) by (bit_vector);
        o & 0x0F
    }

    /// Replaces the opcode and keeps the flags.
    pub fn set_opcode(&mut self, op: OpCode)
        ensures
            final(self).op_flags == ((opcode_number(op) << 4) | (old(self).op_flags & 0x0F)) as u8,
            opcode_bits(final(self).op_flags) == opcode_number(op),
            flag_bits(final(self).op_flags) == flag_bits(old(self).op_flags),
            final(self).frame_size == old(self).frame_size,
            final(self).topic_len == old(self).topic_len,
            final(self).reserved == old(self).reserved,
    {
        let n = op.number();
        let old_flags = self.op_flags;
        let v: u8 = (n << 4) | (old_flags & 0x0F);
        assert(1 <= n <= 8 ==> (((n << 4) | (old_flags & 0x0F)) >> 4) & 0x0F == n) by (bit_vector);
        assert(((n << 4) | (old_flags & 0x0F)) & 0x0F == old_flags & 0x0F) by (bit_vector);
        self.op_flags = v;
    }

    /// Replaces the flags (their low four bits) and keeps the opcode.
    pub fn set_flags(&mut self, flags: u8)
        ensures
            final(self).op_flags == (old(self).op_flags & 0xF0) | (flags & 0x0F),
            flag_bits(final(self).op_flags) == flags & 0x0F,
            opcode_bits(final(self).op_flags) == opcode_bits(old(self).op_flags),
            final(self).frame_size == old(self).frame_size,
            final(self).topic_len == old(self).topic_len,
            final(self).reserved == old(self).reserved,
    {
        let o = self.op_flags;
        assert(((o & 0xF0) | (flags & 0x0F)) & 0x0F == flags & 0x0F) by (bit_vector);
        assert(((((o & 0xF0) | (flags & 0x0F)) >> 4) & 0x0F) == ((o >> 4) & 0x0F)) by (bit_vector);
        self.op_flags = (o & 0xF0) | (flags & 0x0F);
    }

    /// The header read from the first eight bytes of `data`.
    pub fn read(data: &[u8]) -> (h: FrameHeader)
        requires
            data@.len() >= 8,
        ensures
            h.frame_size == le_u32_value(data@[0], data@[1], data@[2], data@[3]),
            h.op_flags == data@[4],
            h.topic_len == data@[5],
            h.reserved == data@[6] + 256 * data@[7],
            header_bytes(h) == data@.subrange(0, 8),
    {
        let frame_size = read_u32_le(data, 0);
        let reserved: u16 = data[6] as u16 + 256 * (data[7] as u16);
        let h = FrameHeader { frame_size, op_flags: data[4], topic_len: data[5], reserved };
        proof {
            lemma_le_u32_roundtrip(frame_size);
            assert(le_u32_bytes(frame_size)[0] == data@[0]);
            assert(le_u32_bytes(frame_size)[1] == data@[1]);
            assert(le_u32_bytes(frame_size)[2] == data@[2]);
            assert(le_u32_bytes(frame_size)[3] == data@[3]);
            assert(header_bytes(h) =~= data@.subrange(0, 8));
        }
        h
    }

    /// The header's eight bytes in the packed little-endian layout.
    pub fn to_bytes(&self) -> (b: Vec<u8>)
        ensures
            b@ == header_bytes(*self),
    {
        let mut b: Vec<u8> = Vec::new();
        push_u32_le(&mut b, self.frame_size);
        b.push(self.op_flags);
        b.push(self.topic_len);
        b.push((self.reserved % 256) as u8);
        b.push((self.reserved / 256) as u8);
        proof {
            assert(b@ =~= header_bytes(*self));
        }
        b
    }
}

/// Reading a header back from its encoding gives the same header.
pub proof fn lemma_header_roundtrip(h: FrameHeader)
    ensures
        le_u32_value(header_bytes(h)[0], header_bytes(h)[1], header_bytes(h)[2], header_bytes(h)[3])
            == h.frame_size,
        header_bytes(h)[4] == h.op_flags,
        header_bytes(h)[5] == h.topic_len,
        header_bytes(h)[6] + 256 * header_bytes(h)[7] == h.reserved,
        header_bytes(h).len() == 8,
{
    lemma_le_u32_roundtrip(h.frame_size);
}

/// A frame read in place from a byte buffer.
pub struct Frame<'a> {
    pub header: FrameHeader,
    pub topic: &'a [u8],
    pub payload: &'a [u8],
}

/// Why a buffer is not a frame.
pub open spec fn parse_error(data: Seq<u8>) -> Option<&'static str> {
    if data.len() < 8 {
        Some("insufficient data for header")
    } else if data.len() < le_u32_value(data[0], data[1], data[2], data[3]) {
        Some("incomplete frame")
    } else if 8 + data[5] > data.len() {
        Some("invalid topic length")
    } else {
        None
    }
}

/// The buffers on which reading a frame fails its own bounds check: the
/// declared size is shorter than the header and topic it must hold.
pub open spec fn frame_size_below_topic_end(data: Seq<u8>) -> bool {
    &&& parse_error(data) is None
    &&& le_u32_value(data[0], data[1], data[2], data[3]) < 8 + data[5]
}

impl<'a> Frame<'a> {
    /// The topic as text, when its bytes are valid UTF-8.
    pub fn topic_str(&self) -> (r: Result<&'a str, core::str::Utf8Error>)
        ensures
            r is Ok <==> vstd::utf8::valid_utf8(self.topic@),
            r matches Ok(s) ==> s.spec_bytes() == self.topic@,
    {
        crate::text::str_from_utf8(self.topic)
    }

    /// Reads a frame from `data` without copying. The topic is the
    /// `topic_len` bytes after the header and the payload runs from there
    /// to the declared frame size; bytes past the frame size are ignored.
    pub fn parse(data: &'a [u8]) -> (r: Result<Frame<'a>, &'static str>)
        requires
            !frame_size_below_topic_end(data@),
        ensures
            parse_error(data@) is Some <==> r is Err,
            r matches Err(e) ==> Some(e) == parse_error(data@),
            r matches Ok(f) ==> {
                let fs = le_u32_value(data@[0], data@[1], data@[2], data@[3]);
                let tl = data@[5] as int;
                &&& header_bytes(f.header) == data@.subrange(0, 8)
                &&& f.header.frame_size == fs
                &&& f.header.topic_len == data@[5]
                &&& f.topic@ == data@.subrange(8, 8 + tl)
                &&& f.payload@ == data@.subrange(8 + tl, fs)
            },
    {
        if data.len() < FrameHeader::size() {
            return Err("insufficient data for header");
        }
        let header = FrameHeader::read(data);
        if data.len() < header.frame_size as usize {
            return Err("incomplete frame");
        }
        let offset = FrameHeader::size();
        let topic_end = offset + header.topic_len as usize;
        if topic_end > data.len() {
            return Err("invalid topic length");
        }
        let topic = &data[offset..topic_end];
        let payload = &data[topic_end..header.frame_size as usize];
        Ok(Frame { header, topic, payload })
    }
}

/// The frame a builder writes: a header with the given opcode, then the
/// topic, then `body`. The size and topic length are truncated to their
/// field widths, as the header stores them.
pub open spec fn frame_bytes(op: OpCode, topic: Seq<u8>, body: Seq<u8>) -> Seq<u8> {
    header_bytes(FrameHeader {
        frame_size: (8 + topic.len() + body.len()) as u32,
        op_flags: (opcode_number(op) << 4) as u8,
        topic_len: topic.len() as u8,
        reserved: 0,
    }) + topic + body
}

/// The little-endian encoding of a 64-bit value.
pub open spec fn le_u64_bytes(x: u64) -> Seq<u8> {
    le_u32_bytes((x % 0x1_0000_0000) as u32) + le_u32_bytes((x / 0x1_0000_0000) as u32)
}

/// Builds frames into a reused buffer.
pub struct FrameBuilder {
    buffer: BytesMut,
}

impl FrameBuilder {
    /// The bytes the builder's buffer holds between frames.
    pub closed spec fn buffered(self) -> Seq<u8> {
        bytes_mut_view(self.buffer)
    }

    /// A builder with the default starting capacity.
    pub fn new() -> (b: FrameBuilder)
        ensures
            b.buffered() == Seq::<u8>::empty(),
    {
        FrameBuilder { buffer: bytes_mut_with_capacity(1024) }
    }

    /// A builder whose buffer starts with room for `cap` bytes.
    pub fn with_capacity(cap: usize) -> (b: FrameBuilder)
        ensures
            b.buffered() == Seq::<u8>::empty(),
    {
        FrameBuilder { buffer: bytes_mut_with_capacity(cap) }
    }

    fn emit(&mut self, op: OpCode, topic: &[u8], body: &[u8]) -> (out: Bytes)
        requires
            8 + topic@.len() + body@.len() <= isize::MAX,
        ensures
            bytes_view(out) == frame_bytes(op, topic@, body@),
            final(self).buffered() == Seq::<u8>::empty(),
    {
        bytes_mut_clear(&mut self.buffer);
        let frame_size = 8 + topic.len() + body.len();
        let n = op.number();
        let header = FrameHeader {
            frame_size: frame_size as u32,
            op_flags: n << 4,
            topic_len: topic.len() as u8,
            reserved: 0,
        };
        let hb = header.to_bytes();
        bytes_mut_put_slice(&mut self.buffer, hb.as_slice());
        bytes_mut_put_slice(&mut self.buffer, topic);
        bytes_mut_put_slice(&mut self.buffer, body);
        let front = bytes_mut_split(&mut self.buffer);
        let out = bytes_mut_freeze(front);
        proof {
            assert(bytes_view(out) =~= frame_bytes(op, topic@, body@));
        }
        out
    }

    /// A publish frame: the topic, a little-endian 32-bit TTL, then the payload.
    pub fn publish(&mut self, topic: &[u8], payload: &[u8], ttl_ms: u32) -> (out: Bytes)
        requires
            12 + topic@.len() + payload@.len() <= isize::MAX,
        ensures
            bytes_view(out) == frame_bytes(OpCode::Pub, topic@, le_u32_bytes(ttl_ms) + payload@),
    {
        let mut body: Vec<u8> = Vec::new();
        push_u32_le(&mut body, ttl_ms);
        let mut i: usize = 0;
        while i < payload.len()
            invariant
                i <= payload@.len(),
                body@ == le_u32_bytes(ttl_ms) + payload@.subrange(0, i as int),
            decreases payload@.len() - i,
        {
            body.push(payload[i]);
            i = i + 1;
            proof {
                assert(body@ =~= le_u32_bytes(ttl_ms) + payload@.subrange(0, i as int));
            }
        }
        proof {
            assert(payload@.subrange(0, payload@.len() as int) =~= payload@);
        }
        self.emit(OpCode::Pub, topic, body.as_slice())
    }

    /// A subscribe frame: the header and the topic.
    pub fn subscribe(&mut self, topic: &[u8]) -> (out: Bytes)
        requires
            8 + topic@.len() <= isize::MAX,
        ensures
            bytes_view(out) == frame_bytes(OpCode::Sub, topic@, Seq::<u8>::empty()),
    {
        let empty: Vec<u8> = Vec::new();
        self.emit(OpCode::Sub, topic, empty.as_slice())
    }

    /// A delivery frame: the topic, a little-endian 64-bit message id, then the payload.
    pub fn message(&mut self, topic: &[u8], payload: &[u8], msg_id: u64) -> (out: Bytes)
        requires
            16 + topic@.len() + payload@.len() <= isize::MAX,
        ensures
            bytes_view(out) == frame_bytes(OpCode::Msg, topic@, le_u64_bytes(msg_id) + payload@),
    {
        let mut body: Vec<u8> = Vec::new();
        push_u32_le(&mut body, (msg_id % 0x1_0000_0000) as u32);
        push_u32_le(&mut body, (msg_id / 0x1_0000_0000) as u32);
        let mut i: usize = 0;
        while i < payload.len()
            invariant
                i <= payload@.len(),
                body@ == le_u64_bytes(msg_id) + payload@.subrange(0, i as int),
            decreases payload@.len() - i,
        {
            body.push(payload[i]);
            i = i + 1;
            proof {
                assert(body@ =~= le_u64_bytes(msg_id) + payload@.subrange(0, i as int));
            }
        }
        proof {
            assert(payload@.subrange(0, payload@.len() as int) =~= payload@);
        }
        self.emit(OpCode::Msg, topic, body.as_slice())
    }

    /// An acknowledgment frame: the header and the topic.
    pub fn ack(&mut self, topic: &[u8]) -> (out: Bytes)
        requires
            8 + topic@.len() <= isize::MAX,
        ensures
            bytes_view(out) == frame_bytes(OpCode::Ack, topic@, Seq::<u8>::empty()),
    {
        let empty: Vec<u8> = Vec::new();
        self.emit(OpCode::Ack, topic, empty.as_slice())
    }
}

/// The next message id from `ids` (see `MessageIds::next_id`).
pub fn generate_message_id(ids: &mut crate::message::MessageIds) -> (id: u64)
    ensures
        id == old(ids).upcoming(),
        final(ids).upcoming() == (if id == u64::MAX { 0 } else { (id + 1) as u64 }),
{
    ids.next_id()
}

/// Nanoseconds since the Unix epoch, cut to 64 bits (0 for a clock set
/// before the epoch).
pub fn fast_timestamp() -> u64 {
    crate::clock::now_nanos()
}


/// A frame a builder writes reads back whole: the parse succeeds, and gives
/// the opcode (with no flags), the topic and the body that were written.
pub proof fn lemma_frame_roundtrip(op: OpCode, topic: Seq<u8>, body: Seq<u8>)
    requires
        topic.len() < 256,
        8 + topic.len() + body.len() <= u32::MAX,
    ensures
        ({
            let f = frame_bytes(op, topic, body);
            &&& parse_error(f) is None
            &&& !frame_size_below_topic_end(f)
            &&& le_u32_value(f[0], f[1], f[2], f[3]) == f.len()
            &&& opcode_bits(f[4]) == opcode_number(op)
            &&& flag_bits(f[4]) == 0
            &&& f[5] == topic.len()
            &&& f.subrange(8, 8int + topic.len()) == topic
            &&& f.subrange(8int + topic.len(), f.len() as int) == body
        }),
{
    let f = frame_bytes(op, topic, body);
    let h = FrameHeader {
        frame_size: (8 + topic.len() + body.len()) as u32,
        op_flags: (opcode_number(op) << 4) as u8,
        topic_len: topic.len() as u8,
        reserved: 0,
    };
    lemma_header_roundtrip(h);
    assert(header_bytes(h).len() == 8);
    assert(f =~= header_bytes(h) + topic + body);
    assert(f[0] == header_bytes(h)[0] && f[1] == header_bytes(h)[1] && f[2] == header_bytes(h)[2]
        && f[3] == header_bytes(h)[3] && f[4] == h.op_flags && f[5] == h.topic_len);
    let n = opcode_number(op);
    assert(n < 16);
    assert(((n << 4) as u8 >> 4) & 0x0F == n && ((n << 4) as u8) & 0x0F == 0) by (bit_vector)
        requires
            n < 16,
    ;
    assert(f.subrange(8, 8int + topic.len()) =~= topic);
    assert(f.subrange(8int + topic.len(), f.len() as int) =~= body);
}
} // verus!
