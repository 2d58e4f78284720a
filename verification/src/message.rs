//! Messages and the server's length-prefixed frames.
//!
//! A server frame on the wire is a 4-byte big-endian length, then one type
//! byte (`0` for a subscription acknowledgement, `1` for a message), then the
//! encoded body; the length counts the type byte and the body.

use vstd::prelude::*;
use bytes::{Bytes, BytesMut};
use crate::bufs::{
    bytes_as_slice, bytes_from_vec, bytes_mut_advance, bytes_mut_as_slice, bytes_mut_split_to, bytes_mut_view,
    bytes_view,
};
use crate::clock::now_millis;
use crate::codec::{be_u32_bytes, be_u32_value, push_u32_be, read_u32_be};

verus! {

/// The type byte of a subscription acknowledgement frame.
pub const FRAME_SUBACK: u8 = 0;

/// The type byte of a message frame.
pub const FRAME_MESSAGE: u8 = 1;

/// A published message.
#[derive(Debug, Clone)]
pub struct Message {
    pub id: u64,
    pub payload: Bytes,
    /// Creation time, milliseconds since the epoch.
    pub timestamp: u64,
    /// Time to live in milliseconds; `0` means forever.
    pub ttl_ms: u64,
}

/// A message with every field given.
pub fn with_custom_message(id: u64, payload: Bytes, timestamp: u64, ttl_ms: u64) -> (m: Message)
    ensures
        m.id == id,
        bytes_view(m.payload) == bytes_view(payload),
        m.timestamp == timestamp,
        m.ttl_ms == ttl_ms,
{
    Message { id, payload, timestamp, ttl_ms }
}

/// The source of message ids: each id is one more than the previous, from 1,
/// wrapping around after `u64::MAX`.
#[derive(Debug)]
pub struct MessageIds {
    next: u64,
}

impl MessageIds {
    /// The id the next call of `next_id` hands out.
    pub closed spec fn upcoming(&self) -> u64 {
        self.next
    }

    /// A source starting at 1.
    pub fn new() -> (g: MessageIds)
        ensures
            g.upcoming() == 1,
    {
        MessageIds { next: 1 }
    }

    /// Hands out the next id.
    pub fn next_id(&mut self) -> (id: u64)
        ensures
            id == old(self).upcoming(),
            final(self).upcoming() == (if id == u64::MAX { 0 } else { (id + 1) as u64 }),
    {
        let id = self.next;
        self.next = id.wrapping_add(1);
        id
    }
}

/// A message with a fresh id, created now, with time to live `ttl_ms`.
pub fn new_message_with_ttl(ids: &mut MessageIds, payload: Bytes, ttl_ms: u64) -> (m: Message)
    ensures
        m.id == old(ids).upcoming(),
        bytes_view(m.payload) == bytes_view(payload),
        m.ttl_ms == ttl_ms,
{
    let id = ids.next_id();
    Message { id, payload, timestamp: current_timestamp(), ttl_ms }
}

/// A message with a fresh id, created now, that never expires.
pub fn new_message(ids: &mut MessageIds, payload: Bytes) -> (m: Message)
    ensures
        m.id == old(ids).upcoming(),
        bytes_view(m.payload) == bytes_view(payload),
        m.ttl_ms == 0,
{
    new_message_with_ttl(ids, payload, 0)
}

/// The current time in milliseconds since the epoch.
pub fn current_timestamp() -> u64 {
    now_millis()
}

/// When a message created at `timestamp` with time to live `ttl_ms`
/// expires; `0` for never.
pub open spec fn expiry_of(timestamp: u64, ttl_ms: u64) -> u64 {
    if ttl_ms == 0 {
        0
    } else {
        (timestamp + ttl_ms) as u64
    }
}

/// A message ready for the wire: its whole frame and when it expires
/// (milliseconds since the epoch, `0` for never).
#[derive(Debug, Clone)]
pub struct WireMessage {
    pub frame: Bytes,
    pub expire_at: u64,
}

impl WireMessage {
    /// The message has an expiry and `now_ms` has reached it.
    pub fn is_expired(&self, now_ms: u64) -> (r: bool)
        ensures
            r == (self.expire_at != 0 && now_ms >= self.expire_at),
    {
        self.expire_at != 0 && now_ms >= self.expire_at
    }
}

/// A subscription acknowledgement.
#[derive(Debug, Clone)]
pub struct SubAck {
    pub topic: String,
    pub info: String,
}

/// The frame of type `kind` around `body`.
pub open spec fn typed_frame(kind: u8, body: Seq<u8>) -> Seq<u8> {
    be_u32_bytes((1 + body.len()) as u32) + seq![kind] + body
}

/// The frame of type `kind` around the encoded `body`.
pub fn encode_typed_frame(kind: u8, body: &[u8]) -> (f: Bytes)
    requires
        body@.len() < u32::MAX,
    ensures
        bytes_view(f) == typed_frame(kind, body@),
{
    let mut out: Vec<u8> = Vec::new();
    push_u32_be(&mut out, (1 + body.len()) as u32);
    out.push(kind);
    let mut i: usize = 0;
    while i < body.len()
        invariant
            i <= body@.len(),
            out@ == be_u32_bytes((1 + body@.len()) as u32) + seq![kind] + body@.subrange(0, i as int),
        decreases body@.len() - i,
    {
        out.push(body[i]);
        i = i + 1;
        proof {
            assert(out@ =~= be_u32_bytes((1 + body@.len()) as u32) + seq![kind] + body@.subrange(0, i as int));
        }
    }
    proof {
        assert(body@.subrange(0, body@.len() as int) =~= body@);
    }
    bytes_from_vec(out)
}

/// The message frame around the message's encoded body.
pub fn encode_message_frame(body: &[u8]) -> (f: Bytes)
    requires
        body@.len() < u32::MAX,
    ensures
        bytes_view(f) == typed_frame(FRAME_MESSAGE, body@),
{
    encode_typed_frame(FRAME_MESSAGE, body)
}

/// The wire form of `msg`, whose encoded body is `body`: its message frame,
/// and its expiry.
pub fn to_wire_message(msg: &Message, body: &[u8]) -> (w: WireMessage)
    requires
        body@.len() < u32::MAX,
        msg.ttl_ms == 0 || msg.timestamp + msg.ttl_ms <= u64::MAX,
    ensures
        bytes_view(w.frame) == typed_frame(FRAME_MESSAGE, body@),
        w.expire_at == expiry_of(msg.timestamp, msg.ttl_ms),
{
    let frame = encode_message_frame(body);
    let expire_at = if msg.ttl_ms == 0 { 0 } else { msg.timestamp + msg.ttl_ms };
    WireMessage { frame, expire_at }
}

/// The kinds of server frame.
#[derive(Debug, Clone, Copy, PartialEq, Eq, Structural)]
pub enum ServerFrameKind {
    SubAck,
    Message,
}

/// Why a server frame could not be read.
#[derive(Debug, Clone, Copy, PartialEq, Eq, Structural)]
pub enum FrameError {
    /// The frame has no type byte.
    Empty,
    /// The type byte names no kind of frame.
    UnknownType,
}

/// The kind and body of a frame's contents (the bytes after the length).
pub open spec fn frame_contents(bytes: Seq<u8>) -> Result<(ServerFrameKind, Seq<u8>), FrameError> {
    if bytes.len() == 0 {
        Err(FrameError::Empty)
    } else if bytes[0] == FRAME_SUBACK {
        Ok((ServerFrameKind::SubAck, bytes.subrange(1, bytes.len() as int)))
    } else if bytes[0] == FRAME_MESSAGE {
        Ok((ServerFrameKind::Message, bytes.subrange(1, bytes.len() as int)))
    } else {
        Err(FrameError::UnknownType)
    }
}

/// Splits a frame's contents into its kind and its body.
pub fn decode_frame(bytes: &[u8]) -> (r: Result<(ServerFrameKind, &[u8]), FrameError>)
    ensures
        match (r, frame_contents(bytes@)) {
            (Ok((k, b)), Ok((k2, b2))) => k == k2 && b@ == b2,
            (Err(e), Err(e2)) => e == e2,
            _ => false,
        },
{
    if bytes.len() == 0 {
        return Err(FrameError::Empty);
    }
    let t = bytes[0];
    let body = &bytes[1..bytes.len()];
    proof {
        assert(body@ =~= bytes@.subrange(1, bytes@.len() as int));
    }
    if t == FRAME_SUBACK {
        Ok((ServerFrameKind::SubAck, body))
    } else if t == FRAME_MESSAGE {
        Ok((ServerFrameKind::Message, body))
    } else {
        Err(FrameError::UnknownType)
    }
}

/// The length a buffer's first four bytes announce.
pub open spec fn announced_len(b: Seq<u8>) -> int {
    be_u32_value(b[0], b[1], b[2], b[3])
}

/// A whole frame is buffered: four length bytes and as many bytes as they
/// announce.
pub open spec fn frame_ready(b: Seq<u8>) -> bool {
    b.len() >= 4 && b.len() >= 4 + announced_len(b)
}

/// Takes the first whole frame off the front of `buf` and returns its
/// contents (type byte and body); leaves `buf` alone and returns `None` while
/// the frame is incomplete.
pub fn extract_frame(buf: &mut BytesMut) -> (r: Option<BytesMut>)
    ensures
        r is Some <==> frame_ready(bytes_mut_view(*old(buf))),
        r matches Some(f) ==> {
            let b = bytes_mut_view(*old(buf));
            &&& bytes_mut_view(f) == b.subrange(4, 4 + announced_len(b))
            &&& bytes_mut_view(*final(buf)) == b.subrange(4 + announced_len(b), b.len() as int)
        },
        r is None ==> bytes_mut_view(*final(buf)) == bytes_mut_view(*old(buf)),
{
    let data = bytes_mut_as_slice(buf);
    if data.len() < 4 {
        return None;
    }
    let len = read_u32_be(data, 0) as usize;
    if data.len() - 4 < len {
        return None;
    }
    let ghost b = bytes_mut_view(*buf);
    bytes_mut_advance(buf, 4);
    let payload = bytes_mut_split_to(buf, len);
    proof {
        assert(b.subrange(4, b.len() as int).subrange(0, len as int) =~= b.subrange(4, 4 + len));
        assert(b.subrange(4, b.len() as int).subrange(len as int, b.len() - 4) =~= b.subrange(4 + len, b.len() as int));
    }
    Some(payload)
}

/// The length-prefixed form of an encoded command: the body's length as four
/// big-endian bytes, then the body.
pub fn encode_with_len_prefix(body: &[u8]) -> (out: Vec<u8>)
    requires
        body@.len() <= u32::MAX,
    ensures
        out@ == be_u32_bytes(body@.len() as u32) + body@,
{
    let mut out: Vec<u8> = Vec::new();
    push_u32_be(&mut out, body.len() as u32);
    let mut i: usize = 0;
    while i < body.len()
        invariant
            i <= body@.len(),
            out@ == be_u32_bytes(body@.len() as u32) + body@.subrange(0, i as int),
        decreases body@.len() - i,
    {
        out.push(body[i]);
        i = i + 1;
        proof {
            assert(out@ =~= be_u32_bytes(body@.len() as u32) + body@.subrange(0, i as int));
        }
    }
    proof {
        assert(body@.subrange(0, body@.len() as int) =~= body@);
    }
    out
}


/// A typed frame written ahead of further bytes is read back whole: it is
/// ready, its contents are its type byte and body, and the further bytes
/// are left.
pub proof fn lemma_typed_frame_roundtrip(kind: u8, body: Seq<u8>, rest: Seq<u8>)
    requires
        body.len() < u32::MAX,
    ensures
        ({
            let b = typed_frame(kind, body) + rest;
            &&& frame_ready(b)
            &&& announced_len(b) == 1 + body.len()
            &&& b.subrange(4, 4 + announced_len(b)) == seq![kind] + body
            &&& b.subrange(4 + announced_len(b), b.len() as int) == rest
        }),
{
    let b = typed_frame(kind, body) + rest;
    let n = (1 + body.len()) as u32;
    crate::codec::lemma_be_u32_roundtrip(n);
    assert(b[0] == be_u32_bytes(n)[0] && b[1] == be_u32_bytes(n)[1] && b[2] == be_u32_bytes(n)[2]
        && b[3] == be_u32_bytes(n)[3]);
    assert(b.subrange(4, 4 + announced_len(b)) =~= seq![kind] + body);
    assert(b.subrange(4 + announced_len(b), b.len() as int) =~= rest);
}
} // verus!
