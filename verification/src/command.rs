//! Client commands: publish, subscribe, unsubscribe and quit.

use vstd::prelude::*;
use bytes::Bytes;
use crate::bufs::{bytes_empty, bytes_view};

verus! {

/// What a client asks for.
#[derive(Debug, Clone, Copy, PartialEq, Eq, Structural)]
pub enum Action {
    Pub,
    Sub,
    Unsub,
    Quit,
}

/// A client command.
#[derive(Debug, Clone)]
pub struct ClientCommand {
    pub action: Action,
    pub topic: String,
    pub payload: Bytes,
    /// Time to live of a published message in milliseconds; `0` means forever.
    pub ttl_ms: u64,
}

/// Publish `payload` to `topic`, to live `ttl_ms` milliseconds (`0`: forever).
pub fn new_pub_with_ttl(topic: String, payload: Bytes, ttl_ms: u64) -> (c: ClientCommand)
    ensures
        c.action == Action::Pub,
        c.topic == topic,
        bytes_view(c.payload) == bytes_view(payload),
        c.ttl_ms == ttl_ms,
{
    ClientCommand { action: Action::Pub, topic, payload, ttl_ms }
}

/// Publish `payload` to `topic`, to live forever.
pub fn new_pub(topic: String, payload: Bytes) -> (c: ClientCommand)
    ensures
        c.action == Action::Pub,
        c.topic == topic,
        bytes_view(c.payload) == bytes_view(payload),
        c.ttl_ms == 0,
{
    new_pub_with_ttl(topic, payload, 0)
}

/// Subscribe to `topic`.
pub fn new_sub(topic: String) -> (c: ClientCommand)
    ensures
        c.action == Action::Sub,
        c.topic == topic,
        bytes_view(c.payload) == Seq::<u8>::empty(),
        c.ttl_ms == 0,
{
    ClientCommand { action: Action::Sub, topic, payload: bytes_empty(), ttl_ms: 0 }
}

/// Unsubscribe from `topic`.
pub fn new_unsub(topic: String) -> (c: ClientCommand)
    ensures
        c.action == Action::Unsub,
        c.topic == topic,
        bytes_view(c.payload) == Seq::<u8>::empty(),
        c.ttl_ms == 0,
{
    ClientCommand { action: Action::Unsub, topic, payload: bytes_empty(), ttl_ms: 0 }
}

/// Close the session.
pub fn new_quit() -> (c: ClientCommand)
    ensures
        c.action == Action::Quit,
        c.topic@ == Seq::<char>::empty(),
        bytes_view(c.payload) == Seq::<u8>::empty(),
        c.ttl_ms == 0,
{
    ClientCommand { action: Action::Quit, topic: String::new(), payload: bytes_empty(), ttl_ms: 0 }
}

} // verus!
