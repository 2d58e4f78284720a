//! The decisions of a topic's fan-out: how many delivery shards a topic
//! gets, how large their queues are, which shard serves a subscriber, and
//! what a delivery attempt's outcome means for the subscriber.

use vstd::prelude::*;
use std::hash::{Hash, Hasher};
use crate::delivery::SubscriberId;
use crate::message::WireMessage;
use crate::queue::BlipError;

verus! {

/// The shard count: the configured one, or else the available parallelism
/// (2 when unknown), kept between 1 and 16.
pub open spec fn shard_count_of(configured: usize, parallelism: Option<usize>) -> usize {
    let n: usize = if configured > 0 {
        configured
    } else {
        match parallelism {
            Some(p) => p,
            None => 2,
        }
    };
    if n < 1 { 1 } else if n > 16 { 16 } else { n }
}

/// How many delivery shards a topic gets.
pub fn shard_count(configured: usize, parallelism: Option<usize>) -> (n: usize)
    ensures
        n == shard_count_of(configured, parallelism),
        1 <= n <= 16,
{
    let n: usize = if configured > 0 {
        configured
    } else {
        match parallelism {
            Some(p) => p,
            None => 2,
        }
    };
    if n < 1 {
        1
    } else if n > 16 {
        16
    } else {
        n
    }
}

/// The capacity of a shard's (and the topic's input) queue: the requested
/// one, at least 1024.
pub fn shard_queue_capacity(queue_capacity: usize) -> (c: usize)
    ensures
        c == (if queue_capacity > 1024 { queue_capacity } else { 1024 }),
{
    if queue_capacity > 1024 {
        queue_capacity
    } else {
        1024
    }
}

/// `ahash::AHasher::default()` over a subscriber's name: a hash whose keys
/// are drawn once per process, so nothing is said of its value.
#[verifier::external_body]
fn subscriber_hash(id: &SubscriberId) -> u64 {
    let mut hasher = ahash::AHasher::default();
    id.0.hash(&mut hasher);
    hasher.finish()
}

/// The shard a subscriber whose name hashes to `hash` is served by, among
/// `shards` (at least one).
pub fn shard_for_hash(hash: u64, shards: usize) -> (i: usize)
    ensures
        i == (hash as usize) % (if shards > 0 { shards } else { 1 }),
        i < (if shards > 0 { shards } else { 1 }),
{
    let n = if shards > 0 { shards } else { 1 };
    (hash as usize) % n
}

/// The shard that serves a subscriber among `shards` (at least one): the
/// one `shard_for_hash` gives for the name's hash.
pub fn shard_index(id: &SubscriberId, shards: usize) -> (i: usize)
    ensures
        i < (if shards > 0 { shards } else { 1 }),
{
    shard_for_hash(subscriber_hash(id), shards)
}

/// What a delivery attempt to a subscriber's queue means.
#[derive(Debug, Clone, Copy, PartialEq, Eq, Structural)]
pub enum DeliveryOutcome {
    /// Queued: counted as enqueued.
    Enqueued,
    /// The subscriber is gone: it is removed.
    Disconnected,
    /// The queue is full: the message is counted as dropped.
    Dropped,
    /// Anything else: nothing is done.
    Ignored,
}

/// The meaning of an enqueue result.
pub open spec fn outcome_of(r: Result<(), BlipError>) -> DeliveryOutcome {
    match r {
        Ok(_) => DeliveryOutcome::Enqueued,
        Err(BlipError::Disconnected) => DeliveryOutcome::Disconnected,
        Err(BlipError::QueueClosed) => DeliveryOutcome::Disconnected,
        Err(BlipError::QueueFull) => DeliveryOutcome::Dropped,
        Err(_) => DeliveryOutcome::Ignored,
    }
}

/// What an enqueue result means for the subscriber.
pub fn classify_delivery(r: &Result<(), BlipError>) -> (o: DeliveryOutcome)
    ensures
        o == outcome_of(*r),
{
    match r {
        Ok(_) => DeliveryOutcome::Enqueued,
        Err(BlipError::Disconnected) => DeliveryOutcome::Disconnected,
        Err(BlipError::QueueClosed) => DeliveryOutcome::Disconnected,
        Err(BlipError::QueueFull) => DeliveryOutcome::Dropped,
        Err(_) => DeliveryOutcome::Ignored,
    }
}

/// Whether a shard worker delivers a message at `now_ms`: expired messages
/// are dropped (and counted) instead.
pub fn should_deliver(message: &WireMessage, now_ms: u64) -> (r: bool)
    ensures
        r == !(message.expire_at != 0 && now_ms >= message.expire_at),
{
    !message.is_expired(now_ms)
}

} // verus!
