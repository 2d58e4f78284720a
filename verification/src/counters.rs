//! The broker's coarse process-wide counters and readiness flag, and their
//! text exposition.

use vstd::prelude::*;
use crate::collector::wrap_add;
use crate::text::{decimal, push_decimal, str_to_string, string_push_str};

verus! {

/// Readiness and the coarse counters. Counters wrap around.
#[derive(Debug, Clone, Copy, PartialEq, Eq, Structural)]
pub struct Counters {
    pub ready: bool,
    pub published: u64,
    pub enqueued: u64,
    pub dropped_ttl: u64,
    pub dropped_sub_queue_full: u64,
    pub flush_bytes: u64,
    pub flush_batches: u64,
}

impl Counters {
    /// Not ready, every counter at zero.
    pub fn new() -> (c: Counters)
        ensures
            c == (Counters {
                ready: false,
                published: 0,
                enqueued: 0,
                dropped_ttl: 0,
                dropped_sub_queue_full: 0,
                flush_bytes: 0,
                flush_batches: 0,
            }),
    {
        Counters {
            ready: false,
            published: 0,
            enqueued: 0,
            dropped_ttl: 0,
            dropped_sub_queue_full: 0,
            flush_bytes: 0,
            flush_batches: 0,
        }
    }
}

/// Marks the broker ready or not.
pub fn set_ready(c: &mut Counters, v: bool)
    ensures
        *final(c) == (Counters { ready: v, ..*old(c) }),
{
    c.ready = v;
}

/// Whether the broker is ready.
pub fn is_ready(c: &Counters) -> (r: bool)
    ensures
        r == c.ready,
{
    c.ready
}

/// Counts `n` published messages.
pub fn inc_published(c: &mut Counters, n: u64)
    ensures
        *final(c) == (Counters { published: wrap_add(old(c).published, n), ..*old(c) }),
{
    c.published = c.published.wrapping_add(n);
}

/// Counts `n` enqueued messages.
pub fn inc_enqueued(c: &mut Counters, n: u64)
    ensures
        *final(c) == (Counters { enqueued: wrap_add(old(c).enqueued, n), ..*old(c) }),
{
    c.enqueued = c.enqueued.wrapping_add(n);
}

/// Counts `n` messages dropped for their time to live.
pub fn inc_dropped_ttl(c: &mut Counters, n: u64)
    ensures
        *final(c) == (Counters { dropped_ttl: wrap_add(old(c).dropped_ttl, n), ..*old(c) }),
{
    c.dropped_ttl = c.dropped_ttl.wrapping_add(n);
}

/// Counts `n` messages dropped because a subscriber's queue was full.
pub fn inc_dropped_sub_queue_full(c: &mut Counters, n: u64)
    ensures
        *final(c) == (Counters { dropped_sub_queue_full: wrap_add(old(c).dropped_sub_queue_full, n), ..*old(c) }),
{
    c.dropped_sub_queue_full = c.dropped_sub_queue_full.wrapping_add(n);
}

/// Counts `n` flushed bytes.
pub fn inc_flush_bytes(c: &mut Counters, n: u64)
    ensures
        *final(c) == (Counters { flush_bytes: wrap_add(old(c).flush_bytes, n), ..*old(c) }),
{
    c.flush_bytes = c.flush_bytes.wrapping_add(n);
}

/// Counts `n` flushed batches.
pub fn inc_flush_batches(c: &mut Counters, n: u64)
    ensures
        *final(c) == (Counters { flush_batches: wrap_add(old(c).flush_batches, n), ..*old(c) }),
{
    c.flush_batches = c.flush_batches.wrapping_add(n);
}

/// The counters as text: one `name value` line each.
pub open spec fn exposition(c: Counters) -> Seq<char> {
    "blipmq_published "@ + decimal(c.published as nat) + "\n"@
        + "blipmq_enqueued "@ + decimal(c.enqueued as nat) + "\n"@
        + "blipmq_dropped_ttl "@ + decimal(c.dropped_ttl as nat) + "\n"@
        + "blipmq_dropped_sub_queue_full "@ + decimal(c.dropped_sub_queue_full as nat) + "\n"@
        + "blipmq_flush_bytes "@ + decimal(c.flush_bytes as nat) + "\n"@
        + "blipmq_flush_batches "@ + decimal(c.flush_batches as nat) + "\n"@
}

/// The counters as text, one `name value` line each.
pub fn snapshot(c: &Counters) -> (s: String)
    ensures
        s@ == exposition(*c),
{
    let mut s = str_to_string("blipmq_published ");
    push_decimal(&mut s, c.published);
    string_push_str(&mut s, "\n");
    string_push_str(&mut s, "blipmq_enqueued ");
    push_decimal(&mut s, c.enqueued);
    string_push_str(&mut s, "\n");
    string_push_str(&mut s, "blipmq_dropped_ttl ");
    push_decimal(&mut s, c.dropped_ttl);
    string_push_str(&mut s, "\n");
    string_push_str(&mut s, "blipmq_dropped_sub_queue_full ");
    push_decimal(&mut s, c.dropped_sub_queue_full);
    string_push_str(&mut s, "\n");
    string_push_str(&mut s, "blipmq_flush_bytes ");
    push_decimal(&mut s, c.flush_bytes);
    string_push_str(&mut s, "\n");
    string_push_str(&mut s, "blipmq_flush_batches ");
    push_decimal(&mut s, c.flush_batches);
    string_push_str(&mut s, "\n");
    s
}

} // verus!
