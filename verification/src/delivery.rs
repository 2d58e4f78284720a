//! Delivery settings of publishers, subscribers and batches.

use vstd::prelude::*;

verus! {

/// How messages of a topic are delivered (at most once).
#[derive(Debug, Clone, Copy, PartialEq, Eq, Structural)]
pub enum DeliveryMode {
    /// In publication order (the default).
    Ordered,
    /// In parallel, without an order.
    Parallel,
}

/// Publisher settings.
#[derive(Debug, Clone, Copy)]
pub struct PublisherConfig {
    /// The delivery mode of every published message.
    pub delivery_mode: DeliveryMode,
}

impl Default for PublisherConfig {
    fn default() -> (c: PublisherConfig)
        ensures
            c.delivery_mode == DeliveryMode::Ordered,
    {
        PublisherConfig { delivery_mode: DeliveryMode::Ordered }
    }
}

/// Batching settings.
#[derive(Debug, Clone, Copy)]
pub struct BatchConfig {
    /// Most items in one batch.
    pub max_batch_size: usize,
    /// Longest wait before a partial batch is processed, in milliseconds.
    pub max_batch_delay_ms: u64,
    /// Capacity of the batch queue.
    pub channel_capacity: usize,
}

impl Default for BatchConfig {
    fn default() -> (c: BatchConfig)
        ensures
            c.max_batch_size == 1000,
            c.max_batch_delay_ms == 10,
            c.channel_capacity == 8192,
    {
        BatchConfig { max_batch_size: 1000, max_batch_delay_ms: 10, channel_capacity: 8192 }
    }
}

/// The name of a subscriber (its peer address).
#[derive(Debug, Clone, PartialEq, Eq, Hash)]
pub struct SubscriberId(pub String);

impl From<String> for SubscriberId {
    fn from(s: String) -> (id: SubscriberId) {
        SubscriberId(s)
    }
}

impl vstd::std_specs::convert::FromSpecImpl<String> for SubscriberId {
    open spec fn obeys_from_spec() -> bool {
        true
    }

    open spec fn from_spec(v: String) -> SubscriberId {
        SubscriberId(v)
    }
}

impl SubscriberId {
    /// The name.
    pub fn as_str(&self) -> (s: &str)
        ensures
            s@ == self.0@,
    {
        self.0.as_str()
    }

    /// The name, given up.
    pub fn into_string(self) -> (s: String)
        ensures
            s == self.0,
    {
        self.0
    }
}

} // verus!
