//! The broker's detailed metrics: message, connection and topic counters,
//! latency histograms, per-topic counters and a bounded history of
//! snapshots. Counters wrap around as the atomic counters they model do.

use vstd::prelude::*;
use crate::assoc::StrMap;
use crate::clock::now_millis;
use crate::text::str_to_string;

verus! {

/// `a + b` modulo 2^64.
pub open spec fn wrap_add(a: u64, b: u64) -> u64 {
    vstd::wrapping::u64_specs::wrapping_add(a, b)
}

/// `a - b` modulo 2^64.
pub open spec fn wrap_sub(a: u64, b: u64) -> u64 {
    vstd::wrapping::u64_specs::wrapping_sub(a, b)
}

/// The histogram bucket of a latency: bounds 1, 5, 10, 25, 50, 100, 250,
/// 500 and 1000 ms, and a last bucket above.
pub open spec fn latency_bucket(ms: u64) -> int {
    if ms <= 1 {
        0
    } else if ms <= 5 {
        1
    } else if ms <= 10 {
        2
    } else if ms <= 25 {
        3
    } else if ms <= 50 {
        4
    } else if ms <= 100 {
        5
    } else if ms <= 250 {
        6
    } else if ms <= 500 {
        7
    } else if ms <= 1000 {
        8
    } else {
        9
    }
}

/// Latency statistics: count, sum, least and greatest (0 while unset), and
/// a histogram of ten buckets.
#[derive(Debug, Clone)]
pub struct LatencyMetrics {
    pub count: u64,
    pub sum_ms: u64,
    pub min_ms: u64,
    pub max_ms: u64,
    pub buckets: Vec<u64>,
}

/// The latency statistics at one moment.
#[derive(Debug, Clone)]
pub struct LatencySnapshot {
    pub count: u64,
    pub sum_ms: u64,
    pub min_ms: u64,
    pub max_ms: u64,
    pub buckets: Vec<u64>,
}

impl LatencyMetrics {
    /// Nothing recorded: every counter and bucket at zero.
    pub fn new() -> (m: LatencyMetrics)
        ensures
            m.count == 0 && m.sum_ms == 0 && m.min_ms == 0 && m.max_ms == 0,
            m.buckets@ == Seq::new(10, |i: int| 0u64),
    {
        let mut buckets: Vec<u64> = Vec::new();
        let mut i: usize = 0;
        while i < 10
            invariant
                i <= 10,
                buckets@ == Seq::new(i as nat, |j: int| 0u64),
            decreases 10 - i,
        {
            buckets.push(0);
            i = i + 1;
            proof {
                assert(buckets@ =~= Seq::new(i as nat, |j: int| 0u64));
            }
        }
        LatencyMetrics { count: 0, sum_ms: 0, min_ms: 0, max_ms: 0, buckets }
    }

    /// Records one latency: it is counted and summed, lowers the minimum
    /// when smaller or when the minimum is unset, raises the maximum when
    /// larger, and counts in its bucket.
    pub fn record(&mut self, latency_ms: u64)
        requires
            old(self).buckets@.len() == 10,
        ensures
            recorded_latency(*old(self), *final(self), latency_ms),
    {
        self.count = self.count.wrapping_add(1);
        self.sum_ms = self.sum_ms.wrapping_add(latency_ms);
        if !(latency_ms >= self.min_ms && self.min_ms != 0) {
            self.min_ms = latency_ms;
        }
        if latency_ms > self.max_ms {
            self.max_ms = latency_ms;
        }
        let idx: usize = if latency_ms <= 1 {
            0
        } else if latency_ms <= 5 {
            1
        } else if latency_ms <= 10 {
            2
        } else if latency_ms <= 25 {
            3
        } else if latency_ms <= 50 {
            4
        } else if latency_ms <= 100 {
            5
        } else if latency_ms <= 250 {
            6
        } else if latency_ms <= 500 {
            7
        } else if latency_ms <= 1000 {
            8
        } else {
            9
        };
        let v = self.buckets[idx].wrapping_add(1);
        self.buckets.set(idx, v);
    }

    /// The statistics' current values.
    pub fn snapshot(&self) -> (s: LatencySnapshot)
        ensures
            s.count == self.count,
            s.sum_ms == self.sum_ms,
            s.min_ms == self.min_ms,
            s.max_ms == self.max_ms,
            s.buckets@ == self.buckets@,
    {
        LatencySnapshot {
            count: self.count,
            sum_ms: self.sum_ms,
            min_ms: self.min_ms,
            max_ms: self.max_ms,
            buckets: self.buckets.clone(),
        }
    }
}

/// Counters of one topic.
#[derive(Debug, Clone, Copy, PartialEq, Eq, Structural)]
pub struct TopicMetrics {
    pub messages_published: u64,
    pub messages_delivered: u64,
    pub subscribers_count: u64,
    pub messages_in_queue: u64,
    pub bytes_published: u64,
    pub bytes_delivered: u64,
    pub last_message_at: u64,
    pub created_at: u64,
}

/// The counters of one topic at one moment, with its name.
#[derive(Debug, Clone)]
pub struct TopicMetricsSnapshot {
    pub topic_name: String,
    pub messages_published: u64,
    pub messages_delivered: u64,
    pub subscribers_count: u64,
    pub messages_in_queue: u64,
    pub bytes_published: u64,
    pub bytes_delivered: u64,
    pub last_message_at: u64,
    pub created_at: u64,
}

/// Fresh counters of a topic created at `now`.
pub open spec fn fresh_topic(now: u64) -> TopicMetrics {
    TopicMetrics {
        messages_published: 0,
        messages_delivered: 0,
        subscribers_count: 0,
        messages_in_queue: 0,
        bytes_published: 0,
        bytes_delivered: 0,
        last_message_at: 0,
        created_at: now,
    }
}

impl TopicMetrics {
    /// Counters of a topic created at `now`, all zero.
    pub fn new_at(now: u64) -> (t: TopicMetrics)
        ensures
            t == fresh_topic(now),
    {
        TopicMetrics {
            messages_published: 0,
            messages_delivered: 0,
            subscribers_count: 0,
            messages_in_queue: 0,
            bytes_published: 0,
            bytes_delivered: 0,
            last_message_at: 0,
            created_at: now,
        }
    }

    /// Counters of a topic created now, all zero.
    pub fn new() -> (t: TopicMetrics)
        ensures
            t == fresh_topic(t.created_at),
    {
        TopicMetrics::new_at(now_millis())
    }

    /// The counters' current values, under the name `topic_name`.
    pub fn snapshot(&self, topic_name: &str) -> (s: TopicMetricsSnapshot)
        ensures
            s.topic_name@ == topic_name@,
            s.messages_published == self.messages_published,
            s.messages_delivered == self.messages_delivered,
            s.subscribers_count == self.subscribers_count,
            s.messages_in_queue == self.messages_in_queue,
            s.bytes_published == self.bytes_published,
            s.bytes_delivered == self.bytes_delivered,
            s.last_message_at == self.last_message_at,
            s.created_at == self.created_at,
    {
        TopicMetricsSnapshot {
            topic_name: str_to_string(topic_name),
            messages_published: self.messages_published,
            messages_delivered: self.messages_delivered,
            subscribers_count: self.subscribers_count,
            messages_in_queue: self.messages_in_queue,
            bytes_published: self.bytes_published,
            bytes_delivered: self.bytes_delivered,
            last_message_at: self.last_message_at,
            created_at: self.created_at,
        }
    }
}

/// All metrics at one moment.
#[derive(Debug, Clone)]
pub struct MetricsSnapshot {
    pub timestamp: u64,
    pub messages_published: u64,
    pub messages_delivered: u64,
    pub messages_acknowledged: u64,
    pub messages_failed: u64,
    pub messages_dropped_ttl: u64,
    pub messages_dropped_queue_full: u64,
    pub connections_active: u64,
    pub connections_total: u64,
    pub connections_failed: u64,
    pub topics_created: u64,
    pub topics_deleted: u64,
    pub subscribers_active: u64,
    pub publish_latency: LatencySnapshot,
    pub delivery_latency: LatencySnapshot,
    pub memory_usage_bytes: u64,
    pub disk_usage_bytes: u64,
    pub cpu_usage_percent: u64,
    pub topic_metrics: Vec<TopicMetricsSnapshot>,
}

/// Two snapshots hold the same counters, latency statistics and topic counts.
pub open spec fn same_snapshot(a: MetricsSnapshot, b: MetricsSnapshot) -> bool {
    &&& a.timestamp == b.timestamp
    &&& a.messages_published == b.messages_published
    &&& a.messages_delivered == b.messages_delivered
    &&& a.messages_acknowledged == b.messages_acknowledged
    &&& a.messages_failed == b.messages_failed
    &&& a.messages_dropped_ttl == b.messages_dropped_ttl
    &&& a.messages_dropped_queue_full == b.messages_dropped_queue_full
    &&& a.connections_active == b.connections_active
    &&& a.connections_total == b.connections_total
    &&& a.connections_failed == b.connections_failed
    &&& a.topics_created == b.topics_created
    &&& a.topics_deleted == b.topics_deleted
    &&& a.subscribers_active == b.subscribers_active
    &&& a.memory_usage_bytes == b.memory_usage_bytes
    &&& a.disk_usage_bytes == b.disk_usage_bytes
    &&& a.cpu_usage_percent == b.cpu_usage_percent
    &&& a.publish_latency.count == b.publish_latency.count
    &&& a.publish_latency.sum_ms == b.publish_latency.sum_ms
    &&& a.delivery_latency.count == b.delivery_latency.count
    &&& a.delivery_latency.sum_ms == b.delivery_latency.sum_ms
    &&& a.topic_metrics@.len() == b.topic_metrics@.len()
}

impl LatencySnapshot {
    /// A copy.
    pub fn duplicate(&self) -> (r: LatencySnapshot)
        ensures
            r.count == self.count,
            r.sum_ms == self.sum_ms,
            r.min_ms == self.min_ms,
            r.max_ms == self.max_ms,
            r.buckets@ == self.buckets@,
    {
        LatencySnapshot {
            count: self.count,
            sum_ms: self.sum_ms,
            min_ms: self.min_ms,
            max_ms: self.max_ms,
            buckets: self.buckets.clone(),
        }
    }
}

impl TopicMetricsSnapshot {
    /// A copy.
    pub fn duplicate(&self) -> (r: TopicMetricsSnapshot)
        ensures
            r.topic_name@ == self.topic_name@,
            r.messages_published == self.messages_published,
            r.messages_delivered == self.messages_delivered,
            r.subscribers_count == self.subscribers_count,
            r.messages_in_queue == self.messages_in_queue,
            r.bytes_published == self.bytes_published,
            r.bytes_delivered == self.bytes_delivered,
            r.last_message_at == self.last_message_at,
            r.created_at == self.created_at,
    {
        TopicMetricsSnapshot {
            topic_name: self.topic_name.clone(),
            messages_published: self.messages_published,
            messages_delivered: self.messages_delivered,
            subscribers_count: self.subscribers_count,
            messages_in_queue: self.messages_in_queue,
            bytes_published: self.bytes_published,
            bytes_delivered: self.bytes_delivered,
            last_message_at: self.last_message_at,
            created_at: self.created_at,
        }
    }
}

impl MetricsSnapshot {
    /// A copy.
    pub fn duplicate(&self) -> (r: MetricsSnapshot)
        ensures
            same_snapshot(r, *self),
    {
        let mut topics: Vec<TopicMetricsSnapshot> = Vec::new();
        let mut i: usize = 0;
        while i < self.topic_metrics.len()
            invariant
                i <= self.topic_metrics@.len(),
                topics@.len() == i,
            decreases self.topic_metrics@.len() - i,
        {
            topics.push(self.topic_metrics[i].duplicate());
            i = i + 1;
        }
        MetricsSnapshot {
            timestamp: self.timestamp,
            messages_published: self.messages_published,
            messages_delivered: self.messages_delivered,
            messages_acknowledged: self.messages_acknowledged,
            messages_failed: self.messages_failed,
            messages_dropped_ttl: self.messages_dropped_ttl,
            messages_dropped_queue_full: self.messages_dropped_queue_full,
            connections_active: self.connections_active,
            connections_total: self.connections_total,
            connections_failed: self.connections_failed,
            topics_created: self.topics_created,
            topics_deleted: self.topics_deleted,
            subscribers_active: self.subscribers_active,
            publish_latency: self.publish_latency.duplicate(),
            delivery_latency: self.delivery_latency.duplicate(),
            memory_usage_bytes: self.memory_usage_bytes,
            disk_usage_bytes: self.disk_usage_bytes,
            cpu_usage_percent: self.cpu_usage_percent,
            topic_metrics: topics,
        }
    }
}

/// `s` holds collector `m`'s counters and, topic by topic in the order
/// they were added, each topic's name and counters.
pub open spec fn snapshot_of(m: MetricsCollector, s: MetricsSnapshot) -> bool {
    &&& s.messages_published == m.messages_published
    &&& s.messages_delivered == m.messages_delivered
    &&& s.messages_acknowledged == m.messages_acknowledged
    &&& s.messages_failed == m.messages_failed
    &&& s.messages_dropped_ttl == m.messages_dropped_ttl
    &&& s.messages_dropped_queue_full == m.messages_dropped_queue_full
    &&& s.connections_active == m.connections_active
    &&& s.connections_total == m.connections_total
    &&& s.connections_failed == m.connections_failed
    &&& s.topics_created == m.topics_created
    &&& s.topics_deleted == m.topics_deleted
    &&& s.subscribers_active == m.subscribers_active
    &&& s.memory_usage_bytes == m.memory_usage_bytes
    &&& s.disk_usage_bytes == m.disk_usage_bytes
    &&& s.cpu_usage_percent == m.cpu_usage_percent
    &&& s.publish_latency.count == m.publish_latency_ms.count
    &&& s.delivery_latency.count == m.delivery_latency_ms.count
    &&& s.topic_metrics@.len() == m.topic_metrics.entries().len()
    &&& forall|i: int| 0 <= i < s.topic_metrics@.len() ==> {
        &&& (#[trigger] s.topic_metrics@[i]).topic_name@ == m.topic_metrics.entries()[i].0@
        &&& s.topic_metrics@[i].messages_published == m.topic_metrics.entries()[i].1.messages_published
        &&& s.topic_metrics@[i].messages_delivered == m.topic_metrics.entries()[i].1.messages_delivered
        &&& s.topic_metrics@[i].subscribers_count == m.topic_metrics.entries()[i].1.subscribers_count
    }
}

/// The topic counters after a message of `size_bytes` is published to
/// `topic` at `now`: the topic's counters (fresh ones if it had none) count
/// one more message and its bytes, and the message's time.
pub open spec fn after_publish(m: Map<Seq<char>, TopicMetrics>, topic: Seq<char>, size_bytes: usize, now: u64) -> Map<Seq<char>, TopicMetrics> {
    let before = if m.contains_key(topic) { m[topic] } else { fresh_topic(now) };
    m.insert(topic, TopicMetrics {
        messages_published: wrap_add(before.messages_published, 1),
        bytes_published: wrap_add(before.bytes_published, size_bytes as u64),
        last_message_at: now,
        ..before
    })
}

/// The history after `s` is stored: `s` goes last, and the oldest snapshot
/// is dropped when the history would exceed `max` snapshots.
pub open spec fn history_after(h: Seq<MetricsSnapshot>, s: MetricsSnapshot, max: usize) -> Seq<MetricsSnapshot> {
    let grown = h.push(s);
    if grown.len() > max { grown.drop_first() } else { grown }
}

/// `b` is latency statistics `a` after `ms` is recorded: it is counted and
/// summed, lowers the minimum when smaller or when the minimum is unset,
/// raises the maximum when larger, and counts in its bucket.
pub open spec fn recorded_latency(a: LatencyMetrics, b: LatencyMetrics, ms: u64) -> bool {
    &&& b.count == wrap_add(a.count, 1)
    &&& b.sum_ms == wrap_add(a.sum_ms, ms)
    &&& b.min_ms == (if ms >= a.min_ms && a.min_ms != 0 { a.min_ms } else { ms })
    &&& b.max_ms == (if ms > a.max_ms { ms } else { a.max_ms })
    &&& b.buckets@ == a.buckets@.update(latency_bucket(ms), wrap_add(a.buckets@[latency_bucket(ms)], 1))
}

/// The collector's plain counters.
pub struct CollectorCounts {
    pub messages_published: u64,
    pub messages_delivered: u64,
    pub messages_acknowledged: u64,
    pub messages_failed: u64,
    pub messages_dropped_ttl: u64,
    pub messages_dropped_queue_full: u64,
    pub connections_active: u64,
    pub connections_total: u64,
    pub connections_failed: u64,
    pub topics_created: u64,
    pub topics_deleted: u64,
    pub subscribers_active: u64,
    pub memory_usage_bytes: u64,
    pub disk_usage_bytes: u64,
    pub cpu_usage_percent: u64,
}

/// The plain counters of collector `m`.
pub open spec fn counts_of(m: MetricsCollector) -> CollectorCounts {
    CollectorCounts {
        messages_published: m.messages_published,
        messages_delivered: m.messages_delivered,
        messages_acknowledged: m.messages_acknowledged,
        messages_failed: m.messages_failed,
        messages_dropped_ttl: m.messages_dropped_ttl,
        messages_dropped_queue_full: m.messages_dropped_queue_full,
        connections_active: m.connections_active,
        connections_total: m.connections_total,
        connections_failed: m.connections_failed,
        topics_created: m.topics_created,
        topics_deleted: m.topics_deleted,
        subscribers_active: m.subscribers_active,
        memory_usage_bytes: m.memory_usage_bytes,
        disk_usage_bytes: m.disk_usage_bytes,
        cpu_usage_percent: m.cpu_usage_percent,
    }
}

/// The latency statistics, the history and its bound are as they were.
pub open spec fn rest_same(a: MetricsCollector, b: MetricsCollector) -> bool {
    &&& b.publish_latency_ms == a.publish_latency_ms
    &&& b.delivery_latency_ms == a.delivery_latency_ms
    &&& b.historical_data == a.historical_data
    &&& b.max_history_size == a.max_history_size
}

/// The topic counters after a message of `size_bytes` is delivered from
/// `topic`: a topic with counters counts one more message and its bytes; a
/// topic without is left alone (no counters are created).
pub open spec fn after_delivery(m: Map<Seq<char>, TopicMetrics>, topic: Seq<char>, size_bytes: usize) -> Map<Seq<char>, TopicMetrics> {
    if m.contains_key(topic) {
        m.insert(topic, TopicMetrics {
            messages_delivered: wrap_add(m[topic].messages_delivered, 1),
            bytes_delivered: wrap_add(m[topic].bytes_delivered, size_bytes as u64),
            ..m[topic]
        })
    } else {
        m
    }
}

/// The topic counters after a subscriber is added to (`added`) or removed
/// from `topic`: a topic with counters counts one subscriber more or fewer;
/// a topic without is left alone.
pub open spec fn subscribers_moved(m: Map<Seq<char>, TopicMetrics>, topic: Seq<char>, added: bool) -> Map<Seq<char>, TopicMetrics> {
    if m.contains_key(topic) {
        m.insert(topic, TopicMetrics {
            subscribers_count: if added {
                wrap_add(m[topic].subscribers_count, 1)
            } else {
                wrap_sub(m[topic].subscribers_count, 1)
            },
            ..m[topic]
        })
    } else {
        m
    }
}

/// The broker-wide metrics.
#[derive(Debug)]
pub struct MetricsCollector {
    pub messages_published: u64,
    pub messages_delivered: u64,
    pub messages_acknowledged: u64,
    pub messages_failed: u64,
    pub messages_dropped_ttl: u64,
    pub messages_dropped_queue_full: u64,
    pub connections_active: u64,
    pub connections_total: u64,
    pub connections_failed: u64,
    pub topics_created: u64,
    pub topics_deleted: u64,
    pub subscribers_active: u64,
    pub publish_latency_ms: LatencyMetrics,
    pub delivery_latency_ms: LatencyMetrics,
    pub memory_usage_bytes: u64,
    pub disk_usage_bytes: u64,
    pub cpu_usage_percent: u64,
    /// Counters per topic, by name.
    pub topic_metrics: StrMap<TopicMetrics>,
    /// Past snapshots, oldest first.
    pub historical_data: Vec<MetricsSnapshot>,
    pub max_history_size: usize,
}

impl MetricsCollector {
    /// The collector's shape: ten buckets per latency histogram and a
    /// history no longer than its bound.
    pub open spec fn wf(&self) -> bool {
        &&& self.publish_latency_ms.buckets@.len() == 10
        &&& self.delivery_latency_ms.buckets@.len() == 10
        &&& self.historical_data@.len() <= self.max_history_size
    }

    /// Everything at zero, no topics, room for 1000 snapshots.
    pub fn new() -> (m: MetricsCollector)
        ensures
            m.wf(),
            m.messages_published == 0 && m.messages_delivered == 0 && m.messages_acknowledged == 0,
            m.messages_failed == 0 && m.messages_dropped_ttl == 0 && m.messages_dropped_queue_full == 0,
            m.connections_active == 0 && m.connections_total == 0 && m.connections_failed == 0,
            m.topics_created == 0 && m.topics_deleted == 0 && m.subscribers_active == 0,
            m.memory_usage_bytes == 0 && m.disk_usage_bytes == 0 && m.cpu_usage_percent == 0,
            m.topic_metrics.view() == Map::<Seq<char>, TopicMetrics>::empty(),
            m.historical_data@.len() == 0,
            m.max_history_size == 1000,
    {
        MetricsCollector {
            messages_published: 0,
            messages_delivered: 0,
            messages_acknowledged: 0,
            messages_failed: 0,
            messages_dropped_ttl: 0,
            messages_dropped_queue_full: 0,
            connections_active: 0,
            connections_total: 0,
            connections_failed: 0,
            topics_created: 0,
            topics_deleted: 0,
            subscribers_active: 0,
            publish_latency_ms: LatencyMetrics::new(),
            delivery_latency_ms: LatencyMetrics::new(),
            memory_usage_bytes: 0,
            disk_usage_bytes: 0,
            cpu_usage_percent: 0,
            topic_metrics: StrMap::new(),
            historical_data: Vec::new(),
            max_history_size: 1000,
        }
    }

    /// Counts a message of `size_bytes` published to `topic` at `now`; the
    /// topic's counters are created (stamped `now`) if missing.
    pub fn record_message_published_at(&mut self, topic: &str, size_bytes: usize, now: u64)
        ensures
            counts_of(*final(self)) == (CollectorCounts { messages_published: wrap_add(old(self).messages_published, 1), ..counts_of(*old(self)) }),
            final(self).topic_metrics.view() == after_publish(old(self).topic_metrics.view(), topic@, size_bytes, now),
            rest_same(*old(self), *final(self)),
    {
        self.messages_published = self.messages_published.wrapping_add(1);
        let mut t = match self.topic_metrics.get(topic) {
            Some(t) => *t,
            None => TopicMetrics::new_at(now),
        };
        t.messages_published = t.messages_published.wrapping_add(1);
        t.bytes_published = t.bytes_published.wrapping_add(size_bytes as u64);
        t.last_message_at = now;
        self.topic_metrics.insert(str_to_string(topic), t);
    }

    /// Counts a message published to `topic`, by the clock.
    pub fn record_message_published(&mut self, topic: &str, size_bytes: usize)
        ensures
            counts_of(*final(self)) == (CollectorCounts { messages_published: wrap_add(old(self).messages_published, 1), ..counts_of(*old(self)) }),
            exists|now: u64| final(self).topic_metrics.view() == #[trigger] after_publish(old(self).topic_metrics.view(), topic@, size_bytes, now),
            final(self).topic_metrics.view().contains_key(topic@),
            rest_same(*old(self), *final(self)),
            old(self).wf() ==> final(self).wf(),
    {
        let now = now_millis();
        self.record_message_published_at(topic, size_bytes, now);
        proof {
            assert(self.topic_metrics.view() == after_publish(old(self).topic_metrics.view(), topic@, size_bytes, now));
        }
    }

    /// Counts a message of `size_bytes` delivered from `topic` in
    /// `latency_ms`; a topic without counters is left alone.
    pub fn record_message_delivered(&mut self, topic: &str, size_bytes: usize, latency_ms: u64)
        requires
            old(self).wf(),
        ensures
            final(self).wf(),
            counts_of(*final(self)) == (CollectorCounts { messages_delivered: wrap_add(old(self).messages_delivered, 1), ..counts_of(*old(self)) }),
            recorded_latency(old(self).delivery_latency_ms, final(self).delivery_latency_ms, latency_ms),
            final(self).publish_latency_ms == old(self).publish_latency_ms,
            final(self).topic_metrics.view() == after_delivery(old(self).topic_metrics.view(), topic@, size_bytes),
            final(self).historical_data == old(self).historical_data,
            final(self).max_history_size == old(self).max_history_size,
    {
        self.messages_delivered = self.messages_delivered.wrapping_add(1);
        self.delivery_latency_ms.record(latency_ms);
        match self.topic_metrics.get(topic) {
            Some(t) => {
                let mut t = *t;
                t.messages_delivered = t.messages_delivered.wrapping_add(1);
                t.bytes_delivered = t.bytes_delivered.wrapping_add(size_bytes as u64);
                self.topic_metrics.insert(str_to_string(topic), t);
            },
            None => {},
        }
    }

    /// Counts an opened connection.
    pub fn record_connection_opened(&mut self)
        ensures
            *final(self) == (MetricsCollector { connections_active: wrap_add(old(self).connections_active, 1), connections_total: wrap_add(old(self).connections_total, 1), ..*old(self) }),
    {
        self.connections_active = self.connections_active.wrapping_add(1);
        self.connections_total = self.connections_total.wrapping_add(1);
    }

    /// Counts a closed connection.
    pub fn record_connection_closed(&mut self)
        ensures
            *final(self) == (MetricsCollector { connections_active: wrap_sub(old(self).connections_active, 1), ..*old(self) }),
    {
        self.connections_active = self.connections_active.wrapping_sub(1);
    }

    /// Counts a failed connection.
    pub fn record_connection_failed(&mut self)
        ensures
            *final(self) == (MetricsCollector { connections_failed: wrap_add(old(self).connections_failed, 1), ..*old(self) }),
    {
        self.connections_failed = self.connections_failed.wrapping_add(1);
    }

    /// Counts a created topic and starts its counters afresh at `now`.
    pub fn record_topic_created_at(&mut self, topic: &str, now: u64)
        ensures
            counts_of(*final(self)) == (CollectorCounts { topics_created: wrap_add(old(self).topics_created, 1), ..counts_of(*old(self)) }),
            final(self).topic_metrics.view() == old(self).topic_metrics.view().insert(topic@, fresh_topic(now)),
            rest_same(*old(self), *final(self)),
    {
        self.topics_created = self.topics_created.wrapping_add(1);
        self.topic_metrics.insert(str_to_string(topic), TopicMetrics::new_at(now));
    }

    /// Counts a created topic and starts its counters afresh, by the clock.
    pub fn record_topic_created(&mut self, topic: &str)
        ensures
            counts_of(*final(self)) == (CollectorCounts { topics_created: wrap_add(old(self).topics_created, 1), ..counts_of(*old(self)) }),
            exists|now: u64| final(self).topic_metrics.view() == old(self).topic_metrics.view().insert(topic@, #[trigger] fresh_topic(now)),
            rest_same(*old(self), *final(self)),
    {
        let now = now_millis();
        self.record_topic_created_at(topic, now);
        proof {
            assert(self.topic_metrics.view() == old(self).topic_metrics.view().insert(topic@, fresh_topic(now)));
        }
    }

    /// Counts a deleted topic and drops its counters.
    pub fn record_topic_deleted(&mut self, topic: &str)
        ensures
            counts_of(*final(self)) == (CollectorCounts { topics_deleted: wrap_add(old(self).topics_deleted, 1), ..counts_of(*old(self)) }),
            final(self).topic_metrics.view() == old(self).topic_metrics.view().remove(topic@),
            rest_same(*old(self), *final(self)),
    {
        self.topics_deleted = self.topics_deleted.wrapping_add(1);
        self.topic_metrics.remove(topic);
    }

    /// Counts a subscriber added to `topic` (and to the topic's counters, if any).
    pub fn record_subscriber_added(&mut self, topic: &str)
        ensures
            counts_of(*final(self)) == (CollectorCounts { subscribers_active: wrap_add(old(self).subscribers_active, 1), ..counts_of(*old(self)) }),
            final(self).topic_metrics.view() == subscribers_moved(old(self).topic_metrics.view(), topic@, true),
            rest_same(*old(self), *final(self)),
    {
        self.subscribers_active = self.subscribers_active.wrapping_add(1);
        match self.topic_metrics.get(topic) {
            Some(t) => {
                let mut t = *t;
                t.subscribers_count = t.subscribers_count.wrapping_add(1);
                self.topic_metrics.insert(str_to_string(topic), t);
            },
            None => {},
        }
    }

    /// Counts a subscriber removed from `topic` (and from the topic's counters, if any).
    pub fn record_subscriber_removed(&mut self, topic: &str)
        ensures
            counts_of(*final(self)) == (CollectorCounts { subscribers_active: wrap_sub(old(self).subscribers_active, 1), ..counts_of(*old(self)) }),
            final(self).topic_metrics.view() == subscribers_moved(old(self).topic_metrics.view(), topic@, false),
            rest_same(*old(self), *final(self)),
    {
        self.subscribers_active = self.subscribers_active.wrapping_sub(1);
        match self.topic_metrics.get(topic) {
            Some(t) => {
                let mut t = *t;
                t.subscribers_count = t.subscribers_count.wrapping_sub(1);
                self.topic_metrics.insert(str_to_string(topic), t);
            },
            None => {},
        }
    }

    /// Stores a measured memory use.
    pub fn update_resource_metrics(&mut self, memory_usage: Option<u64>)
        ensures
            *final(self) == (MetricsCollector {
                memory_usage_bytes: match memory_usage {
                    Some(x) => x,
                    None => old(self).memory_usage_bytes,
                },
                ..*old(self)
            }),
    {
        match memory_usage {
            Some(m) => self.memory_usage_bytes = m,
            None => {},
        }
    }

    /// All metrics at `now`, the topics in the order their counters were created.
    pub fn snapshot_at(&self, now: u64) -> (s: MetricsSnapshot)
        ensures
            s.timestamp == now,
            snapshot_of(*self, s),
    {
        let n = self.topic_metrics.len();
        let mut topics: Vec<TopicMetricsSnapshot> = Vec::new();
        let mut i: usize = 0;
        while i < n
            invariant
                n == self.topic_metrics.entries().len(),
                i <= n,
                topics@.len() == i,
                forall|j: int| 0 <= j < i ==> {
                    &&& (#[trigger] topics@[j]).topic_name@ == self.topic_metrics.entries()[j].0@
                    &&& topics@[j].messages_published == self.topic_metrics.entries()[j].1.messages_published
                    &&& topics@[j].messages_delivered == self.topic_metrics.entries()[j].1.messages_delivered
                    &&& topics@[j].subscribers_count == self.topic_metrics.entries()[j].1.subscribers_count
                },
            decreases n - i,
        {
            let e = self.topic_metrics.entry_at(i);
            topics.push(e.1.snapshot(e.0.as_str()));
            i = i + 1;
        }
        MetricsSnapshot {
            timestamp: now,
            messages_published: self.messages_published,
            messages_delivered: self.messages_delivered,
            messages_acknowledged: self.messages_acknowledged,
            messages_failed: self.messages_failed,
            messages_dropped_ttl: self.messages_dropped_ttl,
            messages_dropped_queue_full: self.messages_dropped_queue_full,
            connections_active: self.connections_active,
            connections_total: self.connections_total,
            connections_failed: self.connections_failed,
            topics_created: self.topics_created,
            topics_deleted: self.topics_deleted,
            subscribers_active: self.subscribers_active,
            publish_latency: self.publish_latency_ms.snapshot(),
            delivery_latency: self.delivery_latency_ms.snapshot(),
            memory_usage_bytes: self.memory_usage_bytes,
            disk_usage_bytes: self.disk_usage_bytes,
            cpu_usage_percent: self.cpu_usage_percent,
            topic_metrics: topics,
        }
    }

    /// All metrics now.
    pub fn snapshot(&self) -> (s: MetricsSnapshot)
        ensures
            snapshot_of(*self, s),
    {
        self.snapshot_at(now_millis())
    }

    /// Appends a snapshot to the history, dropping the oldest one when the
    /// history would exceed its bound.
    pub fn store_snapshot_with(&mut self, snapshot: MetricsSnapshot)
        requires
            old(self).wf(),
        ensures
            final(self).wf(),
            final(self).historical_data@ == history_after(old(self).historical_data@, snapshot, old(self).max_history_size),
            final(self).max_history_size == old(self).max_history_size,
    {
        self.historical_data.push(snapshot);
        if self.historical_data.len() > self.max_history_size {
            self.historical_data.remove(0);
        }
        proof {
            let grown = old(self).historical_data@.push(snapshot);
            if grown.len() > old(self).max_history_size {
                assert(self.historical_data@ =~= grown.drop_first());
            }
        }
    }

    /// Takes a snapshot now and stores it in the history.
    pub fn store_snapshot(&mut self)
        requires
            old(self).wf(),
        ensures
            final(self).wf(),
            exists|s: MetricsSnapshot| #[trigger] snapshot_of(*old(self), s)
                && final(self).historical_data@ == history_after(old(self).historical_data@, s, old(self).max_history_size),
            final(self).max_history_size == old(self).max_history_size,
    {
        let s = self.snapshot();
        let ghost sv = s;
        self.store_snapshot_with(s);
        proof {
            assert(snapshot_of(*old(self), sv));
        }
    }

    /// The last `limit` stored snapshots (all of them without a limit or
    /// when there are fewer), oldest first.
    pub fn get_history(&self, limit: Option<usize>) -> (r: Vec<MetricsSnapshot>)
        ensures
            r@.len() == (match limit {
                Some(l) if l < self.historical_data@.len() => l as int,
                _ => self.historical_data@.len() as int,
            }),
            forall|i: int| 0 <= i < r@.len() ==> same_snapshot(#[trigger] r@[i],
                self.historical_data@[self.historical_data@.len() - r@.len() + i]),
    {
        let n = self.historical_data.len();
        let take = match limit {
            Some(l) if l < n => l,
            _ => n,
        };
        let start = n - take;
        let mut r: Vec<MetricsSnapshot> = Vec::new();
        let mut i: usize = start;
        while i < n
            invariant
                n == self.historical_data@.len(),
                start == n - take,
                start <= i <= n,
                r@.len() == i - start,
                forall|j: int| 0 <= j < r@.len() ==> same_snapshot(#[trigger] r@[j], self.historical_data@[start + j]),
            decreases n - i,
        {
            r.push(self.historical_data[i].duplicate());
            i = i + 1;
        }
        r
    }
}

/// Counts a message published to `topic`, by the clock.
pub fn inc_published(m: &mut MetricsCollector, topic: &str, size_bytes: usize)
    ensures
        counts_of(*final(m)) == (CollectorCounts { messages_published: wrap_add(old(m).messages_published, 1), ..counts_of(*old(m)) }),
        exists|now: u64| final(m).topic_metrics.view() == #[trigger] after_publish(old(m).topic_metrics.view(), topic@, size_bytes, now),
        final(m).topic_metrics.view().contains_key(topic@),
        rest_same(*old(m), *final(m)),
        old(m).wf() ==> final(m).wf(),
{
    m.record_message_published(topic, size_bytes);
}

/// Counts a message delivered from `topic`.
pub fn inc_delivered(m: &mut MetricsCollector, topic: &str, size_bytes: usize, latency_ms: u64)
    requires
        old(m).wf(),
    ensures
        final(m).wf(),
        counts_of(*final(m)) == (CollectorCounts { messages_delivered: wrap_add(old(m).messages_delivered, 1), ..counts_of(*old(m)) }),
        recorded_latency(old(m).delivery_latency_ms, final(m).delivery_latency_ms, latency_ms),
        final(m).publish_latency_ms == old(m).publish_latency_ms,
        final(m).topic_metrics.view() == after_delivery(old(m).topic_metrics.view(), topic@, size_bytes),
        final(m).historical_data == old(m).historical_data,
        final(m).max_history_size == old(m).max_history_size,
{
    m.record_message_delivered(topic, size_bytes, latency_ms);
}

/// Counts an acknowledged message.
pub fn inc_acknowledged(m: &mut MetricsCollector)
    ensures
        *final(m) == (MetricsCollector { messages_acknowledged: wrap_add(old(m).messages_acknowledged, 1), ..*old(m) }),
{
    m.messages_acknowledged = m.messages_acknowledged.wrapping_add(1);
}

/// Counts a failed message.
pub fn inc_failed(m: &mut MetricsCollector)
    ensures
        *final(m) == (MetricsCollector { messages_failed: wrap_add(old(m).messages_failed, 1), ..*old(m) }),
{
    m.messages_failed = m.messages_failed.wrapping_add(1);
}

/// Counts `count` messages dropped for their time to live.
pub fn inc_dropped_ttl(m: &mut MetricsCollector, count: u64)
    ensures
        *final(m) == (MetricsCollector { messages_dropped_ttl: wrap_add(old(m).messages_dropped_ttl, count), ..*old(m) }),
{
    m.messages_dropped_ttl = m.messages_dropped_ttl.wrapping_add(count);
}

/// Counts `count` messages dropped because a queue was full.
pub fn inc_dropped_queue_full(m: &mut MetricsCollector, count: u64)
    ensures
        *final(m) == (MetricsCollector { messages_dropped_queue_full: wrap_add(old(m).messages_dropped_queue_full, count), ..*old(m) }),
{
    m.messages_dropped_queue_full = m.messages_dropped_queue_full.wrapping_add(count);
}

/// Enqueued messages are already counted as delivered: nothing changes.
pub fn inc_enqueued(m: &mut MetricsCollector, count: u64)
    ensures
        *final(m) == *old(m),
{
}

/// Counts an opened connection.
pub fn connection_opened(m: &mut MetricsCollector)
    ensures
        *final(m) == (MetricsCollector { connections_active: wrap_add(old(m).connections_active, 1), connections_total: wrap_add(old(m).connections_total, 1), ..*old(m) }),
{
    m.record_connection_opened();
}

/// Counts a closed connection.
pub fn connection_closed(m: &mut MetricsCollector)
    ensures
        *final(m) == (MetricsCollector { connections_active: wrap_sub(old(m).connections_active, 1), ..*old(m) }),
{
    m.record_connection_closed();
}

/// Counts a failed connection.
pub fn connection_failed(m: &mut MetricsCollector)
    ensures
        *final(m) == (MetricsCollector { connections_failed: wrap_add(old(m).connections_failed, 1), ..*old(m) }),
{
    m.record_connection_failed();
}

/// Counts a created topic, by the clock.
pub fn topic_created(m: &mut MetricsCollector, topic: &str)
    ensures
        counts_of(*final(m)) == (CollectorCounts { topics_created: wrap_add(old(m).topics_created, 1), ..counts_of(*old(m)) }),
        exists|now: u64| final(m).topic_metrics.view() == old(m).topic_metrics.view().insert(topic@, #[trigger] fresh_topic(now)),
        rest_same(*old(m), *final(m)),
{
    m.record_topic_created(topic);
}

/// Counts a deleted topic.
pub fn topic_deleted(m: &mut MetricsCollector, topic: &str)
    ensures
        counts_of(*final(m)) == (CollectorCounts { topics_deleted: wrap_add(old(m).topics_deleted, 1), ..counts_of(*old(m)) }),
        final(m).topic_metrics.view() == old(m).topic_metrics.view().remove(topic@),
        rest_same(*old(m), *final(m)),
{
    m.record_topic_deleted(topic);
}

/// Counts a subscriber added to `topic`.
pub fn subscriber_added(m: &mut MetricsCollector, topic: &str)
    ensures
        counts_of(*final(m)) == (CollectorCounts { subscribers_active: wrap_add(old(m).subscribers_active, 1), ..counts_of(*old(m)) }),
        final(m).topic_metrics.view() == subscribers_moved(old(m).topic_metrics.view(), topic@, true),
        rest_same(*old(m), *final(m)),
{
    m.record_subscriber_added(topic);
}

/// Counts a subscriber removed from `topic`.
pub fn subscriber_removed(m: &mut MetricsCollector, topic: &str)
    ensures
        counts_of(*final(m)) == (CollectorCounts { subscribers_active: wrap_sub(old(m).subscribers_active, 1), ..counts_of(*old(m)) }),
        final(m).topic_metrics.view() == subscribers_moved(old(m).topic_metrics.view(), topic@, false),
        rest_same(*old(m), *final(m)),
{
    m.record_subscriber_removed(topic);
}

} // verus!
