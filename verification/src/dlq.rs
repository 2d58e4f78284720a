//! Dead-letter queue: messages that could not be delivered, kept per topic
//! under a size bound and a retention time, with their failure analysed and
//! alerts raised when a queue grows.

use vstd::prelude::*;
use std::sync::Arc;
use crate::assoc::StrMap;
use crate::clock::now_millis;
use crate::collector::{wrap_add, wrap_sub};
use crate::message::WireMessage;
use crate::qos::Acknowledgment;
use crate::text::{chars_of, contains, lowercase_of, seq_contains, str_to_lowercase, str_to_string};

verus! {

/// When a queue's growth is reported.
#[derive(Debug, Clone, Copy)]
pub struct AlertThresholds {
    /// Number of messages at which a size alert is raised.
    pub size_threshold: usize,
    /// Fill level, in thousandths of the maximum size, at which the queue is
    /// reported nearly full.
    pub size_threshold_permille: u32,
    /// Error rate, in thousandths, considered alarming.
    pub error_rate_threshold_permille: u32,
    /// Least time between two size alerts of one topic, in milliseconds.
    pub alert_interval_ms: u64,
}

impl Default for AlertThresholds {
    fn default() -> (t: AlertThresholds)
        ensures
            t.size_threshold == 1000,
            t.size_threshold_permille == 800,
            t.error_rate_threshold_permille == 100,
            t.alert_interval_ms == 300_000,
    {
        AlertThresholds {
            size_threshold: 1000,
            size_threshold_permille: 800,
            error_rate_threshold_permille: 100,
            alert_interval_ms: 300_000,
        }
    }
}

/// How a topic's dead letters are kept.
#[derive(Debug)]
pub struct DlqPolicy {
    pub name: String,
    pub max_delivery_attempts: u32,
    /// Most messages kept per topic.
    pub max_dlq_size: usize,
    /// How long a message is kept, in milliseconds.
    pub retention_duration_ms: u64,
    pub enable_analytics: bool,
    /// Whether expired messages are dropped before the oldest is evicted.
    pub auto_purge_expired: bool,
    pub alert_thresholds: AlertThresholds,
}

impl Default for DlqPolicy {
    fn default() -> (p: DlqPolicy)
        ensures
            p.name@ == "default"@,
            p.max_delivery_attempts == 3,
            p.max_dlq_size == 10_000,
            p.retention_duration_ms == 604_800_000,
            p.enable_analytics,
            p.auto_purge_expired,
            p.alert_thresholds.size_threshold == 1000,
            p.alert_thresholds.size_threshold_permille == 800,
            p.alert_thresholds.error_rate_threshold_permille == 100,
            p.alert_thresholds.alert_interval_ms == 300_000,
    {
        DlqPolicy {
            name: str_to_string("default"),
            max_delivery_attempts: 3,
            max_dlq_size: 10_000,
            retention_duration_ms: 604_800_000,
            enable_analytics: true,
            auto_purge_expired: true,
            alert_thresholds: AlertThresholds::default(),
        }
    }
}

impl DlqPolicy {
    /// A copy of the policy.
    pub fn duplicate(&self) -> (r: DlqPolicy)
        ensures
            r == *self,
    {
        DlqPolicy {
            name: self.name.clone(),
            max_delivery_attempts: self.max_delivery_attempts,
            max_dlq_size: self.max_dlq_size,
            retention_duration_ms: self.retention_duration_ms,
            enable_analytics: self.enable_analytics,
            auto_purge_expired: self.auto_purge_expired,
            alert_thresholds: self.alert_thresholds,
        }
    }
}

/// Why a delivery failed.
#[derive(Debug, Clone, Copy, PartialEq, Eq, Hash, Structural)]
pub enum FailureCategory {
    /// Network or connection trouble.
    NetworkError,
    /// Malformed or invalid message.
    FormatError,
    /// The subscriber's handler failed.
    ProcessingError,
    /// Authentication or authorisation refused.
    AuthError,
    /// Memory, disk or another resource ran out.
    ResourceError,
    /// The processing timed out.
    TimeoutError,
    /// None of the above.
    Unknown,
}

/// The category of a failure reason already in lower case: the first group
/// of key words (in this order) that occurs in it decides.
pub open spec fn category_of_lowercase(l: Seq<char>) -> FailureCategory {
    if seq_contains(l, "network"@) || seq_contains(l, "connection"@) {
        FailureCategory::NetworkError
    } else if seq_contains(l, "format"@) || seq_contains(l, "validation"@) {
        FailureCategory::FormatError
    } else if seq_contains(l, "processing"@) || seq_contains(l, "handler"@) {
        FailureCategory::ProcessingError
    } else if seq_contains(l, "auth"@) || seq_contains(l, "permission"@) {
        FailureCategory::AuthError
    } else if seq_contains(l, "memory"@) || seq_contains(l, "disk"@) {
        FailureCategory::ResourceError
    } else if seq_contains(l, "timeout"@) {
        FailureCategory::TimeoutError
    } else {
        FailureCategory::Unknown
    }
}

/// The category of a failure reason, matched without regard to case.
pub open spec fn category_of(reason: Seq<char>) -> FailureCategory {
    category_of_lowercase(lowercase_of(reason))
}

/// Failures worth another delivery attempt.
pub open spec fn retryable(c: FailureCategory) -> bool {
    c == FailureCategory::NetworkError || c == FailureCategory::TimeoutError
        || c == FailureCategory::ResourceError
}

/// Network, time-out and resource failures are worth retrying; malformed
/// messages, processing and authorization failures and unknown ones are not.
pub proof fn lemma_retryable_categories()
    ensures
        retryable(FailureCategory::NetworkError),
        retryable(FailureCategory::TimeoutError),
        retryable(FailureCategory::ResourceError),
        !retryable(FailureCategory::FormatError),
        !retryable(FailureCategory::ProcessingError),
        !retryable(FailureCategory::AuthError),
        !retryable(FailureCategory::Unknown),
{
}

/// Whether `word` occurs in `text`.
fn mentions(text: &[char], word: &str) -> (r: bool)
    ensures
        r == seq_contains(text@, word@),
{
    let w = chars_of(word);
    contains(text, w.as_slice())
}

impl FailureCategory {
    /// The category of a reason already in lower case.
    pub fn from_lowercase(lower: &str) -> (c: FailureCategory)
        ensures
            c == category_of_lowercase(lower@),
    {
        let t = chars_of(lower);
        let s = t.as_slice();
        if mentions(s, "network") || mentions(s, "connection") {
            FailureCategory::NetworkError
        } else if mentions(s, "format") || mentions(s, "validation") {
            FailureCategory::FormatError
        } else if mentions(s, "processing") || mentions(s, "handler") {
            FailureCategory::ProcessingError
        } else if mentions(s, "auth") || mentions(s, "permission") {
            FailureCategory::AuthError
        } else if mentions(s, "memory") || mentions(s, "disk") {
            FailureCategory::ResourceError
        } else if mentions(s, "timeout") {
            FailureCategory::TimeoutError
        } else {
            FailureCategory::Unknown
        }
    }

    /// Network, time-out and resource failures may be retried.
    pub fn is_retryable(self) -> (r: bool)
        ensures
            r == retryable(self),
            self == FailureCategory::NetworkError ==> r,
            self == FailureCategory::TimeoutError ==> r,
            self == FailureCategory::ResourceError ==> r,
            self == FailureCategory::FormatError ==> !r,
            self == FailureCategory::ProcessingError ==> !r,
            self == FailureCategory::AuthError ==> !r,
            self == FailureCategory::Unknown ==> !r,
    {
        match self {
            FailureCategory::NetworkError => true,
            FailureCategory::TimeoutError => true,
            FailureCategory::ResourceError => true,
            _ => false,
        }
    }
}

impl<'a> From<&'a str> for FailureCategory {
    fn from(reason: &'a str) -> (c: FailureCategory) {
        let lower = str_to_lowercase(reason);
        FailureCategory::from_lowercase(lower.as_str())
    }
}

impl<'a> vstd::std_specs::convert::FromSpecImpl<&'a str> for FailureCategory {
    open spec fn obeys_from_spec() -> bool {
        true
    }

    open spec fn from_spec(v: &'a str) -> FailureCategory {
        category_of(v@)
    }
}

/// A message that could not be delivered, with what is known of the failure.
#[derive(Debug)]
pub struct DeadLetterMessage {
    pub original_message: Arc<WireMessage>,
    pub topic: String,
    pub subscriber_id: String,
    pub failure_reason: String,
    pub failure_category: FailureCategory,
    pub delivery_attempts: u32,
    pub first_failure_at: u64,
    pub last_failure_at: u64,
    /// When it entered the queue, in milliseconds since the epoch.
    pub dlq_entry_time: u64,
    pub can_retry: bool,
    pub original_acks: Vec<Acknowledgment>,
}

/// Two dead letters say the same: equal fields, and messages with the same
/// bytes and expiry.
pub open spec fn same_letter(a: DeadLetterMessage, b: DeadLetterMessage) -> bool {
    &&& crate::bufs::bytes_view(a.original_message.frame) == crate::bufs::bytes_view(b.original_message.frame)
    &&& a.original_message.expire_at == b.original_message.expire_at
    &&& a.topic == b.topic
    &&& a.subscriber_id == b.subscriber_id
    &&& a.failure_reason == b.failure_reason
    &&& a.failure_category == b.failure_category
    &&& a.delivery_attempts == b.delivery_attempts
    &&& a.first_failure_at == b.first_failure_at
    &&& a.last_failure_at == b.last_failure_at
    &&& a.dlq_entry_time == b.dlq_entry_time
    &&& a.can_retry == b.can_retry
    &&& a.original_acks@ == b.original_acks@
}

/// The time elapsed since `entry` at `now` (none if `entry` lies ahead)
/// exceeds the retention.
pub open spec fn expired_after(entry: u64, retention_ms: u64, now: u64) -> bool {
    now >= entry && now - entry > retention_ms
}

impl DeadLetterMessage {
    /// A dead letter recorded at `now`; its category comes from the reason
    /// and decides whether it may be retried.
    pub fn new_at(
        message: Arc<WireMessage>,
        topic: String,
        subscriber_id: String,
        failure_reason: String,
        delivery_attempts: u32,
        original_acks: Vec<Acknowledgment>,
        now: u64,
    ) -> (m: DeadLetterMessage)
        ensures
            m.original_message == message,
            m.topic == topic,
            m.subscriber_id == subscriber_id,
            m.failure_reason == failure_reason,
            m.failure_category == category_of(failure_reason@),
            m.can_retry == retryable(m.failure_category),
            m.delivery_attempts == delivery_attempts,
            m.first_failure_at == now,
            m.last_failure_at == now,
            m.dlq_entry_time == now,
            m.original_acks == original_acks,
    {
        let failure_category = FailureCategory::from(failure_reason.as_str());
        let can_retry = failure_category.is_retryable();
        DeadLetterMessage {
            original_message: message,
            topic,
            subscriber_id,
            failure_reason,
            failure_category,
            delivery_attempts,
            first_failure_at: now,
            last_failure_at: now,
            dlq_entry_time: now,
            can_retry,
            original_acks,
        }
    }

    /// A dead letter recorded now.
    pub fn new(
        message: Arc<WireMessage>,
        topic: String,
        subscriber_id: String,
        failure_reason: String,
        delivery_attempts: u32,
        original_acks: Vec<Acknowledgment>,
    ) -> (m: DeadLetterMessage)
        ensures
            m.original_message == message,
            m.topic == topic,
            m.subscriber_id == subscriber_id,
            m.failure_reason == failure_reason,
            m.failure_category == category_of(failure_reason@),
            m.can_retry == retryable(m.failure_category),
            m.delivery_attempts == delivery_attempts,
            m.first_failure_at == m.dlq_entry_time,
            m.last_failure_at == m.dlq_entry_time,
            m.original_acks == original_acks,
    {
        DeadLetterMessage::new_at(
            message,
            topic,
            subscriber_id,
            failure_reason,
            delivery_attempts,
            original_acks,
            now_millis(),
        )
    }

    /// Whether the message has outlived `retention_duration_ms` at `now`.
    pub fn is_expired_at(&self, retention_duration_ms: u64, now: u64) -> (r: bool)
        ensures
            r == expired_after(self.dlq_entry_time, retention_duration_ms, now),
    {
        now >= self.dlq_entry_time && now - self.dlq_entry_time > retention_duration_ms
    }

    /// Whether the message has outlived `retention_duration_ms` by the clock.
    pub fn is_expired(&self, retention_duration_ms: u64) -> (r: bool) {
        self.is_expired_at(retention_duration_ms, now_millis())
    }

    /// A copy of the dead letter.
    pub fn duplicate(&self) -> (r: DeadLetterMessage)
        ensures
            same_letter(r, *self),
    {
        let mut acks: Vec<Acknowledgment> = Vec::new();
        let mut i: usize = 0;
        while i < self.original_acks.len()
            invariant
                i <= self.original_acks@.len(),
                acks@ == self.original_acks@.subrange(0, i as int),
            decreases self.original_acks@.len() - i,
        {
            acks.push(self.original_acks[i].duplicate());
            proof {
                assert(acks@ =~= self.original_acks@.subrange(0, i + 1));
            }
            i = i + 1;
        }
        proof {
            assert(acks@ =~= self.original_acks@);
        }
        let message = WireMessage {
            frame: self.original_message.frame.clone(),
            expire_at: self.original_message.expire_at,
        };
        DeadLetterMessage {
            original_message: Arc::new(message),
            topic: self.topic.clone(),
            subscriber_id: self.subscriber_id.clone(),
            failure_reason: self.failure_reason.clone(),
            failure_category: self.failure_category,
            delivery_attempts: self.delivery_attempts,
            first_failure_at: self.first_failure_at,
            last_failure_at: self.last_failure_at,
            dlq_entry_time: self.dlq_entry_time,
            can_retry: self.can_retry,
            original_acks: acks,
        }
    }
}

/// Dead letters counted per failure category.
#[derive(Debug, Clone, Copy)]
pub struct CategoryCounts {
    pub network: u64,
    pub format: u64,
    pub processing: u64,
    pub auth: u64,
    pub resource: u64,
    pub timeout: u64,
    pub unknown: u64,
}

/// The count kept for a category.
pub open spec fn count_in(c: CategoryCounts, k: FailureCategory) -> u64 {
    match k {
        FailureCategory::NetworkError => c.network,
        FailureCategory::FormatError => c.format,
        FailureCategory::ProcessingError => c.processing,
        FailureCategory::AuthError => c.auth,
        FailureCategory::ResourceError => c.resource,
        FailureCategory::TimeoutError => c.timeout,
        FailureCategory::Unknown => c.unknown,
    }
}

impl CategoryCounts {
    /// All counts zero.
    pub fn zero() -> (c: CategoryCounts)
        ensures
            forall|k: FailureCategory| count_in(c, k) == 0,
    {
        CategoryCounts { network: 0, format: 0, processing: 0, auth: 0, resource: 0, timeout: 0, unknown: 0 }
    }

    /// The count of a category.
    pub fn get(&self, k: FailureCategory) -> (n: u64)
        ensures
            n == count_in(*self, k),
    {
        match k {
            FailureCategory::NetworkError => self.network,
            FailureCategory::FormatError => self.format,
            FailureCategory::ProcessingError => self.processing,
            FailureCategory::AuthError => self.auth,
            FailureCategory::ResourceError => self.resource,
            FailureCategory::TimeoutError => self.timeout,
            FailureCategory::Unknown => self.unknown,
        }
    }

    /// Counts one more of category `k` (modulo 2^64).
    pub fn bump(&mut self, k: FailureCategory)
        ensures
            count_in(*final(self), k) == wrap_add(count_in(*old(self), k), 1),
            forall|j: FailureCategory| j != k ==> count_in(*final(self), j) == count_in(*old(self), j),
    {
        match k {
            FailureCategory::NetworkError => { self.network = self.network.wrapping_add(1); },
            FailureCategory::FormatError => { self.format = self.format.wrapping_add(1); },
            FailureCategory::ProcessingError => { self.processing = self.processing.wrapping_add(1); },
            FailureCategory::AuthError => { self.auth = self.auth.wrapping_add(1); },
            FailureCategory::ResourceError => { self.resource = self.resource.wrapping_add(1); },
            FailureCategory::TimeoutError => { self.timeout = self.timeout.wrapping_add(1); },
            FailureCategory::Unknown => { self.unknown = self.unknown.wrapping_add(1); },
        }
    }
}

/// The count kept for a topic (0 when none is kept).
pub open spec fn topic_count(m: Map<Seq<char>, u64>, t: Seq<char>) -> u64 {
    if m.contains_key(t) { m[t] } else { 0 }
}

/// Dead-letter counters. They count modulo 2^64, as atomic counters do.
#[derive(Debug)]
pub struct DlqStats {
    pub total_messages: u64,
    pub messages_by_category: CategoryCounts,
    pub messages_by_topic: StrMap<u64>,
    pub messages_recovered: u64,
    pub messages_purged: u64,
    pub alerts_sent: u64,
    pub current_size: u64,
    pub max_size_reached: u64,
}

/// The plain counters of the statistics.
#[derive(Debug, Clone, Copy, PartialEq, Eq, Structural)]
pub struct DlqStatsSnapshot {
    pub total_messages: u64,
    pub messages_recovered: u64,
    pub messages_purged: u64,
    pub alerts_sent: u64,
    pub current_size: u64,
    pub max_size_reached: u64,
}

/// The snapshot of a set of statistics.
pub open spec fn snapshot_of(s: DlqStats) -> DlqStatsSnapshot {
    DlqStatsSnapshot {
        total_messages: s.total_messages,
        messages_recovered: s.messages_recovered,
        messages_purged: s.messages_purged,
        alerts_sent: s.alerts_sent,
        current_size: s.current_size,
        max_size_reached: s.max_size_reached,
    }
}

/// All counters zero.
pub open spec fn zero_snapshot() -> DlqStatsSnapshot {
    DlqStatsSnapshot {
        total_messages: 0,
        messages_recovered: 0,
        messages_purged: 0,
        alerts_sent: 0,
        current_size: 0,
        max_size_reached: 0,
    }
}

impl DlqStats {
    /// All counters zero, no topic counted.
    pub fn new() -> (s: DlqStats)
        ensures
            snapshot_of(s) == zero_snapshot(),
            forall|k: FailureCategory| count_in(s.messages_by_category, k) == 0,
            s.messages_by_topic.view() == Map::<Seq<char>, u64>::empty(),
    {
        DlqStats {
            total_messages: 0,
            messages_by_category: CategoryCounts::zero(),
            messages_by_topic: StrMap::new(),
            messages_recovered: 0,
            messages_purged: 0,
            alerts_sent: 0,
            current_size: 0,
            max_size_reached: 0,
        }
    }

    /// Counts a dead letter: in the totals, its category and its topic; the
    /// size high-water mark follows the size.
    pub fn record_message(&mut self, m: &DeadLetterMessage)
        ensures
            final(self).total_messages == wrap_add(old(self).total_messages, 1),
            final(self).current_size == wrap_add(old(self).current_size, 1),
            final(self).max_size_reached == (if final(self).current_size > old(self).max_size_reached {
                final(self).current_size
            } else {
                old(self).max_size_reached
            }),
            count_in(final(self).messages_by_category, m.failure_category)
                == wrap_add(count_in(old(self).messages_by_category, m.failure_category), 1),
            forall|j: FailureCategory| j != m.failure_category ==>
                count_in(final(self).messages_by_category, j) == count_in(old(self).messages_by_category, j),
            final(self).messages_by_topic.view() == old(self).messages_by_topic.view().insert(
                m.topic@,
                wrap_add(topic_count(old(self).messages_by_topic.view(), m.topic@), 1),
            ),
            final(self).messages_recovered == old(self).messages_recovered,
            final(self).messages_purged == old(self).messages_purged,
            final(self).alerts_sent == old(self).alerts_sent,
    {
        self.total_messages = self.total_messages.wrapping_add(1);
        self.current_size = self.current_size.wrapping_add(1);
        self.messages_by_category.bump(m.failure_category);
        let c: u64 = match self.messages_by_topic.get(m.topic.as_str()) {
            Some(v) => *v,
            None => 0,
        };
        self.messages_by_topic.insert(m.topic.clone(), c.wrapping_add(1));
        if self.current_size > self.max_size_reached {
            self.max_size_reached = self.current_size;
        }
    }

    /// Counts one recovered message.
    pub fn record_recovery(&mut self)
        ensures
            snapshot_of(*final(self)) == (DlqStatsSnapshot {
                messages_recovered: wrap_add(old(self).messages_recovered, 1),
                current_size: wrap_sub(old(self).current_size, 1),
                ..snapshot_of(*old(self))
            }),
            final(self).messages_by_category == old(self).messages_by_category,
            final(self).messages_by_topic.view() == old(self).messages_by_topic.view(),
    {
        self.messages_recovered = self.messages_recovered.wrapping_add(1);
        self.current_size = self.current_size.wrapping_sub(1);
    }

    /// Counts `count` purged messages.
    pub fn record_purge(&mut self, count: u64)
        ensures
            snapshot_of(*final(self)) == (DlqStatsSnapshot {
                messages_purged: wrap_add(old(self).messages_purged, count),
                current_size: wrap_sub(old(self).current_size, count),
                ..snapshot_of(*old(self))
            }),
            final(self).messages_by_category == old(self).messages_by_category,
            final(self).messages_by_topic.view() == old(self).messages_by_topic.view(),
    {
        self.messages_purged = self.messages_purged.wrapping_add(count);
        self.current_size = self.current_size.wrapping_sub(count);
    }

    /// The plain counters.
    pub fn snapshot(&self) -> (s: DlqStatsSnapshot)
        ensures
            s == snapshot_of(*self),
    {
        DlqStatsSnapshot {
            total_messages: self.total_messages,
            messages_recovered: self.messages_recovered,
            messages_purged: self.messages_purged,
            alerts_sent: self.alerts_sent,
            current_size: self.current_size,
            max_size_reached: self.max_size_reached,
        }
    }
}

impl Default for DlqStats {
    fn default() -> (s: DlqStats)
        ensures
            snapshot_of(s) == zero_snapshot(),
            forall|k: FailureCategory| count_in(s.messages_by_category, k) == 0,
            s.messages_by_topic.view() == Map::<Seq<char>, u64>::empty(),
    {
        DlqStats::new()
    }
}

/// The kinds of dead-letter alert.
#[derive(Debug, Clone, Copy, PartialEq, Eq, Structural)]
pub enum DlqAlertType {
    /// The queue reached the size threshold.
    SizeThreshold,
    /// The error rate crossed its threshold.
    ErrorRate,
    /// The queue is nearly full.
    MaxSizeReached,
}

/// An alert about a topic's dead letters.
#[derive(Debug)]
pub struct DlqAlert {
    pub alert_type: DlqAlertType,
    pub topic: String,
    /// The queue's size when the alert was raised.
    pub current_size: usize,
    /// The size compared against: the size threshold, or the maximum size.
    pub size_limit: usize,
    /// For a nearly-full alert, the fill level (in thousandths) reached.
    pub threshold_permille: u32,
    pub timestamp: u64,
}

/// The messages of a queue that have not outlived `retention` at `now`.
pub open spec fn retained(q: Seq<DeadLetterMessage>, retention: u64, now: u64) -> Seq<DeadLetterMessage> {
    q.filter(|m: DeadLetterMessage| !expired_after(m.dlq_entry_time, retention, now))
}

/// A queue after room is made for one more message under policy `p`: when
/// full, expired messages go first (if the policy says so), and if it is
/// still full, the oldest message goes.
pub open spec fn make_room(q: Seq<DeadLetterMessage>, p: DlqPolicy, now: u64) -> Seq<DeadLetterMessage> {
    if q.len() >= p.max_dlq_size {
        let q1 = if p.auto_purge_expired { retained(q, p.retention_duration_ms, now) } else { q };
        if q1.len() >= p.max_dlq_size && q1.len() > 0 { q1.drop_first() } else { q1 }
    } else {
        q
    }
}

/// A size alert is held back while the last one of the topic is less than
/// `interval` old (or lies ahead of `now`).
pub open spec fn too_soon(last: Option<u64>, interval: u64, now: u64) -> bool {
    match last {
        Some(l) => now < l || now - l < interval,
        None => false,
    }
}

/// `size` is at least `permille` thousandths of `max` (an empty limit is
/// reached by any message).
pub open spec fn nearly_full(size: nat, max: nat, permille: nat) -> bool {
    if max == 0 { size > 0 } else { size * 1000 >= permille * max }
}

/// The dead-letter queues of all topics, with their policies and counters.
#[derive(Debug)]
pub struct DeadLetterQueue {
    messages_by_topic: StrMap<Vec<DeadLetterMessage>>,
    policies: StrMap<DlqPolicy>,
    default_policy: DlqPolicy,
    stats: DlqStats,
    last_alert_times: StrMap<u64>,
}

impl DeadLetterQueue {
    /// The dead letters of a topic, oldest first.
    pub closed spec fn queued(self, t: Seq<char>) -> Seq<DeadLetterMessage> {
        if self.messages_by_topic.view().contains_key(t) {
            self.messages_by_topic.view()[t]@
        } else {
            Seq::empty()
        }
    }

    /// A queue exists for the topic (possibly empty).
    pub closed spec fn has_queue(self, t: Seq<char>) -> bool {
        self.messages_by_topic.view().contains_key(t)
    }

    /// The policy that applies to a topic.
    pub closed spec fn policy_for(self, t: Seq<char>) -> DlqPolicy {
        if self.policies.view().contains_key(t) {
            self.policies.view()[t]
        } else {
            self.default_policy
        }
    }

    /// The counters.
    pub closed spec fn counters(self) -> DlqStatsSnapshot {
        snapshot_of(self.stats)
    }

    /// The dead letters counted per topic.
    pub closed spec fn topic_counts(self) -> Map<Seq<char>, u64> {
        self.stats.messages_by_topic.view()
    }

    /// The dead letters counted per category.
    pub closed spec fn category_counts(self) -> CategoryCounts {
        self.stats.messages_by_category
    }

    /// When the last size alert of each topic was raised.
    pub closed spec fn last_alerts(self) -> Map<Seq<char>, u64> {
        self.last_alert_times.view()
    }

    /// The last size alert of a topic, if any.
    pub closed spec fn last_alert(self, t: Seq<char>) -> Option<u64> {
        if self.last_alert_times.view().contains_key(t) {
            Some(self.last_alert_times.view()[t])
        } else {
            None
        }
    }

    /// No dead letters, no policy of its own for any topic, counters zero.
    pub fn new() -> (d: DeadLetterQueue)
        ensures
            forall|t: Seq<char>| #[trigger] d.queued(t) == Seq::<DeadLetterMessage>::empty(),
            forall|t: Seq<char>| #[trigger] d.policy_for(t) == d.policy_for(Seq::empty()),
            d.policy_for(Seq::empty()).max_dlq_size == 10_000,
            d.policy_for(Seq::empty()).retention_duration_ms == 604_800_000,
            d.policy_for(Seq::empty()).auto_purge_expired,
            d.counters() == zero_snapshot(),
            forall|t: Seq<char>| #[trigger] d.last_alert(t) is None,
    {
        DeadLetterQueue {
            messages_by_topic: StrMap::new(),
            policies: StrMap::new(),
            default_policy: DlqPolicy::default(),
            stats: DlqStats::new(),
            last_alert_times: StrMap::new(),
        }
    }

    /// Sets the policy of a topic.
    pub fn set_policy(&mut self, topic: String, policy: DlqPolicy)
        ensures
            final(self).policy_for(topic@) == policy,
            forall|t: Seq<char>| t != topic@ ==> #[trigger] final(self).policy_for(t) == old(self).policy_for(t),
            forall|t: Seq<char>| #[trigger] final(self).queued(t) == old(self).queued(t),
            final(self).counters() == old(self).counters(),
            final(self).last_alerts() == old(self).last_alerts(),
    {
        self.policies.insert(topic, policy);
    }

    /// The policy of a topic: its own, or the default.
    pub fn get_policy_for_topic(&self, topic: &str) -> (p: DlqPolicy)
        ensures
            p == self.policy_for(topic@),
    {
        match self.policies.get(topic) {
            Some(p) => p.duplicate(),
            None => self.default_policy.duplicate(),
        }
    }

    /// The counters.
    pub fn stats(&self) -> (s: DlqStatsSnapshot)
        ensures
            s == self.counters(),
    {
        self.stats.snapshot()
    }

    /// How many dead letters of `topic` were counted in all.
    pub fn topic_total(&self, topic: &str) -> (n: u64)
        ensures
            n == topic_count(self.topic_counts(), topic@),
    {
        match self.stats.messages_by_topic.get(topic) {
            Some(v) => *v,
            None => 0,
        }
    }

    /// How many dead letters of a category were counted in all.
    pub fn category_total(&self, c: FailureCategory) -> (n: u64)
        ensures
            n == count_in(self.category_counts(), c),
    {
        self.stats.messages_by_category.get(c)
    }

    /// The number of dead letters of a topic.
    pub fn topic_len(&self, topic: &str) -> (n: usize)
        ensures
            n == self.queued(topic@).len(),
    {
        match self.messages_by_topic.get(topic) {
            Some(v) => v.len(),
            None => 0,
        }
    }

    /// Copies of the first `limit` dead letters of a topic (all of them
    /// without a limit), oldest first.
    pub fn list_messages(&self, topic: &str, limit: Option<usize>) -> (r: Vec<DeadLetterMessage>)
        ensures
            r@.len() == (match limit {
                Some(n) => if n < self.queued(topic@).len() { n as nat } else { self.queued(topic@).len() },
                None => self.queued(topic@).len(),
            }),
            forall|i: int| 0 <= i < r@.len() ==> same_letter(#[trigger] r@[i], self.queued(topic@)[i]),
    {
        let mut r: Vec<DeadLetterMessage> = Vec::new();
        match self.messages_by_topic.get(topic) {
            None => r,
            Some(v) => {
                let n = match limit {
                    Some(l) => if l < v.len() { l } else { v.len() },
                    None => v.len(),
                };
                let mut i: usize = 0;
                while i < n
                    invariant
                        n <= v@.len(),
                        i <= n,
                        r@.len() == i,
                        forall|j: int| 0 <= j < i ==> same_letter(#[trigger] r@[j], v@[j]),
                    decreases n - i,
                {
                    r.push(v[i].duplicate());
                    i = i + 1;
                }
                r
            },
        }
    }

    /// Takes dead letter `message_index` of a topic out for another try.
    pub fn recover_message(&mut self, topic: &str, message_index: usize) -> (r: Option<DeadLetterMessage>)
        ensures
            (message_index < old(self).queued(topic@).len()) == (r is Some),
            match r {
                Some(m) => {
                    &&& m == old(self).queued(topic@)[message_index as int]
                    &&& final(self).queued(topic@) == old(self).queued(topic@).remove(message_index as int)
                    &&& final(self).counters() == (DlqStatsSnapshot {
                        messages_recovered: wrap_add(old(self).counters().messages_recovered, 1),
                        current_size: wrap_sub(old(self).counters().current_size, 1),
                        ..old(self).counters()
                    })
                },
                None => {
                    &&& final(self).queued(topic@) == old(self).queued(topic@)
                    &&& final(self).counters() == old(self).counters()
                },
            },
            forall|t: Seq<char>| t != topic@ ==> #[trigger] final(self).queued(t) == old(self).queued(t),
            forall|t: Seq<char>| #[trigger] final(self).policy_for(t) == old(self).policy_for(t),
            final(self).last_alerts() == old(self).last_alerts(),
    {
        match self.messages_by_topic.remove(topic) {
            None => None,
            Some(mut v) => {
                if message_index < v.len() {
                    let m = v.remove(message_index);
                    self.messages_by_topic.insert(str_to_string(topic), v);
                    self.stats.record_recovery();
                    Some(m)
                } else {
                    self.messages_by_topic.insert(str_to_string(topic), v);
                    proof {
                        assert(self.messages_by_topic.view() =~= old(self).messages_by_topic.view());
                    }
                    None
                }
            },
        }
    }
}

/// Keeps the messages of `v` that have not outlived `retention` at `now`,
/// in order, and counts the others.
fn retain_unexpired(v: Vec<DeadLetterMessage>, retention: u64, now: u64) -> (r: (Vec<DeadLetterMessage>, u64))
    ensures
        r.0@ == retained(v@, retention, now),
        r.1 == v@.len() - r.0@.len(),
{
    let ghost orig = v@;
    let total = v.len();
    let mut rest = v;
    let mut kept: Vec<DeadLetterMessage> = Vec::new();
    let mut dropped: u64 = 0;
    let ghost mut k: int = 0;
    while rest.len() > 0
        invariant
            0 <= k <= orig.len(),
            rest@ == orig.subrange(k, orig.len() as int),
            kept@ == retained(orig.subrange(0, k), retention, now),
            dropped == k - kept@.len(),
            kept@.len() <= k,
            orig.len() == total,
        decreases rest@.len(),
    {
        let m = rest.remove(0);
        proof {
            let a = orig.subrange(0, k);
            let b = orig.subrange(0, k + 1);
            assert(b.drop_last() =~= a);
            assert(b.last() == m);
            reveal(Seq::filter);
        }
        if m.is_expired_at(retention, now) {
            dropped = dropped + 1;
        } else {
            kept.push(m);
        }
        proof {
            k = k + 1;
            assert(rest@ =~= orig.subrange(k, orig.len() as int));
        }
    }
    proof {
        assert(orig.subrange(0, k) =~= orig);
    }
    (kept, dropped)
}

impl DeadLetterQueue {
    /// Replaces the queue of `topic` by its messages that have not outlived
    /// `retention` at `now`, and says how many went. Counters are untouched.
    fn drop_expired(&mut self, topic: &str, retention: u64, now: u64) -> (n: u64)
        ensures
            final(self).queued(topic@) == retained(old(self).queued(topic@), retention, now),
            n == old(self).queued(topic@).len() - final(self).queued(topic@).len(),
            forall|t: Seq<char>| t != topic@ ==> #[trigger] final(self).queued(t) == old(self).queued(t),
            forall|t: Seq<char>| #[trigger] final(self).policy_for(t) == old(self).policy_for(t),
            final(self).stats == old(self).stats,
            final(self).last_alerts() == old(self).last_alerts(),
    {
        match self.messages_by_topic.remove(topic) {
            None => {
                proof {
                    reveal(Seq::filter);
                    assert(retained(Seq::<DeadLetterMessage>::empty(), retention, now) =~= Seq::<DeadLetterMessage>::empty());
                }
                0
            },
            Some(v) => {
                let (kept, n) = retain_unexpired(v, retention, now);
                self.messages_by_topic.insert(str_to_string(topic), kept);
                n
            },
        }
    }

    /// Drops the messages of `topic` that have outlived its policy's
    /// retention at `now`, counting them as purged when there are any.
    pub fn purge_expired_messages_at(&mut self, topic: &str, now: u64) -> (n: u64)
        ensures
            purged_expired(*old(self), *final(self), topic@, now, n),
    {
        let retention = match self.policies.get(topic) {
            Some(p) => p.retention_duration_ms,
            None => self.default_policy.retention_duration_ms,
        };
        let n = self.drop_expired(topic, retention, now);
        let ghost mid = *self;
        if n > 0 {
            self.stats.record_purge(n);
        }
        proof {
            assert forall|t: Seq<char>| #[trigger] self.queued(t) == mid.queued(t) by {}
            assert forall|t: Seq<char>| #[trigger] self.policy_for(t) == mid.policy_for(t) by {}
        }
        n
    }

    /// Drops the expired messages of `topic` by the clock.
    pub fn purge_expired_messages(&mut self, topic: &str) -> (n: u64)
        ensures
            exists|now: u64| #[trigger] purged_expired(*old(self), *final(self), topic@, now, n),
    {
        let now = now_millis();
        let n = self.purge_expired_messages_at(topic, now);
        proof {
            assert(purged_expired(*old(self), *self, topic@, now, n));
        }
        n
    }

    /// Drops every message of `topic` and counts them as purged; 0 for a
    /// topic without a queue.
    pub fn purge_all_messages(&mut self, topic: &str) -> (n: u64)
        ensures
            n == old(self).queued(topic@).len(),
            final(self).queued(topic@) == Seq::<DeadLetterMessage>::empty(),
            final(self).counters() == (if old(self).has_queue(topic@) {
                DlqStatsSnapshot {
                    messages_purged: wrap_add(old(self).counters().messages_purged, n),
                    current_size: wrap_sub(old(self).counters().current_size, n),
                    ..old(self).counters()
                }
            } else {
                old(self).counters()
            }),
            forall|t: Seq<char>| t != topic@ ==> #[trigger] final(self).queued(t) == old(self).queued(t),
            forall|t: Seq<char>| #[trigger] final(self).policy_for(t) == old(self).policy_for(t),
            final(self).last_alerts() == old(self).last_alerts(),
    {
        match self.messages_by_topic.remove(topic) {
            None => 0,
            Some(v) => {
                let n = v.len() as u64;
                self.messages_by_topic.insert(str_to_string(topic), Vec::new());
                self.stats.record_purge(n);
                n
            },
        }
    }
}

/// `a` is the alert of kind `kind` about `topic` at `now`, for a queue of
/// `size` messages compared against `limit` (and `permille`).
pub open spec fn alert_is(
    a: DlqAlert,
    kind: DlqAlertType,
    topic: Seq<char>,
    size: nat,
    limit: nat,
    permille: u32,
    now: u64,
) -> bool {
    &&& a.alert_type == kind
    &&& a.topic@ == topic
    &&& a.current_size == size
    &&& a.size_limit == limit
    &&& a.threshold_permille == permille
    &&& a.timestamp == now
}

/// The alerts raised for a queue of `size` messages under policy `p` at
/// `now`, the last size alert of the topic having been raised at `last`:
/// nothing while it is too soon; otherwise a size alert when the size
/// threshold is reached, then a nearly-full alert when the fill level is.
pub open spec fn alerts_raised(
    r: Seq<DlqAlert>,
    topic: Seq<char>,
    size: nat,
    p: DlqPolicy,
    last: Option<u64>,
    now: u64,
) -> bool {
    let th = p.alert_thresholds;
    if too_soon(last, th.alert_interval_ms, now) {
        r.len() == 0
    } else {
        let sa = size >= th.size_threshold;
        let fa = nearly_full(size, p.max_dlq_size as nat, th.size_threshold_permille as nat);
        &&& r.len() == (if sa { 1int } else { 0int }) + (if fa { 1int } else { 0int })
        &&& sa ==> alert_is(r[0], DlqAlertType::SizeThreshold, topic, size, th.size_threshold as nat, 0, now)
        &&& fa ==> alert_is(
            r[r.len() - 1],
            DlqAlertType::MaxSizeReached,
            topic,
            size,
            p.max_dlq_size as nat,
            th.size_threshold_permille,
            now,
        )
    }
}

/// Whether a size alert was sent (and so recorded) in the situation above.
pub open spec fn size_alert_sent(size: nat, p: DlqPolicy, last: Option<u64>, now: u64) -> bool {
    !too_soon(last, p.alert_thresholds.alert_interval_ms, now) && size >= p.alert_thresholds.size_threshold
}

/// How many messages making room purges as expired.
pub open spec fn purged_for_room(q: Seq<DeadLetterMessage>, p: DlqPolicy, now: u64) -> nat {
    if q.len() >= p.max_dlq_size && p.auto_purge_expired {
        (q.len() - retained(q, p.retention_duration_ms, now).len()) as nat
    } else {
        0
    }
}

/// `size * 1000 >= permille * max` without overflow, or `size > 0` for an
/// empty limit.
fn is_nearly_full(size: usize, max: usize, permille: u32) -> (r: bool)
    ensures
        r == nearly_full(size as nat, max as nat, permille as nat),
{
    if max == 0 {
        size > 0
    } else {
        assert((permille as u128) * (max as u128) <= 0xffff_ffff_u128 * 0xffff_ffff_ffff_ffff_u128) by (nonlinear_arith)
            requires
                permille <= 0xffff_ffff,
                max <= 0xffff_ffff_ffff_ffff,
        ;
        (size as u128) * 1000 >= (permille as u128) * (max as u128)
    }
}

impl DeadLetterQueue {
    /// Raises the alerts due for `topic` under `policy` at `now`, recording
    /// a size alert's time and counting it.
    fn check_alerts_at(&mut self, topic: &str, policy: &DlqPolicy, now: u64) -> (r: Vec<DlqAlert>)
        ensures
            alerts_raised(r@, topic@, old(self).queued(topic@).len(), *policy, old(self).last_alert(topic@), now),
            final(self).last_alerts() == (if size_alert_sent(old(self).queued(topic@).len(), *policy, old(self).last_alert(topic@), now) {
                old(self).last_alerts().insert(topic@, now)
            } else {
                old(self).last_alerts()
            }),
            final(self).counters() == (if size_alert_sent(old(self).queued(topic@).len(), *policy, old(self).last_alert(topic@), now) {
                DlqStatsSnapshot { alerts_sent: wrap_add(old(self).counters().alerts_sent, 1), ..old(self).counters() }
            } else {
                old(self).counters()
            }),
            forall|t: Seq<char>| #[trigger] final(self).queued(t) == old(self).queued(t),
            forall|t: Seq<char>| #[trigger] final(self).policy_for(t) == old(self).policy_for(t),
            final(self).topic_counts() == old(self).topic_counts(),
            final(self).category_counts() == old(self).category_counts(),
    {
        let mut r: Vec<DlqAlert> = Vec::new();
        let th = policy.alert_thresholds;
        match self.last_alert_times.get(topic) {
            Some(last) => {
                if now < *last || now - *last < th.alert_interval_ms {
                    return r;
                }
            },
            None => {},
        }
        let size = self.topic_len(topic);
        if size >= th.size_threshold {
            r.push(DlqAlert {
                alert_type: DlqAlertType::SizeThreshold,
                topic: str_to_string(topic),
                current_size: size,
                size_limit: th.size_threshold,
                threshold_permille: 0,
                timestamp: now,
            });
            self.last_alert_times.insert(str_to_string(topic), now);
            self.stats.alerts_sent = self.stats.alerts_sent.wrapping_add(1);
        }
        if is_nearly_full(size, policy.max_dlq_size, th.size_threshold_permille) {
            r.push(DlqAlert {
                alert_type: DlqAlertType::MaxSizeReached,
                topic: str_to_string(topic),
                current_size: size,
                size_limit: policy.max_dlq_size,
                threshold_permille: th.size_threshold_permille,
                timestamp: now,
            });
        }
        r
    }

    /// Makes room in the queue of `topic` for one more message under
    /// `policy` at `now`.
    fn make_room_for(&mut self, topic: &str, policy: &DlqPolicy, now: u64)
        ensures
            final(self).queued(topic@) == make_room(old(self).queued(topic@), *policy, now),
            final(self).counters() == (if purged_for_room(old(self).queued(topic@), *policy, now) > 0 {
                DlqStatsSnapshot {
                    messages_purged: wrap_add(
                        old(self).counters().messages_purged,
                        purged_for_room(old(self).queued(topic@), *policy, now) as u64,
                    ),
                    current_size: wrap_sub(
                        old(self).counters().current_size,
                        purged_for_room(old(self).queued(topic@), *policy, now) as u64,
                    ),
                    ..old(self).counters()
                }
            } else {
                old(self).counters()
            }),
            forall|t: Seq<char>| t != topic@ ==> #[trigger] final(self).queued(t) == old(self).queued(t),
            forall|t: Seq<char>| #[trigger] final(self).policy_for(t) == old(self).policy_for(t),
            final(self).last_alerts() == old(self).last_alerts(),
            final(self).topic_counts() == old(self).topic_counts(),
            final(self).category_counts() == old(self).category_counts(),
    {
        let ghost q0 = self.queued(topic@);
        if self.topic_len(topic) >= policy.max_dlq_size {
            if policy.auto_purge_expired {
                let n = self.drop_expired(topic, policy.retention_duration_ms, now);
                let ghost mid = *self;
                if n > 0 {
                    self.stats.record_purge(n);
                }
                proof {
                    assert forall|t: Seq<char>| #[trigger] self.queued(t) == mid.queued(t) by {}
                    assert forall|t: Seq<char>| #[trigger] self.policy_for(t) == mid.policy_for(t) by {}
                }
            }
            let ghost q1 = self.queued(topic@);
            let ghost before = *self;
            if self.topic_len(topic) >= policy.max_dlq_size {
                match self.messages_by_topic.remove(topic) {
                    None => {},
                    Some(mut v) => {
                        if v.len() > 0 {
                            v.remove(0);
                            proof {
                                assert(v@ =~= q1.drop_first());
                            }
                        }
                        self.messages_by_topic.insert(str_to_string(topic), v);
                    },
                }
            }
            proof {
                assert forall|t: Seq<char>| t != topic@ implies #[trigger] self.queued(t) == before.queued(t) by {}
                assert forall|t: Seq<char>| #[trigger] self.policy_for(t) == before.policy_for(t) by {}
            }
        }
    }

    /// Appends a dead letter to its topic's queue and counts it.
    fn push_letter(&mut self, m: DeadLetterMessage)
        ensures
            final(self).queued(m.topic@) == old(self).queued(m.topic@).push(m),
            forall|t: Seq<char>| t != m.topic@ ==> #[trigger] final(self).queued(t) == old(self).queued(t),
            forall|t: Seq<char>| #[trigger] final(self).policy_for(t) == old(self).policy_for(t),
            final(self).last_alerts() == old(self).last_alerts(),
            final(self).counters() == (DlqStatsSnapshot {
                total_messages: wrap_add(old(self).counters().total_messages, 1),
                current_size: wrap_add(old(self).counters().current_size, 1),
                max_size_reached: if wrap_add(old(self).counters().current_size, 1) > old(self).counters().max_size_reached {
                    wrap_add(old(self).counters().current_size, 1)
                } else {
                    old(self).counters().max_size_reached
                },
                ..old(self).counters()
            }),
            final(self).topic_counts() == old(self).topic_counts().insert(
                m.topic@,
                wrap_add(topic_count(old(self).topic_counts(), m.topic@), 1),
            ),
            count_in(final(self).category_counts(), m.failure_category)
                == wrap_add(count_in(old(self).category_counts(), m.failure_category), 1),
            forall|j: FailureCategory| j != m.failure_category ==>
                count_in(final(self).category_counts(), j) == count_in(old(self).category_counts(), j),
    {
        self.stats.record_message(&m);
        let ghost mid = *self;
        let key = m.topic.clone();
        let mut v = match self.messages_by_topic.remove(key.as_str()) {
            Some(v) => v,
            None => Vec::new(),
        };
        v.push(m);
        self.messages_by_topic.insert(key, v);
        proof {
            assert forall|t: Seq<char>| t != m.topic@ implies #[trigger] self.queued(t) == mid.queued(t) by {}
        }
    }

    /// Files a dead letter at `now`: room is made in its topic's queue (see
    /// `make_room`), the letter goes last and is counted, and the alerts
    /// due for the topic are raised and returned.
    pub fn add_message_at(&mut self, m: DeadLetterMessage, now: u64) -> (r: Vec<DlqAlert>)
        ensures
            filed_letter(*old(self), *final(self), m, now, r@),
    {
        let topic = m.topic.clone();
        let policy = self.get_policy_for_topic(topic.as_str());
        self.make_room_for(topic.as_str(), &policy, now);
        self.push_letter(m);
        self.check_alerts_at(topic.as_str(), &policy, now)
    }

    /// Files a dead letter by the clock.
    pub fn add_message(&mut self, m: DeadLetterMessage) -> (r: Vec<DlqAlert>)
        ensures
            exists|now: u64| #[trigger] filed_letter(*old(self), *final(self), m, now, r@),
    {
        let now = now_millis();
        let r = self.add_message_at(m, now);
        proof {
            assert(filed_letter(*old(self), *self, m, now, r@));
        }
        r
    }
}

/// A topic's queue after the periodic maintenance at `now` under policy `p`.
pub open spec fn maintained(q: Seq<DeadLetterMessage>, p: DlqPolicy, now: u64) -> Seq<DeadLetterMessage> {
    if p.auto_purge_expired { retained(q, p.retention_duration_ms, now) } else { q }
}

impl DeadLetterQueue {
    /// One run of the periodic maintenance at `now`: every topic whose
    /// policy purges expired messages keeps only its unexpired ones. The
    /// counters are left as they are.
    pub fn maintenance_tick_at(&mut self, now: u64)
        ensures
            maintained_all(*old(self), *final(self), now),
    {
        let keys = self.messages_by_topic.keys();
        self.messages_by_topic.note_entries();
        let ghost orig = *self;
        let ghost es = orig.messages_by_topic.entries();
        let mut i: usize = 0;
        while i < keys.len()
            invariant
                i <= keys@.len(),
                keys@.len() == es.len(),
                forall|j: int| 0 <= j < keys@.len() ==> #[trigger] keys@[j]@ == es[j].0@,
                crate::assoc::keys_unique(es),
                orig.messages_by_topic.view() == crate::assoc::entries_map(es),
                forall|t: Seq<char>| #[trigger] self.queued(t) == (if exists|j: int| 0 <= j < i && #[trigger] keys@[j]@ == t {
                    maintained(orig.queued(t), orig.policy_for(t), now)
                } else {
                    orig.queued(t)
                }),
                forall|t: Seq<char>| #[trigger] self.policy_for(t) == orig.policy_for(t),
                self.counters() == orig.counters(),
                self.last_alerts() == orig.last_alerts(),
            decreases keys@.len() - i,
        {
            let k = &keys[i];
            let policy = self.get_policy_for_topic(k.as_str());
            let ghost before = *self;
            if policy.auto_purge_expired {
                self.drop_expired(k.as_str(), policy.retention_duration_ms, now);
            }
            proof {
                assert forall|t: Seq<char>| #[trigger] self.queued(t) == (if exists|j: int| 0 <= j < i + 1 && #[trigger] keys@[j]@ == t {
                    maintained(orig.queued(t), orig.policy_for(t), now)
                } else {
                    orig.queued(t)
                }) by {
                    if t == k@ {
                        assert(keys@[i as int]@ == t);
                        if exists|j: int| 0 <= j < i && #[trigger] keys@[j]@ == t {
                            let j = choose|j: int| 0 <= j < i && #[trigger] keys@[j]@ == t;
                            assert(es[j].0@ != es[i as int].0@);
                        }
                    } else {
                        if exists|j: int| 0 <= j < i + 1 && #[trigger] keys@[j]@ == t {
                            let j = choose|j: int| 0 <= j < i + 1 && #[trigger] keys@[j]@ == t;
                            assert(j != i);
                        }
                    }
                }
                assert forall|t: Seq<char>| #[trigger] self.policy_for(t) == orig.policy_for(t) by {
                    assert(self.policy_for(t) == before.policy_for(t));
                }
            }
            i = i + 1;
        }
        proof {
            assert forall|t: Seq<char>| #[trigger] self.queued(t) == maintained(orig.queued(t), orig.policy_for(t), now) by {
                if orig.messages_by_topic.view().contains_key(t) {
                    assert(crate::assoc::has_key(es, t));
                    let j = choose|j: int| 0 <= j < es.len() && es[j].0@ == t;
                    assert(keys@[j]@ == t);
                } else {
                    reveal(Seq::filter);
                    assert(retained(Seq::<DeadLetterMessage>::empty(), orig.policy_for(t).retention_duration_ms, now)
                        =~= Seq::<DeadLetterMessage>::empty());
                }
            }
        }
    }

    /// One run of the periodic maintenance by the clock.
    pub fn maintenance_tick(&mut self)
        ensures
            exists|now: u64| #[trigger] maintained_all(*old(self), *final(self), now),
    {
        let now = now_millis();
        self.maintenance_tick_at(now);
        proof {
            assert(maintained_all(*old(self), *self, now));
        }
    }
}


/// `b` is queue set `a` after the expired letters of `topic` were purged
/// at `now`, `n` of them: those that outlived the topic's retention are
/// dropped and counted as purged; nothing else changes.
pub open spec fn purged_expired(a: DeadLetterQueue, b: DeadLetterQueue, topic: Seq<char>, now: u64, n: u64) -> bool {
    &&& b.queued(topic) == retained(a.queued(topic), a.policy_for(topic).retention_duration_ms, now)
    &&& n == a.queued(topic).len() - b.queued(topic).len()
    &&& b.counters() == (if n > 0 {
        DlqStatsSnapshot {
            messages_purged: wrap_add(a.counters().messages_purged, n),
            current_size: wrap_sub(a.counters().current_size, n),
            ..a.counters()
        }
    } else {
        a.counters()
    })
    &&& forall|t: Seq<char>| t != topic ==> #[trigger] b.queued(t) == a.queued(t)
    &&& forall|t: Seq<char>| #[trigger] b.policy_for(t) == a.policy_for(t)
    &&& b.last_alerts() == a.last_alerts()
}

/// `b` is queue set `a` after letter `m` was filed at `now`, raising the
/// alerts `r`: room is made in its topic's queue (see `make_room`), the
/// letter goes last and is counted, and the alerts due are raised.
pub open spec fn filed_letter(a: DeadLetterQueue, b: DeadLetterQueue, m: DeadLetterMessage, now: u64, r: Seq<DlqAlert>) -> bool {
    let topic = m.topic@;
    let policy = a.policy_for(topic);
    let purged = purged_for_room(a.queued(topic), policy, now) as u64;
    &&& b.queued(topic) == make_room(a.queued(topic), policy, now).push(m)
    &&& forall|t: Seq<char>| t != topic ==> #[trigger] b.queued(t) == a.queued(t)
    &&& forall|t: Seq<char>| #[trigger] b.policy_for(t) == a.policy_for(t)
    &&& alerts_raised(r, topic, b.queued(topic).len(), policy, a.last_alert(topic), now)
    &&& b.counters().total_messages == wrap_add(a.counters().total_messages, 1)
    &&& b.counters().messages_recovered == a.counters().messages_recovered
    &&& b.counters().messages_purged == wrap_add(a.counters().messages_purged, purged)
    &&& b.counters().current_size == wrap_add(wrap_sub(a.counters().current_size, purged), 1)
    &&& b.counters().alerts_sent == (if size_alert_sent(b.queued(topic).len(), policy, a.last_alert(topic), now) {
        wrap_add(a.counters().alerts_sent, 1)
    } else {
        a.counters().alerts_sent
    })
    &&& b.counters().max_size_reached == (if b.counters().current_size > a.counters().max_size_reached {
        b.counters().current_size
    } else {
        a.counters().max_size_reached
    })
    &&& b.topic_counts() == a.topic_counts().insert(topic, wrap_add(topic_count(a.topic_counts(), topic), 1))
    &&& count_in(b.category_counts(), m.failure_category) == wrap_add(count_in(a.category_counts(), m.failure_category), 1)
}

/// `b` is queue set `a` after the periodic maintenance at `now`: every
/// topic whose policy purges expired letters keeps only its unexpired ones;
/// the counters are left as they are.
pub open spec fn maintained_all(a: DeadLetterQueue, b: DeadLetterQueue, now: u64) -> bool {
    &&& forall|t: Seq<char>| #[trigger] b.queued(t) == maintained(a.queued(t), a.policy_for(t), now)
    &&& forall|t: Seq<char>| #[trigger] b.policy_for(t) == a.policy_for(t)
    &&& b.counters() == a.counters()
    &&& b.last_alerts() == a.last_alerts()
}

/// A topic's queue never outgrows its policy: if it was within the maximum
/// size (of at least one) before a message was filed, it is after.
pub proof fn lemma_filed_queue_bounded(q: Seq<DeadLetterMessage>, p: DlqPolicy, now: u64, m: DeadLetterMessage)
    requires
        p.max_dlq_size > 0,
        q.len() <= p.max_dlq_size,
    ensures
        make_room(q, p, now).push(m).len() <= p.max_dlq_size,
{
    if q.len() >= p.max_dlq_size && p.auto_purge_expired {
        q.lemma_filter_len(|x: DeadLetterMessage| !expired_after(x.dlq_entry_time, p.retention_duration_ms, now));
    }
}

/// A message taken out of a queue is the one at that position, and the
/// others keep their order.
pub proof fn lemma_recover_keeps_order(q: Seq<DeadLetterMessage>, i: int)
    requires
        0 <= i < q.len(),
    ensures
        q.remove(i).len() == q.len() - 1,
        forall|j: int| 0 <= j < i ==> q.remove(i)[j] == q[j],
        forall|j: int| i <= j < q.len() - 1 ==> q.remove(i)[j] == q[j + 1],
{
}
} // verus!
