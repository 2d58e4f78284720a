//! Delivery guarantees: QoS levels, acknowledgements, messages awaiting
//! acknowledgement with their retry schedule, duplicate detection, and the
//! QoS counters and settings.

use vstd::prelude::*;
use std::hash::{Hash, Hasher};
use std::sync::Arc;
use crate::collector::{wrap_add, wrap_sub};
use crate::dmap::{
    list_entries, list_get, list_insert, list_keys, list_new, list_remove, ListMap,
    ack_entries, ack_get, ack_insert, ack_new, ack_retain_recent, ack_recent, pending_contains, pending_entries,
    pending_insert, pending_keys, pending_len, pending_new, pending_remove,
};
use dashmap::DashMap;
use crate::clock::now_millis;
use crate::message::WireMessage;
use crate::text::str_to_string;

verus! {

/// How strongly delivery is guaranteed.
#[derive(Debug, Clone, Copy, PartialEq, Eq, Hash, Structural)]
pub enum QosLevel {
    /// At most once: fire and forget.
    AtMostOnce,
    /// At least once: delivery is acknowledged.
    AtLeastOnce,
    /// Exactly once (served as at least once).
    ExactlyOnce,
}

/// The level a number names; unknown numbers name the weakest level.
pub open spec fn qos_level_of(level: u8) -> QosLevel {
    if level == 1 {
        QosLevel::AtLeastOnce
    } else if level == 2 {
        QosLevel::ExactlyOnce
    } else {
        QosLevel::AtMostOnce
    }
}

/// The number of a level.
pub open spec fn qos_number(q: QosLevel) -> u8 {
    match q {
        QosLevel::AtMostOnce => 0,
        QosLevel::AtLeastOnce => 1,
        QosLevel::ExactlyOnce => 2,
    }
}

impl From<u8> for QosLevel {
    fn from(level: u8) -> (q: QosLevel) {
        if level == 1 {
            QosLevel::AtLeastOnce
        } else if level == 2 {
            QosLevel::ExactlyOnce
        } else {
            QosLevel::AtMostOnce
        }
    }
}

impl vstd::std_specs::convert::FromSpecImpl<u8> for QosLevel {
    open spec fn obeys_from_spec() -> bool {
        true
    }

    open spec fn from_spec(v: u8) -> QosLevel {
        qos_level_of(v)
    }
}

impl QosLevel {
    /// The level's number: 0, 1 or 2.
    pub fn number(self) -> (n: u8)
        ensures
            n == qos_number(self),
    {
        match self {
            QosLevel::AtMostOnce => 0,
            QosLevel::AtLeastOnce => 1,
            QosLevel::ExactlyOnce => 2,
        }
    }
}

/// Reading a level's number back gives the level.
pub proof fn lemma_qos_number_roundtrip(q: QosLevel)
    ensures
        qos_level_of(qos_number(q)) == q,
{
}

/// How a subscriber answered a delivery.
#[derive(Debug, Clone, Copy, PartialEq, Eq, Structural)]
pub enum AckType {
    /// Processed.
    Ack,
    /// Failed; may be retried.
    Nack,
    /// Refused; not to be retried.
    Reject,
}

/// A subscriber's answer to a delivery.
#[derive(Debug, Clone)]
pub struct Acknowledgment {
    pub message_id: u64,
    pub subscriber_id: String,
    pub topic: String,
    pub ack_type: AckType,
    pub reason: Option<String>,
    /// When it was made, in milliseconds since the epoch.
    pub timestamp: u64,
}

impl Acknowledgment {
    /// An answer made at `now`.
    pub fn new_at(
        message_id: u64,
        subscriber_id: String,
        topic: String,
        ack_type: AckType,
        reason: Option<String>,
        now: u64,
    ) -> (a: Acknowledgment)
        ensures
            a.message_id == message_id,
            a.subscriber_id == subscriber_id,
            a.topic == topic,
            a.ack_type == ack_type,
            a.reason == reason,
            a.timestamp == now,
    {
        Acknowledgment { message_id, subscriber_id, topic, ack_type, reason, timestamp: now }
    }

    /// An answer made now.
    pub fn new(
        message_id: u64,
        subscriber_id: String,
        topic: String,
        ack_type: AckType,
        reason: Option<String>,
    ) -> (a: Acknowledgment)
        ensures
            a.message_id == message_id,
            a.subscriber_id == subscriber_id,
            a.topic == topic,
            a.ack_type == ack_type,
            a.reason == reason,
    {
        Acknowledgment::new_at(message_id, subscriber_id, topic, ack_type, reason, now_millis())
    }

    /// A copy of the answer.
    pub fn duplicate(&self) -> (r: Acknowledgment)
        ensures
            r == *self,
    {
        let reason = match &self.reason {
            Some(s) => Some(s.clone()),
            None => None,
        };
        Acknowledgment {
            message_id: self.message_id,
            subscriber_id: self.subscriber_id.clone(),
            topic: self.topic.clone(),
            ack_type: self.ack_type,
            reason,
            timestamp: self.timestamp,
        }
    }
}

/// `rand::random::<u64>()`: a random number (any value).
#[verifier::external_body]
fn random_u64() -> u64 {
    rand::random::<u64>()
}

/// 2 to the power `n`.
pub open spec fn pow2(n: nat) -> nat
    decreases n,
{
    if n == 0 {
        1
    } else {
        2 * pow2((n - 1) as nat)
    }
}

/// `a + b`, or `u64::MAX` when that does not fit.
pub open spec fn sat_add(a: int, b: int) -> u64 {
    if a + b > u64::MAX {
        u64::MAX
    } else {
        (a + b) as u64
    }
}

/// The retry delay after the `count`-th retry: the base interval doubled
/// `count` times.
pub open spec fn backoff_ms(interval: u64, count: u32) -> int {
    interval * pow2(count as nat)
}

/// The jitter added to a delay: a random number below 1000, at most a tenth
/// of the delay.
pub open spec fn jitter_ms(random: u64, backoff: int) -> int {
    if (random % 1000) as int <= backoff / 10 {
        (random % 1000) as int
    } else {
        backoff / 10
    }
}

/// When the retry after the `count`-th one is due, for a retry made at
/// `now` with jitter drawn from `random` (capped at `u64::MAX`).
pub open spec fn next_retry_time(interval: u64, count: u32, now: u64, random: u64) -> u64 {
    sat_add(now + backoff_ms(interval, count), jitter_ms(random, backoff_ms(interval, count)))
}

/// The retry schedule backs off exponentially: the retry after the
/// `count`-th one is due no sooner than the base interval doubled `count`
/// times after the retry is made, and no later than a tenth of that delay
/// beyond it (capped at `u64::MAX`); so each retry's delay is twice the one
/// before.
pub proof fn lemma_retry_delay_doubles(interval: u64, count: u32, now: u64, random: u64)
    ensures
        ({
            let d = interval * pow2(count as nat);
            let t = next_retry_time(interval, count, now, random);
            &&& t >= (if now + d <= u64::MAX { now + d } else { u64::MAX as int })
            &&& t <= now + d + d / 10
            &&& interval * pow2((count + 1) as nat) == 2 * d
        }),
{
    let d = interval * pow2(count as nat);
    assert(d >= 0) by (nonlinear_arith)
        requires
            d == interval * pow2(count as nat),
            interval >= 0,
            pow2(count as nat) >= 0,
    ;
    assert(interval * pow2((count + 1) as nat) == 2 * d) by (nonlinear_arith)
        requires
            pow2((count + 1) as nat) == 2 * pow2(count as nat),
            d == interval * pow2(count as nat),
    ;
}

/// A delivery awaiting acknowledgement.
#[derive(Debug, Clone)]
pub struct PendingMessage {
    pub message: Arc<WireMessage>,
    pub subscriber_id: String,
    pub topic: String,
    pub qos_level: QosLevel,
    /// When it was sent, milliseconds since the epoch.
    pub sent_at: u64,
    pub retry_count: u32,
    pub max_retries: u32,
    /// The base retry interval in milliseconds.
    pub retry_interval_ms: u64,
    pub next_retry_at: u64,
}

impl PendingMessage {
    /// A delivery sent at `now`: no retries yet, at most three, the first
    /// one second later.
    pub fn new_at(message: Arc<WireMessage>, subscriber_id: String, topic: String, qos_level: QosLevel, now: u64) -> (p: PendingMessage)
        ensures
            p.message == message,
            p.subscriber_id == subscriber_id,
            p.topic == topic,
            p.qos_level == qos_level,
            p.sent_at == now,
            p.retry_count == 0,
            p.max_retries == 3,
            p.retry_interval_ms == 1000,
            p.next_retry_at == sat_add(now as int, 1000),
    {
        PendingMessage {
            message,
            subscriber_id,
            topic,
            qos_level,
            sent_at: now,
            retry_count: 0,
            max_retries: 3,
            retry_interval_ms: 1000,
            next_retry_at: now.saturating_add(1000),
        }
    }

    /// A delivery sent now (see `new_at`).
    pub fn new(message: Arc<WireMessage>, subscriber_id: String, topic: String, qos_level: QosLevel) -> (p: PendingMessage)
        ensures
            p.message == message,
            p.subscriber_id == subscriber_id,
            p.topic == topic,
            p.qos_level == qos_level,
            p.retry_count == 0,
            p.max_retries == 3,
            p.retry_interval_ms == 1000,
            p.next_retry_at == sat_add(p.sent_at as int, 1000),
    {
        PendingMessage::new_at(message, subscriber_id, topic, qos_level, now_millis())
    }

    /// Retries are left and the next one is due at `now`.
    pub fn should_retry(&self, now: u64) -> (r: bool)
        ensures
            r == (self.retry_count < self.max_retries && now >= self.next_retry_at),
    {
        self.retry_count < self.max_retries && now >= self.next_retry_at
    }

    /// Counts a retry made at `now` and schedules the next one: the base
    /// interval doubled once per retry so far, plus a jitter drawn from
    /// `random`.
    pub fn increment_retry_at(&mut self, now: u64, random: u64)
        requires
            old(self).retry_count < 30,
            backoff_ms(old(self).retry_interval_ms, (old(self).retry_count + 1) as u32) <= u64::MAX,
        ensures
            final(self).retry_count == old(self).retry_count + 1,
            final(self).next_retry_at == next_retry_time(old(self).retry_interval_ms, final(self).retry_count, now, random),
            ({
                let d = old(self).retry_interval_ms * pow2(final(self).retry_count as nat);
                &&& final(self).next_retry_at >= (if now + d <= u64::MAX { now + d } else { u64::MAX as int })
                &&& final(self).next_retry_at <= now + d + d / 10
            }),
            final(self).message == old(self).message,
            final(self).subscriber_id == old(self).subscriber_id,
            final(self).topic == old(self).topic,
            final(self).qos_level == old(self).qos_level,
            final(self).sent_at == old(self).sent_at,
            final(self).max_retries == old(self).max_retries,
            final(self).retry_interval_ms == old(self).retry_interval_ms,
    {
        self.retry_count = self.retry_count + 1;
        let count = self.retry_count;
        let mut factor: u64 = 1;
        let mut i: u32 = 0;
        proof {
            reveal_with_fuel(pow2, 31);
            assert(pow2(30) == 1073741824);
        }
        while i < count
            invariant
                count <= 30,
                pow2(30) == 1073741824,
                i <= count,
                factor == pow2(i as nat),
                factor <= pow2(30),
            decreases count - i,
        {
            proof {
                lemma_pow2_mono(i as nat + 1, 30);
            }
            factor = factor * 2;
            i = i + 1;
        }
        proof {
            lemma_pow2_mono(count as nat, 30);
            assert(self.retry_interval_ms * factor <= u64::MAX);
        }
        let backoff = self.retry_interval_ms * factor;
        let r = random % 1000;
        let jitter = if r <= backoff / 10 { r } else { backoff / 10 };
        self.next_retry_at = now.saturating_add(backoff).saturating_add(jitter);
    }

    /// Counts a retry made now (see `increment_retry_at`).
    pub fn increment_retry(&mut self)
        requires
            old(self).retry_count < 30,
            backoff_ms(old(self).retry_interval_ms, (old(self).retry_count + 1) as u32) <= u64::MAX,
        ensures
            final(self).retry_count == old(self).retry_count + 1,
            exists|now: u64, random: u64| final(self).next_retry_at
                == #[trigger] next_retry_time(old(self).retry_interval_ms, final(self).retry_count, now, random),
            final(self).sent_at == old(self).sent_at,
            final(self).max_retries == old(self).max_retries,
            final(self).retry_interval_ms == old(self).retry_interval_ms,
    {
        let now = now_millis();
        let random = random_u64();
        self.increment_retry_at(now, random);
    }

    /// More than `timeout_ms` has passed since it was sent.
    pub fn is_expired(&self, now: u64, timeout_ms: u64) -> (r: bool)
        requires
            now >= self.sent_at,
        ensures
            r == (now - self.sent_at > timeout_ms),
    {
        now - self.sent_at > timeout_ms
    }
}

/// Powers of two grow with the exponent.
pub proof fn lemma_pow2_mono(a: nat, b: nat)
    requires
        a <= b,
    ensures
        pow2(a) <= pow2(b),
        pow2(a) >= 1,
    decreases b,
{
    if b > 0 && a < b {
        lemma_pow2_mono(a, (b - 1) as nat);
    } else if a > 0 {
        lemma_pow2_mono((a - 1) as nat, (a - 1) as nat);
    }
}

/// QoS settings.
#[derive(Debug, Clone)]
pub struct QosConfig {
    pub ack_timeout_ms: u64,
    pub max_pending_messages: usize,
    pub retry_interval_ms: u64,
    pub max_retries: u32,
    pub cleanup_interval_ms: u64,
    pub enable_deduplication: bool,
    pub persist_pending_messages: bool,
}

impl Default for QosConfig {
    /// Acknowledgements within 30 s, up to 100 000 pending deliveries,
    /// retries every second up to three times, cleanup every minute,
    /// duplicates filtered and pending deliveries persisted.
    fn default() -> (c: QosConfig)
        ensures
            c.ack_timeout_ms == 30_000,
            c.max_pending_messages == 100_000,
            c.retry_interval_ms == 1_000,
            c.max_retries == 3,
            c.cleanup_interval_ms == 60_000,
            c.enable_deduplication,
            c.persist_pending_messages,
    {
        QosConfig {
            ack_timeout_ms: 30_000,
            max_pending_messages: 100_000,
            retry_interval_ms: 1_000,
            max_retries: 3,
            cleanup_interval_ms: 60_000,
            enable_deduplication: true,
            persist_pending_messages: true,
        }
    }
}

/// QoS counters.
#[derive(Debug, Default)]
pub struct QosStats {
    pub messages_sent: u64,
    pub messages_acked: u64,
    pub messages_nacked: u64,
    pub messages_rejected: u64,
    pub messages_retried: u64,
    pub messages_expired: u64,
    pub duplicates_filtered: u64,
    pub pending_count: u64,
}

/// The QoS counters at one moment.
#[derive(Debug, Clone, Copy, PartialEq, Eq, Structural)]
pub struct QosStatsSnapshot {
    pub messages_sent: u64,
    pub messages_acked: u64,
    pub messages_nacked: u64,
    pub messages_rejected: u64,
    pub messages_retried: u64,
    pub messages_expired: u64,
    pub duplicates_filtered: u64,
    pub pending_count: u64,
}

impl QosStats {
    /// All counters at zero.
    pub fn new() -> (s: QosStats)
        ensures
            s.messages_sent == 0 && s.messages_acked == 0 && s.messages_nacked == 0
                && s.messages_rejected == 0 && s.messages_retried == 0 && s.messages_expired == 0
                && s.duplicates_filtered == 0 && s.pending_count == 0,
    {
        QosStats {
            messages_sent: 0,
            messages_acked: 0,
            messages_nacked: 0,
            messages_rejected: 0,
            messages_retried: 0,
            messages_expired: 0,
            duplicates_filtered: 0,
            pending_count: 0,
        }
    }

    /// The counters' current values.
    pub fn snapshot(&self) -> (s: QosStatsSnapshot)
        ensures
            s.messages_sent == self.messages_sent,
            s.messages_acked == self.messages_acked,
            s.messages_nacked == self.messages_nacked,
            s.messages_rejected == self.messages_rejected,
            s.messages_retried == self.messages_retried,
            s.messages_expired == self.messages_expired,
            s.duplicates_filtered == self.duplicates_filtered,
            s.pending_count == self.pending_count,
    {
        QosStatsSnapshot {
            messages_sent: self.messages_sent,
            messages_acked: self.messages_acked,
            messages_nacked: self.messages_nacked,
            messages_rejected: self.messages_rejected,
            messages_retried: self.messages_retried,
            messages_expired: self.messages_expired,
            duplicates_filtered: self.duplicates_filtered,
            pending_count: self.pending_count,
        }
    }
}

/// The ids a list holds.
pub open spec fn id_set(v: Seq<u64>) -> Set<u64> {
    Set::new(|x: u64| v.contains(x))
}

/// The message ids each subscriber has been sent.
#[derive(Debug)]
pub struct DeduplicationManager {
    seen_messages: ListMap,
    cleanup_interval_ms: u64,
}

/// A record with more ids than this is trimmed by a cleanup pass.
pub const DEDUP_TRIM_ABOVE: usize = 10000;

/// How many ids a trimmed record keeps: the largest ones.
pub const DEDUP_KEEP: usize = 5000;

/// `kept` is the `DEDUP_KEEP` largest ids of `ids`.
pub open spec fn largest_of(ids: Set<u64>, kept: Set<u64>) -> bool {
    &&& kept.subset_of(ids)
    &&& kept.len() == DEDUP_KEEP
    &&& forall|x: u64, y: u64|
        #[trigger] kept.contains(x) && #[trigger] ids.contains(y) && !kept.contains(y) ==> y < x
}

/// What a cleanup pass leaves of a subscriber's ids: the largest
/// `DEDUP_KEEP` where more than `DEDUP_TRIM_ABOVE` were recorded, else all.
pub open spec fn trimmed(ids: Set<u64>, kept: Set<u64>) -> bool {
    if ids.len() > DEDUP_TRIM_ABOVE {
        largest_of(ids, kept)
    } else {
        kept == ids
    }
}

/// A list without repeats holds as many ids as it is long.
proof fn lemma_distinct_ids(s: Seq<u64>)
    requires
        s.no_duplicates(),
    ensures
        id_set(s).finite(),
        id_set(s).len() == s.len(),
{
    broadcast use vstd::seq_lib::seq_to_set_is_finite;
    assert(id_set(s) =~= s.to_set());
    s.unique_seq_to_set();
}

/// Sorts ids into ascending order with `<[u64]>::sort_unstable`, which
/// reorders the elements and leaves them sorted.
#[verifier::external_body]
fn sort_ids(ids: &mut Vec<u64>)
    ensures
        final(ids)@.to_multiset() == old(ids)@.to_multiset(),
        forall|i: int, j: int| 0 <= i <= j < final(ids)@.len() ==> final(ids)@[i] <= final(ids)@[j],
{
    ids.sort_unstable();
}

/// Whether `id` is in the list.
fn holds_id(ids: &Vec<u64>, id: u64) -> (r: bool)
    ensures
        r == ids@.contains(id),
{
    let mut i: usize = 0;
    while i < ids.len()
        invariant
            i <= ids@.len(),
            forall|j: int| 0 <= j < i ==> ids@[j] != id,
        decreases ids@.len() - i,
    {
        if ids[i] == id {
            proof {
                assert(ids@[i as int] == id);
            }
            return true;
        }
        i = i + 1;
    }
    false
}

/// A subscriber's ids after a cleanup pass: the largest `DEDUP_KEEP` when
/// there are more than `DEDUP_TRIM_ABOVE`, else all of them.
fn trim_ids(ids: Vec<u64>) -> (kept: Vec<u64>)
    requires
        ids@.no_duplicates(),
    ensures
        kept@.no_duplicates(),
        id_set(ids@).finite(),
        trimmed(id_set(ids@), id_set(kept@)),
{
    proof {
        lemma_distinct_ids(ids@);
    }
    if ids.len() <= DEDUP_TRIM_ABOVE {
        return ids;
    }
    let ghost orig = ids@;
    let mut sorted = ids;
    sort_ids(&mut sorted);
    proof {
        broadcast use vstd::seq_lib::group_to_multiset_ensures;
        orig.lemma_multiset_has_no_duplicates();
        sorted@.lemma_multiset_has_no_duplicates_conv();
        assert forall|x: u64| #[trigger] id_set(sorted@).contains(x) <==> id_set(orig).contains(x) by {
            assert(sorted@.contains(x) <==> sorted@.to_multiset().count(x) > 0);
            assert(orig.contains(x) <==> orig.to_multiset().count(x) > 0);
        }
        assert(id_set(sorted@) =~= id_set(orig));
        assert(sorted@.len() == sorted@.to_multiset().len());
        assert(orig.len() == orig.to_multiset().len());
    }
    let start: usize = sorted.len() - DEDUP_KEEP;
    let mut kept: Vec<u64> = Vec::new();
    let mut i: usize = start;
    while i < sorted.len()
        invariant
            start <= i <= sorted@.len(),
            kept@ == sorted@.subrange(start as int, i as int),
        decreases sorted@.len() - i,
    {
        kept.push(sorted[i]);
        i = i + 1;
        proof {
            assert(kept@ =~= sorted@.subrange(start as int, i as int));
        }
    }
    proof {
        let s = sorted@;
        assert(kept@.no_duplicates()) by {
            assert forall|a: int, b: int| 0 <= a < kept@.len() && 0 <= b < kept@.len() && a != b implies kept@[a] != kept@[b] by {
                assert(kept@[a] == s[start + a]);
                assert(kept@[b] == s[start + b]);
            }
        }
        lemma_distinct_ids(kept@);
        assert forall|x: u64| #[trigger] id_set(kept@).contains(x) implies id_set(s).contains(x) by {
            let a = choose|a: int| 0 <= a < kept@.len() && kept@[a] == x;
            assert(s[start + a] == x);
        }
        assert forall|x: u64, y: u64|
            #[trigger] id_set(kept@).contains(x) && #[trigger] id_set(s).contains(y) && !id_set(kept@).contains(y) implies y < x by {
            let a = choose|a: int| 0 <= a < kept@.len() && kept@[a] == x;
            let b = choose|b: int| 0 <= b < s.len() && s[b] == y;
            if b >= start {
                assert(kept@[b - start] == y);
                assert(kept@.contains(y));
            }
            assert(s[start + a] == x);
            assert(s[b] <= s[start + a]);
            assert(s[b] != s[start + a]);
        }
    }
    kept
}

impl DeduplicationManager {
    #[verifier::type_invariant]
    spec fn ids_distinct(self) -> bool {
        forall|k: Seq<char>|
            #[trigger] list_entries(self.seen_messages).contains_key(k) ==> list_entries(self.seen_messages)[k].no_duplicates()
    }

    /// The ids seen per subscriber.
    pub closed spec fn view(&self) -> Map<Seq<char>, Set<u64>> {
        list_entries(self.seen_messages).map_values(|v: Seq<u64>| id_set(v))
    }

    /// How often old entries are cleaned, in milliseconds.
    pub closed spec fn interval(&self) -> u64 {
        self.cleanup_interval_ms
    }

    /// Nothing seen yet.
    pub fn new(cleanup_interval_ms: u64) -> (d: DeduplicationManager)
        ensures
            d.view() == Map::<Seq<char>, Set<u64>>::empty(),
            d.interval() == cleanup_interval_ms,
    {
        let d = DeduplicationManager { seen_messages: list_new(), cleanup_interval_ms };
        proof {
            assert(d.view() =~= Map::<Seq<char>, Set<u64>>::empty());
        }
        d
    }

    /// `subscriber_id` has been sent message `message_id` before.
    pub fn is_duplicate(&self, subscriber_id: &str, message_id: u64) -> (r: bool)
        ensures
            r == (self.view().contains_key(subscriber_id@) && self.view()[subscriber_id@].contains(message_id)),
    {
        match list_get(&self.seen_messages, subscriber_id) {
            Some(ids) => {
                proof {
                    assert(self.view()[subscriber_id@] == id_set(ids@));
                }
                holds_id(&ids, message_id)
            },
            None => false,
        }
    }

    /// Records that `subscriber_id` has been sent `message_id`.
    pub fn record_message(&mut self, subscriber_id: &str, message_id: u64)
        ensures
            final(self).view() == old(self).view().insert(
                subscriber_id@,
                (if old(self).view().contains_key(subscriber_id@) {
                    old(self).view()[subscriber_id@]
                } else {
                    Set::<u64>::empty()
                }).insert(message_id),
            ),
            final(self).interval() == old(self).interval(),
    {
        proof {
            use_type_invariant(&*self);
        }
        let mut seen: ListMap = list_new();
        std::mem::swap(&mut seen, &mut self.seen_messages);
        let mut ids: Vec<u64> = match list_remove(&mut seen, subscriber_id) {
            Some(v) => v,
            None => Vec::new(),
        };
        let ghost before = ids@;
        if !holds_id(&ids, message_id) {
            ids.push(message_id);
            proof {
                assert forall|a: int, b: int| 0 <= a < ids@.len() && 0 <= b < ids@.len() && a != b implies ids@[a] != ids@[b] by {
                    if a < before.len() && b < before.len() {
                        assert(ids@[a] == before[a] && ids@[b] == before[b]);
                    } else if a < before.len() {
                        assert(ids@[a] == before[a]);
                        assert(before.contains(before[a]));
                    } else if b < before.len() {
                        assert(ids@[b] == before[b]);
                        assert(before.contains(before[b]));
                    }
                }
            }
        }
        proof {
            assert forall|x: u64| #[trigger] id_set(ids@).contains(x) <==> id_set(before).insert(message_id).contains(x) by {
                if ids@.contains(x) {
                    let k = choose|k: int| 0 <= k < ids@.len() && ids@[k] == x;
                    if k < before.len() {
                        assert(before[k] == x);
                    }
                }
                if before.contains(x) {
                    let k = choose|k: int| 0 <= k < before.len() && before[k] == x;
                    assert(ids@[k] == x);
                }
                if x == message_id && !before.contains(x) {
                    assert(ids@[before.len() as int] == x);
                }
            }
            assert(id_set(ids@) =~= id_set(before).insert(message_id));
            if old(self).view().contains_key(subscriber_id@) {
                assert(old(self).view()[subscriber_id@] == id_set(before));
            } else {
                assert(id_set(before) =~= Set::<u64>::empty());
            }
        }
        list_insert(&mut seen, str_to_string(subscriber_id), ids);
        self.seen_messages = seen;
        proof {
            assert(self.view() =~= old(self).view().insert(
                subscriber_id@,
                (if old(self).view().contains_key(subscriber_id@) {
                    old(self).view()[subscriber_id@]
                } else {
                    Set::<u64>::empty()
                }).insert(message_id),
            ));
        }
    }

    /// A cleanup pass: each subscriber with more than `DEDUP_TRIM_ABOVE`
    /// ids keeps only its `DEDUP_KEEP` largest; the others keep all.
    pub fn cleanup_old_entries(&mut self)
        ensures
            final(self).view().dom() == old(self).view().dom(),
            final(self).interval() == old(self).interval(),
            forall|k: Seq<char>| #[trigger] old(self).view().contains_key(k) ==> {
                &&& old(self).view()[k].finite()
                &&& trimmed(old(self).view()[k], final(self).view()[k])
            },
    {
        proof {
            use_type_invariant(&*self);
        }
        let mut seen: ListMap = list_new();
        std::mem::swap(&mut seen, &mut self.seen_messages);
        let keys = list_keys(&seen);
        let ghost raw = list_entries(seen);
        proof {
            assert forall|k: Seq<char>| raw.contains_key(k) implies exists|j: int| 0 <= j < keys@.len() && #[trigger] keys@[j]@ == k by {
                assert(list_entries(seen).contains_key(k));
            }
            assert forall|j: int| 0 <= j < keys@.len() implies raw.contains_key(#[trigger] keys@[j]@) by {
                let k = keys@[j]@;
                assert(exists|i: int| 0 <= i < keys@.len() && keys@[i]@ == k);
            }
        }
        let mut i: usize = 0;
        while i < keys.len()
            invariant
                i <= keys@.len(),
                forall|a: int, b: int| 0 <= a < b < keys@.len() ==> keys@[a]@ != keys@[b]@,
                forall|k: Seq<char>| raw.contains_key(k) ==> exists|j: int| 0 <= j < keys@.len() && #[trigger] keys@[j]@ == k,
                forall|k: Seq<char>| #[trigger] raw.contains_key(k) ==> raw[k].no_duplicates(),
                list_entries(seen).dom() == raw.dom(),
                forall|k: Seq<char>| #[trigger] list_entries(seen).contains_key(k) ==> list_entries(seen)[k].no_duplicates(),
                forall|j: int| 0 <= j < keys@.len() ==> raw.contains_key(#[trigger] keys@[j]@),
                forall|k: Seq<char>| #[trigger] raw.contains_key(k) ==> {
                    if exists|j: int| 0 <= j < i && #[trigger] keys@[j]@ == k {
                        &&& id_set(raw[k]).finite()
                        &&& trimmed(id_set(raw[k]), id_set(list_entries(seen)[k]))
                    } else {
                        list_entries(seen)[k] == raw[k]
                    }
                },
            decreases keys@.len() - i,
        {
            let ghost k = keys@[i as int]@;
            match list_remove(&mut seen, keys[i].as_str()) {
                Some(ids) => {
                    let kept = trim_ids(ids);
                    list_insert(&mut seen, str_to_string(keys[i].as_str()), kept);
                },
                None => {},
            }
            i = i + 1;
            proof {
                assert forall|q: Seq<char>| #[trigger] raw.contains_key(q) implies {
                    if exists|j: int| 0 <= j < i && #[trigger] keys@[j]@ == q {
                        &&& id_set(raw[q]).finite()
                        &&& trimmed(id_set(raw[q]), id_set(list_entries(seen)[q]))
                    } else {
                        list_entries(seen)[q] == raw[q]
                    }
                } by {
                    if q != k {
                        if exists|j: int| 0 <= j < i && #[trigger] keys@[j]@ == q {
                            let j = choose|j: int| 0 <= j < i && #[trigger] keys@[j]@ == q;
                            assert(j < i - 1);
                        }
                    } else {
                        assert(keys@[i - 1]@ == q);
                    }
                }
            }
        }
        self.seen_messages = seen;
        proof {
            assert forall|k: Seq<char>| #[trigger] old(self).view().contains_key(k) implies {
                &&& old(self).view()[k].finite()
                &&& trimmed(old(self).view()[k], self.view()[k])
            } by {
                assert(raw.contains_key(k));
                let j = choose|j: int| 0 <= j < keys@.len() && #[trigger] keys@[j]@ == k;
                assert(keys@[j]@ == k);
                assert(old(self).view()[k] == id_set(raw[k]));
                assert(self.view()[k] == id_set(list_entries(seen)[k]));
            }
            assert(self.view().dom() =~= old(self).view().dom());
        }
    }
}

/// The message id of a frame: its bytes fed to a
/// `std::collections::hash_map::DefaultHasher::new()`, as `Hash for Bytes`
/// feeds them. Nothing is said of the value: std does not fix the hashing
/// algorithm, nor the width and byte order of the length it feeds, so the
/// same frame may get another id on another machine or build.
#[verifier::external_body]
fn frame_hash(frame: &bytes::Bytes) -> u64 {
    let mut hasher = std::collections::hash_map::DefaultHasher::new();
    frame.hash(&mut hasher);
    hasher.finish()
}

/// The id of a message: the hash of its frame (see `frame_hash`).
pub fn extract_message_id(message: &WireMessage) -> u64 {
    frame_hash(&message.frame)
}

/// The ids seen after `id` is recorded for subscriber `sub`.
pub open spec fn recorded(seen: Map<Seq<char>, Set<u64>>, sub: Seq<char>, id: u64) -> Map<Seq<char>, Set<u64>> {
    seen.insert(sub, (if seen.contains_key(sub) { seen[sub] } else { Set::<u64>::empty() }).insert(id))
}

/// A delivery as the tracker files it at `now`.
pub open spec fn filed(message: Arc<WireMessage>, sub: String, topic: String, now: u64) -> PendingMessage {
    PendingMessage {
        message,
        subscriber_id: sub,
        topic,
        qos_level: QosLevel::AtLeastOnce,
        sent_at: now,
        retry_count: 0,
        max_retries: 3,
        retry_interval_ms: 1000,
        next_retry_at: sat_add(now as int, 1000),
    }
}

/// A delivery awaiting acknowledgement can still be retried safely: it was filed by the
/// tracker and retried at most three times.
pub open spec fn trackable(p: PendingMessage) -> bool {
    p.retry_interval_ms == 1000 && p.max_retries == 3 && p.retry_count <= 3
}

/// The delivery has waited longer than `timeout` at `now` (none if it was
/// sent after `now`).
pub open spec fn overdue(p: PendingMessage, now: u64, timeout: u64) -> bool {
    now >= p.sent_at && now - p.sent_at > timeout
}

/// The counters of a set of statistics.
pub open spec fn qos_counters(s: QosStats) -> QosStatsSnapshot {
    QosStatsSnapshot {
        messages_sent: s.messages_sent,
        messages_acked: s.messages_acked,
        messages_nacked: s.messages_nacked,
        messages_rejected: s.messages_rejected,
        messages_retried: s.messages_retried,
        messages_expired: s.messages_expired,
        duplicates_filtered: s.duplicates_filtered,
        pending_count: s.pending_count,
    }
}

/// What sending a message did.
#[derive(Debug, Clone, Copy, PartialEq, Eq, Structural)]
pub struct SendReceipt {
    pub message_id: u64,
    /// The delivery is now awaiting_ack until acknowledged (and may be
    /// persisted).
    pub awaiting_ack: bool,
}

/// What one retry pass did.
#[derive(Debug)]
pub struct RetryPass {
    /// The deliveries retried.
    pub retried: Vec<u64>,
    /// The deliveries dropped as unacknowledged for too long.
    pub expired: Vec<u64>,
}

/// Delivery guarantees: deliveries awaiting acknowledgement, the
/// acknowledgements received, duplicate filtering and counters.
pub struct QosManager {
    pending_messages: DashMap<u64, PendingMessage>,
    acknowledgments: DashMap<u64, Acknowledgment>,
    dedup_manager: DeduplicationManager,
    stats: QosStats,
    config: QosConfig,
}

impl QosManager {
    /// The deliveries awaiting acknowledgement, by message id.
    pub closed spec fn pending(self) -> Map<u64, PendingMessage> {
        pending_entries(self.pending_messages)
    }

    /// The acknowledgements kept, by message id.
    pub closed spec fn acks(self) -> Map<u64, Acknowledgment> {
        ack_entries(self.acknowledgments)
    }

    /// The message ids each subscriber was sent.
    pub closed spec fn seen(self) -> Map<Seq<char>, Set<u64>> {
        self.dedup_manager.view()
    }

    /// The counters.
    pub closed spec fn counters(self) -> QosStatsSnapshot {
        qos_counters(self.stats)
    }

    /// The settings.
    pub closed spec fn settings(self) -> QosConfig {
        self.config
    }

    /// Every awaiting_ack delivery was filed by the tracker.
    pub closed spec fn wf(self) -> bool {
        &&& self.pending().dom().finite()
        &&& forall|k: u64| #[trigger] self.pending().contains_key(k) ==> trackable(self.pending()[k])
    }

    /// Nothing awaiting_ack, acknowledged or seen; counters zero.
    pub fn new(config: QosConfig) -> (q: QosManager)
        ensures
            q.wf(),
            q.pending() == Map::<u64, PendingMessage>::empty(),
            q.acks() == Map::<u64, Acknowledgment>::empty(),
            q.seen() == Map::<Seq<char>, Set<u64>>::empty(),
            q.counters() == qos_counters(QosStats::new_spec()),
            q.settings() == config,
    {
        let cleanup = config.cleanup_interval_ms;
        QosManager {
            pending_messages: pending_new(),
            acknowledgments: ack_new(),
            dedup_manager: DeduplicationManager::new(cleanup),
            stats: QosStats::new(),
            config,
        }
    }

    /// Sends a message at `now` with a delivery guarantee. Its id is the
    /// hash of its frame. At most once: sent and forgotten. At least once:
    /// with duplicate filtering on, a message the subscriber was already
    /// sent is filtered out; otherwise it is recorded as seen, filed as
    /// pending and sent. Exactly once is served as at least once after
    /// the message was recorded, so with filtering on it is always filtered.
    pub fn send_message_at(
        &mut self,
        message: Arc<WireMessage>,
        subscriber_id: String,
        topic: String,
        qos_level: QosLevel,
        now: u64,
    ) -> (r: SendReceipt)
        requires
            old(self).wf(),
        ensures
            final(self).wf(),
            final(self).acks() == old(self).acks(),
            final(self).settings() == old(self).settings(),
            sent(*old(self), *final(self), message, subscriber_id, topic, qos_level, now, r),
    {
        let message_id = extract_message_id(&message);
        self.send_with_id_at(message, message_id, subscriber_id, topic, qos_level, now)
    }

    /// Hands a delivery whose message id is `message_id` to the tracker at
    /// `now` (see `sent`); the receipt carries that id.
    pub fn send_with_id_at(
        &mut self,
        message: Arc<WireMessage>,
        message_id: u64,
        subscriber_id: String,
        topic: String,
        qos_level: QosLevel,
        now: u64,
    ) -> (r: SendReceipt)
        requires
            old(self).wf(),
        ensures
            final(self).wf(),
            r.message_id == message_id,
            final(self).acks() == old(self).acks(),
            final(self).settings() == old(self).settings(),
            sent(*old(self), *final(self), message, subscriber_id, topic, qos_level, now, r),
    {
        let dedup = self.config.enable_deduplication;
        match qos_level {
            QosLevel::AtMostOnce => {
                self.stats.messages_sent = self.stats.messages_sent.wrapping_add(1);
                SendReceipt { message_id, awaiting_ack: false }
            },
            _ => {
                if dedup {
                    if self.dedup_manager.is_duplicate(subscriber_id.as_str(), message_id) {
                        self.stats.duplicates_filtered = self.stats.duplicates_filtered.wrapping_add(1);
                        proof {
                            let sub = subscriber_id@;
                            assert(old(self).seen()[sub].insert(message_id) =~= old(self).seen()[sub]);
                            assert(recorded(old(self).seen(), sub, message_id) =~= old(self).seen());
                        }
                        return SendReceipt { message_id, awaiting_ack: false };
                    }
                    self.dedup_manager.record_message(subscriber_id.as_str(), message_id);
                    if qos_level == QosLevel::ExactlyOnce {
                        self.stats.duplicates_filtered = self.stats.duplicates_filtered.wrapping_add(1);
                        return SendReceipt { message_id, awaiting_ack: false };
                    }
                }
                let pending = PendingMessage::new_at(message, subscriber_id, topic, QosLevel::AtLeastOnce, now);
                let ghost before = pending_entries(self.pending_messages);
                pending_insert(&mut self.pending_messages, message_id, pending);
                proof {
                    assert forall|k: u64| #[trigger] self.pending().contains_key(k) implies trackable(self.pending()[k]) by {
                        if k != message_id {
                            assert(before.contains_key(k));
                        }
                    }
                }
                self.stats.pending_count = self.stats.pending_count.wrapping_add(1);
                self.stats.messages_sent = self.stats.messages_sent.wrapping_add(1);
                SendReceipt { message_id, awaiting_ack: true }
            },
        }
    }

    /// Sends a message by the clock (see `send_message_at`).
    pub fn send_message(
        &mut self,
        message: Arc<WireMessage>,
        subscriber_id: String,
        topic: String,
        qos_level: QosLevel,
    ) -> (r: SendReceipt)
        requires
            old(self).wf(),
        ensures
            final(self).wf(),
            exists|now: u64| #[trigger] sent(*old(self), *final(self), message, subscriber_id, topic, qos_level, now, r),
            r.awaiting_ack ==> final(self).pending().contains_key(r.message_id),
            final(self).acks() == old(self).acks(),
            final(self).settings() == old(self).settings(),
    {
        let now = now_millis();
        let ghost (m0, s0, t0) = (message, subscriber_id, topic);
        let r = self.send_message_at(message, subscriber_id, topic, qos_level, now);
        proof {
            assert(sent(*old(self), *self, m0, s0, t0, qos_level, now, r));
        }
        r
    }

    /// Handles an answer: it is kept (by message id); an `Ack` or `Reject`
    /// ends the tracking of a pending delivery, a `Nack` leaves it to be
    /// retried. Says whether a awaiting_ack delivery ended.
    pub fn process_acknowledgment(&mut self, ack: Acknowledgment) -> (ended: bool)
        requires
            old(self).wf(),
        ensures
            final(self).wf(),
            final(self).acks() == old(self).acks().insert(ack.message_id, ack),
            final(self).seen() == old(self).seen(),
            final(self).settings() == old(self).settings(),
            ended == (ack.ack_type != AckType::Nack && old(self).pending().contains_key(ack.message_id)),
            final(self).pending() == (if ended {
                old(self).pending().remove(ack.message_id)
            } else {
                old(self).pending()
            }),
            ({
                let c = old(self).counters();
                final(self).counters() == (match ack.ack_type {
                    AckType::Nack => QosStatsSnapshot { messages_nacked: wrap_add(c.messages_nacked, 1), ..c },
                    AckType::Ack => if ended {
                        QosStatsSnapshot {
                            pending_count: wrap_sub(c.pending_count, 1),
                            messages_acked: wrap_add(c.messages_acked, 1),
                            ..c
                        }
                    } else {
                        c
                    },
                    AckType::Reject => if ended {
                        QosStatsSnapshot {
                            pending_count: wrap_sub(c.pending_count, 1),
                            messages_rejected: wrap_add(c.messages_rejected, 1),
                            ..c
                        }
                    } else {
                        c
                    },
                })
            }),
    {
        let message_id = ack.message_id;
        let kind = ack.ack_type;
        let kept = ack.duplicate();
        ack_insert(&mut self.acknowledgments, message_id, kept);
        match kind {
            AckType::Nack => {
                self.stats.messages_nacked = self.stats.messages_nacked.wrapping_add(1);
                false
            },
            _ => {
                let ghost before = pending_entries(self.pending_messages);
                match pending_remove(&mut self.pending_messages, message_id) {
                    None => {
                        proof {
                            assert(self.pending() =~= before);
                        }
                        false
                    },
                    Some(_) => {
                        self.stats.pending_count = self.stats.pending_count.wrapping_sub(1);
                        if kind == AckType::Ack {
                            self.stats.messages_acked = self.stats.messages_acked.wrapping_add(1);
                        } else {
                            self.stats.messages_rejected = self.stats.messages_rejected.wrapping_add(1);
                        }
                        true
                    },
                }
            },
        }
    }

    /// The counters.
    pub fn stats(&self) -> (s: QosStatsSnapshot)
        ensures
            s == self.counters(),
    {
        self.stats.snapshot()
    }

    /// The number of deliveries awaiting acknowledgement.
    pub fn pending_count(&self) -> (n: usize)
        ensures
            n == self.pending().dom().len(),
    {
        pending_len(&self.pending_messages)
    }

    /// The answer kept for a message, if any.
    pub fn get_acknowledgment(&self, message_id: u64) -> (r: Option<Acknowledgment>)
        ensures
            r == (if self.acks().contains_key(message_id) { Some(self.acks()[message_id]) } else { None }),
    {
        ack_get(&self.acknowledgments, message_id)
    }

    /// Whether a delivery of the message awaits acknowledgement.
    pub fn is_message_pending(&self, message_id: u64) -> (r: bool)
        ensures
            r == self.pending().contains_key(message_id),
    {
        pending_contains(&self.pending_messages, message_id)
    }

    /// One pass of the periodic cleanup at `now`: answers an hour old or
    /// more are dropped.
    pub fn cleanup_tick_at(&mut self, now: u64)
        requires
            old(self).wf(),
        ensures
            final(self).wf(),
            final(self).acks() == old(self).acks().restrict(
                old(self).acks().dom().filter(|k: u64| ack_recent(old(self).acks()[k], now)),
            ),
            final(self).pending() == old(self).pending(),
            final(self).seen() == old(self).seen(),
            final(self).counters() == old(self).counters(),
    {
        ack_retain_recent(&mut self.acknowledgments, now);
    }
}

impl QosStats {
    /// All counters at zero.
    pub open spec fn new_spec() -> QosStats {
        QosStats {
            messages_sent: 0,
            messages_acked: 0,
            messages_nacked: 0,
            messages_rejected: 0,
            messages_retried: 0,
            messages_expired: 0,
            duplicates_filtered: 0,
            pending_count: 0,
        }
    }
}

/// `b` is tracker `a` after a delivery of `message` to `subscriber_id` on
/// `topic` at QoS `qos_level` was handed to it at `now`, with receipt `r`:
/// QoS 0 is only counted; with duplicate filtering on, a message the
/// subscriber has already been sent (and any exactly-once message) is
/// recorded and counted as filtered; otherwise the delivery is filed as
/// pending (and recorded when filtering is on) and counted.
pub open spec fn sent(
    a: QosManager,
    b: QosManager,
    message: Arc<WireMessage>,
    subscriber_id: String,
    topic: String,
    qos_level: QosLevel,
    now: u64,
    r: SendReceipt,
) -> bool {
    let id = r.message_id;
    let sub = subscriber_id@;
    let dedup = a.settings().enable_deduplication;
    let seen_before = a.seen().contains_key(sub) && a.seen()[sub].contains(id);
    let c = a.counters();
    if qos_level == QosLevel::AtMostOnce {
        &&& !r.awaiting_ack
        &&& b.pending() == a.pending()
        &&& b.seen() == a.seen()
        &&& b.counters() == (QosStatsSnapshot { messages_sent: wrap_add(c.messages_sent, 1), ..c })
    } else if dedup && (seen_before || qos_level == QosLevel::ExactlyOnce) {
        &&& !r.awaiting_ack
        &&& b.pending() == a.pending()
        &&& b.seen() == recorded(a.seen(), sub, id)
        &&& b.counters() == (QosStatsSnapshot { duplicates_filtered: wrap_add(c.duplicates_filtered, 1), ..c })
    } else {
        &&& r.awaiting_ack
        &&& b.pending() == a.pending().insert(id, filed(message, subscriber_id, topic, now))
        &&& b.seen() == (if dedup { recorded(a.seen(), sub, id) } else { a.seen() })
        &&& b.counters() == (QosStatsSnapshot {
            messages_sent: wrap_add(c.messages_sent, 1),
            pending_count: wrap_add(c.pending_count, 1),
            ..c
        })
    }
}

/// A retry is due at `now`: retries are left and the next one's time came.
pub open spec fn retry_due(p: PendingMessage, now: u64) -> bool {
    p.retry_count < p.max_retries && now >= p.next_retry_at
}

/// `b` is `a` after a retry made at `now`: one more retry, the next one
/// scheduled by the backoff with some jitter, nothing else changed.
pub open spec fn retried_from(a: PendingMessage, b: PendingMessage, now: u64) -> bool {
    &&& b.retry_count == a.retry_count + 1
    &&& exists|random: u64| b.next_retry_at == #[trigger] next_retry_time(a.retry_interval_ms, b.retry_count, now, random)
    &&& b.message == a.message
    &&& b.subscriber_id == a.subscriber_id
    &&& b.topic == a.topic
    &&& b.qos_level == a.qos_level
    &&& b.sent_at == a.sent_at
    &&& b.max_retries == a.max_retries
    &&& b.retry_interval_ms == a.retry_interval_ms
}

/// `a + n` modulo 2^64.
pub open spec fn wrap_add_n(a: u64, n: nat) -> u64 {
    ((a + n) % 0x1_0000_0000_0000_0000int) as u64
}

/// `a - n` modulo 2^64.
pub open spec fn wrap_sub_n(a: u64, n: nat) -> u64 {
    ((a - n) % 0x1_0000_0000_0000_0000int) as u64
}

/// Adding a count of `n` at once wraps as adding it one by one does.
pub proof fn lemma_wrap_add_len(a: u64, n: nat)
    requires
        n <= u64::MAX,
    ensures
        vstd::wrapping::u64_specs::wrapping_add(a, n as u64) == wrap_add_n(a, n),
{
}

/// Counting one more after `n` wraps as counting `n + 1` at once does.
pub proof fn lemma_wrap_step(a: u64, n: nat)
    ensures
        wrap_add(wrap_add_n(a, n), 1) == wrap_add_n(a, n + 1),
        wrap_sub(wrap_sub_n(a, n), 1) == wrap_sub_n(a, n + 1),
        wrap_add_n(a, 0) == a,
        wrap_sub_n(a, 0) == a,
{
}

/// Membership in the first `i + 1` entries of a sequence.
proof fn lemma_prefix_step(keys: Seq<u64>, i: int, x: u64)
    requires
        0 <= i < keys.len(),
    ensures
        keys.subrange(0, i + 1).contains(x) <==> (keys.subrange(0, i).contains(x) || x == keys[i]),
{
    let a = keys.subrange(0, i);
    let b = keys.subrange(0, i + 1);
    assert(b =~= a.push(keys[i]));
    if b.contains(x) && x != keys[i] {
        let j = choose|j: int| 0 <= j < b.len() && b[j] == x;
        assert(a[j] == x);
    }
    if a.contains(x) {
        let j = choose|j: int| 0 <= j < a.len() && a[j] == x;
        assert(b[j] == x);
    }
    if x == keys[i] {
        assert(b[i] == x);
    }
}

/// After the first `i` keys of a retry pass, the expired and retried lists
/// hold exactly the keys among them that expired, and that were retried.
#[verifier::opaque]
pub open spec fn pass_lists_ok(
    keys: Seq<u64>,
    i: int,
    el: Seq<u64>,
    rl: Seq<u64>,
    orig: Map<u64, PendingMessage>,
    now: u64,
    timeout: u64,
) -> bool {
    &&& forall|x: u64| #[trigger] el.contains(x) <==> (keys.subrange(0, i).contains(x) && overdue(orig[x], now, timeout))
    &&& forall|x: u64| #[trigger] rl.contains(x) <==> (keys.subrange(0, i).contains(x)
        && !overdue(orig[x], now, timeout) && retry_due(orig[x], now))
}

/// After the first `i` keys of a retry pass, the tracked deliveries are the
/// original ones but those of them that expired, the retried ones retried
/// and the others unchanged.
#[verifier::opaque]
pub open spec fn pass_map_ok(
    keys: Seq<u64>,
    i: int,
    rl: Seq<u64>,
    orig: Map<u64, PendingMessage>,
    cur: Map<u64, PendingMessage>,
    now: u64,
    timeout: u64,
) -> bool {
    &&& forall|x: u64| #[trigger] cur.contains_key(x) <==> (orig.contains_key(x)
        && !(keys.subrange(0, i).contains(x) && overdue(orig[x], now, timeout)))
    &&& forall|x: u64| #[trigger] cur.contains_key(x) ==> (if rl.contains(x) {
        retried_from(orig[x], cur[x], now)
    } else {
        cur[x] == orig[x]
    })
}

/// The key at position `i` of a duplicate-free sequence is not among the
/// first `i`.
proof fn lemma_fresh_key(keys: Seq<u64>, i: int)
    requires
        keys.no_duplicates(),
        0 <= i < keys.len(),
    ensures
        !keys.subrange(0, i).contains(keys[i]),
        keys.contains(keys[i]),
{
    let done = keys.subrange(0, i);
    if done.contains(keys[i]) {
        let j = choose|j: int| 0 <= j < done.len() && done[j] == keys[i];
        assert(keys[j] == keys[i]);
    }
}

/// One step of a retry pass keeps its bookkeeping.
proof fn lemma_pass_step(
    keys: Seq<u64>,
    i: int,
    el: Seq<u64>,
    rl: Seq<u64>,
    el2: Seq<u64>,
    rl2: Seq<u64>,
    orig: Map<u64, PendingMessage>,
    before: Map<u64, PendingMessage>,
    after: Map<u64, PendingMessage>,
    now: u64,
    timeout: u64,
    o: u8,
)
    requires
        0 <= i < keys.len(),
        keys.no_duplicates(),
        forall|x: u64| keys.contains(x) <==> orig.contains_key(x),
        el.no_duplicates(),
        rl.no_duplicates(),
        pass_lists_ok(keys, i, el, rl, orig, now, timeout),
        pass_map_ok(keys, i, rl, orig, before, now, timeout),
        (o == 0) == overdue(before[keys[i]], now, timeout),
        (o == 1) == (!overdue(before[keys[i]], now, timeout) && retry_due(before[keys[i]], now)),
        o <= 2,
        o == 0 ==> after == before.remove(keys[i]),
        o == 1 ==> after == before.insert(keys[i], after[keys[i]]) && retried_from(before[keys[i]], after[keys[i]], now),
        o == 2 ==> after == before,
        el2 == (if o == 0 { el.push(keys[i]) } else { el }),
        rl2 == (if o == 1 { rl.push(keys[i]) } else { rl }),
    ensures
        before.contains_key(keys[i]),
        before[keys[i]] == orig[keys[i]],
        el2.no_duplicates(),
        rl2.no_duplicates(),
        pass_lists_ok(keys, i + 1, el2, rl2, orig, now, timeout),
        pass_map_ok(keys, i + 1, rl2, orig, after, now, timeout),
{
    reveal(pass_lists_ok);
    reveal(pass_map_ok);
    let k = keys[i];
    lemma_fresh_key(keys, i);
    assert(orig.contains_key(k));
    assert(!el.contains(k));
    assert(!rl.contains(k));
    assert(before.contains_key(k));
    assert(before[k] == orig[k]);
    assert forall|x: u64| #[trigger] el2.contains(x) <==> (el.contains(x) || (o == 0 && x == k)) by {
        if o == 0 {
            if el2.contains(x) && x != k {
                let j = choose|j: int| 0 <= j < el2.len() && el2[j] == x;
                assert(el[j] == x);
            }
            if el.contains(x) {
                let j = choose|j: int| 0 <= j < el.len() && el[j] == x;
                assert(el2[j] == x);
            }
            if x == k {
                assert(el2[el.len() as int] == x);
            }
        }
    }
    assert forall|x: u64| #[trigger] rl2.contains(x) <==> (rl.contains(x) || (o == 1 && x == k)) by {
        if o == 1 {
            if rl2.contains(x) && x != k {
                let j = choose|j: int| 0 <= j < rl2.len() && rl2[j] == x;
                assert(rl[j] == x);
            }
            if rl.contains(x) {
                let j = choose|j: int| 0 <= j < rl.len() && rl[j] == x;
                assert(rl2[j] == x);
            }
            if x == k {
                assert(rl2[rl.len() as int] == x);
            }
        }
    }
    assert forall|x: u64| #[trigger] el2.contains(x) <==> (keys.subrange(0, i + 1).contains(x) && overdue(orig[x], now, timeout)) by {
        lemma_prefix_step(keys, i, x);
    }
    assert forall|x: u64| #[trigger] rl2.contains(x) <==> (keys.subrange(0, i + 1).contains(x)
        && !overdue(orig[x], now, timeout) && retry_due(orig[x], now)) by {
        lemma_prefix_step(keys, i, x);
    }
    assert forall|x: u64| #[trigger] after.contains_key(x) <==> (orig.contains_key(x)
        && !(keys.subrange(0, i + 1).contains(x) && overdue(orig[x], now, timeout))) by {
        lemma_prefix_step(keys, i, x);
    }
    assert forall|x: u64| #[trigger] after.contains_key(x) implies (if rl2.contains(x) {
        retried_from(orig[x], after[x], now)
    } else {
        after[x] == orig[x]
    }) by {
        if x != k {
            assert(before.contains_key(x));
        }
    }
}

impl QosManager {
    /// One delivery's turn in a retry pass: 0 when it expired (and stopped
    /// being tracked), 1 when it was retried, 2 when it was left alone.
    fn retry_one(&mut self, k: u64, now: u64) -> (o: u8)
        requires
            old(self).pending().dom().finite(),
            old(self).pending().contains_key(k),
            forall|x: u64| #[trigger] old(self).pending().contains_key(x) ==> trackable(old(self).pending()[x]),
        ensures
            final(self).pending().dom().finite(),
            forall|x: u64| #[trigger] final(self).pending().contains_key(x) ==> trackable(final(self).pending()[x]),
            (o == 0) == overdue(old(self).pending()[k], now, old(self).settings().ack_timeout_ms),
            (o == 1) == (!overdue(old(self).pending()[k], now, old(self).settings().ack_timeout_ms)
                && retry_due(old(self).pending()[k], now)),
            o <= 2,
            o == 0 ==> final(self).pending() == old(self).pending().remove(k),
            o == 1 ==> final(self).pending() == old(self).pending().insert(k, final(self).pending()[k])
                && retried_from(old(self).pending()[k], final(self).pending()[k], now),
            o == 2 ==> final(self).pending() == old(self).pending(),
            final(self).counters() == (if o == 0 {
                QosStatsSnapshot {
                    messages_expired: wrap_add(old(self).counters().messages_expired, 1),
                    pending_count: wrap_sub(old(self).counters().pending_count, 1),
                    ..old(self).counters()
                }
            } else if o == 1 {
                QosStatsSnapshot {
                    messages_retried: wrap_add(old(self).counters().messages_retried, 1),
                    ..old(self).counters()
                }
            } else {
                old(self).counters()
            }),
            final(self).acks() == old(self).acks(),
            final(self).seen() == old(self).seen(),
            final(self).settings() == old(self).settings(),
    {
        let timeout = self.config.ack_timeout_ms;
        let ghost before = self.pending();
        match pending_remove(&mut self.pending_messages, k) {
            None => 2,
            Some(mut p) => {
                if now >= p.sent_at && now - p.sent_at > timeout {
                    self.stats.messages_expired = self.stats.messages_expired.wrapping_add(1);
                    self.stats.pending_count = self.stats.pending_count.wrapping_sub(1);
                    0
                } else if p.should_retry(now) {
                    let random = random_u64();
                    proof {
                        reveal_with_fuel(pow2, 5);
                        assert(pow2((p.retry_count + 1) as nat) <= 16) by {
                            lemma_pow2_mono((p.retry_count + 1) as nat, 4);
                        }
                    }
                    p.increment_retry_at(now, random);
                    pending_insert(&mut self.pending_messages, k, p);
                    proof {
                        assert(self.pending() =~= before.insert(k, self.pending()[k]));
                    }
                    self.stats.messages_retried = self.stats.messages_retried.wrapping_add(1);
                    1
                } else {
                    pending_insert(&mut self.pending_messages, k, p);
                    proof {
                        assert(self.pending() =~= before);
                    }
                    2
                }
            },
        }
    }

    /// One pass of the retry task at `now`: deliveries unacknowledged for
    /// longer than the timeout stop being tracked; the others whose retry
    /// is due are retried (with jitter drawn at random). Says which were
    /// retried and which expired.
    pub fn retry_tick_at(&mut self, now: u64) -> (r: RetryPass)
        requires
            old(self).wf(),
        ensures
            final(self).wf(),
            r.expired@.no_duplicates(),
            r.retried@.no_duplicates(),
            forall|k: u64| #[trigger] r.expired@.contains(k) <==> (old(self).pending().contains_key(k)
                && overdue(old(self).pending()[k], now, old(self).settings().ack_timeout_ms)),
            forall|k: u64| #[trigger] r.retried@.contains(k) <==> (old(self).pending().contains_key(k)
                && !overdue(old(self).pending()[k], now, old(self).settings().ack_timeout_ms)
                && retry_due(old(self).pending()[k], now)),
            forall|k: u64| #[trigger] final(self).pending().contains_key(k) <==> (old(self).pending().contains_key(k)
                && !overdue(old(self).pending()[k], now, old(self).settings().ack_timeout_ms)),
            forall|k: u64| #[trigger] final(self).pending().contains_key(k) ==> (if r.retried@.contains(k) {
                retried_from(old(self).pending()[k], final(self).pending()[k], now)
            } else {
                final(self).pending()[k] == old(self).pending()[k]
            }),
            final(self).counters() == (QosStatsSnapshot {
                messages_retried: wrap_add_n(old(self).counters().messages_retried, r.retried@.len()),
                messages_expired: wrap_add_n(old(self).counters().messages_expired, r.expired@.len()),
                pending_count: wrap_sub_n(old(self).counters().pending_count, r.expired@.len()),
                ..old(self).counters()
            }),
            final(self).acks() == old(self).acks(),
            final(self).seen() == old(self).seen(),
            final(self).settings() == old(self).settings(),
    {
        let keys = pending_keys(&self.pending_messages);
        let ghost timeout = self.config.ack_timeout_ms;
        let ghost orig = self.pending();
        let ghost c0 = self.counters();
        let mut retried: Vec<u64> = Vec::new();
        let mut expired: Vec<u64> = Vec::new();
        let mut i: usize = 0;
        proof {
            lemma_wrap_step(c0.messages_retried, 0);
            lemma_wrap_step(c0.messages_expired, 0);
            lemma_wrap_step(c0.pending_count, 0);
            reveal(pass_lists_ok);
            reveal(pass_map_ok);
            assert(pass_lists_ok(keys@, 0, expired@, retried@, orig, now, timeout));
            assert(pass_map_ok(keys@, 0, retried@, orig, self.pending(), now, timeout));
        }
        while i < keys.len()
            invariant
                timeout == self.settings().ack_timeout_ms,
                self.pending().dom().finite(),
                forall|k: u64| #[trigger] self.pending().contains_key(k) ==> trackable(self.pending()[k]),
                keys@.no_duplicates(),
                forall|k: u64| keys@.contains(k) <==> orig.contains_key(k),
                i <= keys@.len(),
                retried@.no_duplicates(),
                expired@.no_duplicates(),
                pass_lists_ok(keys@, i as int, expired@, retried@, orig, now, timeout),
                pass_map_ok(keys@, i as int, retried@, orig, self.pending(), now, timeout),
                self.counters() == (QosStatsSnapshot {
                    messages_retried: wrap_add_n(c0.messages_retried, retried@.len()),
                    messages_expired: wrap_add_n(c0.messages_expired, expired@.len()),
                    pending_count: wrap_sub_n(c0.pending_count, expired@.len()),
                    ..c0
                }),
                self.acks() == old(self).acks(),
                self.seen() == old(self).seen(),
                self.settings() == old(self).settings(),
                c0 == old(self).counters(),
                orig == old(self).pending(),
            decreases keys@.len() - i,
        {
            let k = keys[i];
            let ghost before = self.pending();
            let ghost rl = retried@;
            let ghost el = expired@;
            proof {
                lemma_fresh_key(keys@, i as int);
                reveal(pass_map_ok);
                assert(before.contains_key(k));
            }
            let o = self.retry_one(k, now);
            if o == 0 {
                expired.push(k);
                proof {
                    lemma_wrap_step(c0.messages_expired, el.len());
                    lemma_wrap_step(c0.pending_count, el.len());
                }
            } else if o == 1 {
                retried.push(k);
                proof {
                    lemma_wrap_step(c0.messages_retried, rl.len());
                }
            }
            proof {
                lemma_pass_step(keys@, i as int, el, rl, expired@, retried@, orig, before, self.pending(), now, timeout, o);
            }
            i = i + 1;
        }
        proof {
            assert(keys@.subrange(0, keys@.len() as int) =~= keys@);
            reveal(pass_lists_ok);
            reveal(pass_map_ok);
        }
        RetryPass { retried, expired }
    }
}


/// Once a subscriber's message id is recorded, it counts as already sent
/// to that subscriber, and nothing else recorded is forgotten.
pub proof fn lemma_recorded_is_seen(seen: Map<Seq<char>, Set<u64>>, sub: Seq<char>, id: u64)
    ensures
        recorded(seen, sub, id).contains_key(sub),
        recorded(seen, sub, id)[sub].contains(id),
        forall|s: Seq<char>, x: u64| #[trigger] seen.contains_key(s) && seen[s].contains(x)
            ==> recorded(seen, sub, id).contains_key(s) && #[trigger] recorded(seen, sub, id)[s].contains(x),
{
}
} // verus!
