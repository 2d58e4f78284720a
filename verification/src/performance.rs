//! Performance bookkeeping: latency histograms (`hdrhistogram`), throughput
//! counters, allocation tracking, sizing advice and latency timers.

use vstd::prelude::*;
use std::time::{Duration, Instant};
use hdrhistogram::Histogram;
use crate::clock::{instant_elapsed, instant_now};

verus! {

/// An `hdrhistogram::Histogram<u64>` of samples, kept whole.
#[verifier::external_body]
#[derive(Debug)]
pub struct SampleHistogram {
    inner: Histogram<u64>,
}

/// The number of samples a histogram holds.
pub uninterp spec fn histogram_len(h: SampleHistogram) -> u64;

/// Whether a histogram resizes itself to take any value (as one made by
/// `Histogram::new` does).
pub uninterp spec fn histogram_grows(h: SampleHistogram) -> bool;

/// `Histogram::<u64>::new(sigfig)`, with the error dropped: `None` for more
/// than 5 significant digits, else an empty auto-resizing histogram (lowest
/// value 1, highest 2, which `new_with_bounds` accepts for such digits).
#[verifier::external_body]
fn histogram_new(sigfig: u8) -> (r: Option<SampleHistogram>)
    ensures
        sigfig > 5 ==> r is None,
        sigfig <= 5 ==> r is Some,
        r matches Some(h) ==> histogram_len(h) == 0 && histogram_grows(h),
{
    Histogram::<u64>::new(sigfig).ok().map(|inner| SampleHistogram { inner })
}

/// `Histogram::record`: records one sample; on success the histogram holds
/// one more (its count saturates at `u64::MAX`). An auto-resizing histogram
/// always succeeds: its only failure is a resize whose `u32` bin count does
/// not fit a `usize`, which cannot happen with a `usize` of 32 bits or more.
/// Whether it resizes itself is kept.
#[verifier::external_body]
fn histogram_record(h: &mut SampleHistogram, value: u64) -> (ok: bool)
    ensures
        histogram_grows(*old(h)) ==> ok,
        histogram_grows(*final(h)) == histogram_grows(*old(h)),
        ok ==> histogram_len(*final(h)) == (if histogram_len(*old(h)) == u64::MAX {
            u64::MAX
        } else {
            (histogram_len(*old(h)) + 1) as u64
        }),
        !ok ==> histogram_len(*final(h)) == histogram_len(*old(h)),
{
    h.inner.record(value).is_ok()
}

/// `Histogram::len`: the number of samples recorded.
#[verifier::external_body]
fn histogram_samples(h: &SampleHistogram) -> (n: u64)
    ensures
        n == histogram_len(*h),
{
    h.inner.len()
}

/// `Duration::as_micros`: whole microseconds in a duration.
#[verifier::external_body]
fn duration_as_micros(d: &Duration) -> u128 {
    d.as_micros()
}

/// Throughput and latency figures of the broker.
#[derive(Debug)]
pub struct PerformanceMetrics {
    pub connections_accepted: u64,
    pub connections_dropped: u64,
    pub active_connections: u64,
    pub messages_published: u64,
    pub messages_delivered: u64,
    pub messages_dropped: u64,
    pub bytes_sent: u64,
    pub bytes_received: u64,
    /// Publish latencies in microseconds (3 significant digits).
    pub publish_latency: Option<SampleHistogram>,
    /// Delivery latencies in microseconds (3 significant digits).
    pub delivery_latency: Option<SampleHistogram>,
    /// Queue depths (2 significant digits).
    pub queue_depth_histogram: Option<SampleHistogram>,
    /// CPU use in basis points.
    pub cpu_usage: u64,
    pub memory_usage: u64,
    pub gc_count: u64,
}

/// One more than `n`, saturating at `u64::MAX`.
pub open spec fn one_more(n: u64) -> u64 {
    if n == u64::MAX { u64::MAX } else { (n + 1) as u64 }
}

/// `after` is histogram `before` after one recording: a self-resizing
/// histogram holds one more sample (saturating at `u64::MAX`), another one
/// as many or one more (its recording may fail); whether it resizes itself
/// is kept, and a missing histogram stays missing.
pub open spec fn recorded_one(before: Option<SampleHistogram>, after: Option<SampleHistogram>) -> bool {
    match (before, after) {
        (Some(a), Some(b)) => {
            &&& histogram_grows(b) == histogram_grows(a)
            &&& if histogram_grows(a) {
                histogram_len(b) == one_more(histogram_len(a))
            } else {
                histogram_len(b) == histogram_len(a) || histogram_len(b) == one_more(histogram_len(a))
            }
        },
        (None, None) => true,
        _ => false,
    }
}

/// The plain counters of the figures.
pub open spec fn plain_counters(m: PerformanceMetrics) -> (u64, u64, u64, u64, u64, u64, u64, u64, u64, u64, u64) {
    (
        m.connections_accepted,
        m.connections_dropped,
        m.active_connections,
        m.messages_published,
        m.messages_delivered,
        m.messages_dropped,
        m.bytes_sent,
        m.bytes_received,
        m.cpu_usage,
        m.memory_usage,
        m.gc_count,
    )
}

/// The number of samples in an optional histogram.
pub open spec fn samples_in(h: Option<SampleHistogram>) -> Option<u64> {
    match h {
        Some(x) => Some(histogram_len(x)),
        None => None,
    }
}

impl PerformanceMetrics {
    /// Every counter at zero and empty histograms.
    pub fn new() -> (m: PerformanceMetrics)
        ensures
            m.connections_accepted == 0 && m.connections_dropped == 0 && m.active_connections == 0,
            m.messages_published == 0 && m.messages_delivered == 0 && m.messages_dropped == 0,
            m.bytes_sent == 0 && m.bytes_received == 0,
            m.cpu_usage == 0 && m.memory_usage == 0 && m.gc_count == 0,
            m.publish_latency matches Some(h) && histogram_len(h) == 0 && histogram_grows(h),
            m.delivery_latency matches Some(h) && histogram_len(h) == 0 && histogram_grows(h),
            m.queue_depth_histogram matches Some(h) && histogram_len(h) == 0 && histogram_grows(h),
    {
        PerformanceMetrics {
            connections_accepted: 0,
            connections_dropped: 0,
            active_connections: 0,
            messages_published: 0,
            messages_delivered: 0,
            messages_dropped: 0,
            bytes_sent: 0,
            bytes_received: 0,
            publish_latency: histogram_new(3),
            delivery_latency: histogram_new(3),
            queue_depth_histogram: histogram_new(2),
            cpu_usage: 0,
            memory_usage: 0,
            gc_count: 0,
        }
    }

    /// Records a publish latency, in microseconds (cut to 64 bits).
    pub fn record_publish_latency(&mut self, latency: Duration)
        ensures
            recorded_one(old(self).publish_latency, final(self).publish_latency),
            final(self).delivery_latency == old(self).delivery_latency,
            final(self).queue_depth_histogram == old(self).queue_depth_histogram,
            plain_counters(*final(self)) == plain_counters(*old(self)),
    {
        let micros = duration_as_micros(&latency) as u64;
        match &mut self.publish_latency {
            Some(h) => {
                histogram_record(h, micros);
            },
            None => {},
        }
    }

    /// Records a delivery latency, in microseconds (cut to 64 bits).
    pub fn record_delivery_latency(&mut self, latency: Duration)
        ensures
            recorded_one(old(self).delivery_latency, final(self).delivery_latency),
            final(self).publish_latency == old(self).publish_latency,
            final(self).queue_depth_histogram == old(self).queue_depth_histogram,
            plain_counters(*final(self)) == plain_counters(*old(self)),
    {
        let micros = duration_as_micros(&latency) as u64;
        match &mut self.delivery_latency {
            Some(h) => {
                histogram_record(h, micros);
            },
            None => {},
        }
    }

    /// Records a queue depth.
    pub fn record_queue_depth(&mut self, depth: usize)
        ensures
            recorded_one(old(self).queue_depth_histogram, final(self).queue_depth_histogram),
            final(self).publish_latency == old(self).publish_latency,
            final(self).delivery_latency == old(self).delivery_latency,
            plain_counters(*final(self)) == plain_counters(*old(self)),
    {
        match &mut self.queue_depth_histogram {
            Some(h) => {
                histogram_record(h, depth as u64);
            },
            None => {},
        }
    }

    /// The number of publish latencies recorded.
    pub fn publish_samples(&self) -> (n: u64)
        ensures
            n == (match samples_in(self.publish_latency) {
                Some(k) => k,
                None => 0,
            }),
    {
        match &self.publish_latency {
            Some(h) => histogram_samples(h),
            None => 0,
        }
    }
}

/// The suggested worker pool size for `cpu_count` cores: the core count,
/// at least 2 and at most 32.
pub fn suggest_thread_pool_size(cpu_count: usize) -> (n: usize)
    ensures
        n == (if cpu_count < 2 { 2 } else if cpu_count > 32 { 32 } else { cpu_count }),
{
    if cpu_count < 2 {
        2
    } else if cpu_count > 32 {
        32
    } else {
        cpu_count
    }
}

/// The bytes the application reports as allocated. The count wraps around
/// like the atomic counter it models.
#[derive(Debug, Clone, Copy, PartialEq, Eq, Structural)]
pub struct AllocationTracker {
    pub allocated_bytes: usize,
}

impl AllocationTracker {
    /// Nothing allocated.
    pub fn new() -> (t: AllocationTracker)
        ensures
            t.allocated_bytes == 0,
    {
        AllocationTracker { allocated_bytes: 0 }
    }
}

/// Counts `size` bytes allocated.
pub fn track_allocation(t: &mut AllocationTracker, size: usize)
    ensures
        final(t).allocated_bytes == vstd::wrapping::usize_specs::wrapping_add(old(t).allocated_bytes, size),
{
    t.allocated_bytes = t.allocated_bytes.wrapping_add(size);
}

/// Counts `size` bytes freed.
pub fn track_deallocation(t: &mut AllocationTracker, size: usize)
    ensures
        final(t).allocated_bytes == vstd::wrapping::usize_specs::wrapping_sub(old(t).allocated_bytes, size),
{
    t.allocated_bytes = t.allocated_bytes.wrapping_sub(size);
}

/// The bytes counted as allocated.
pub fn get_allocated_bytes(t: &AllocationTracker) -> (n: usize)
    ensures
        n == t.allocated_bytes,
{
    t.allocated_bytes
}

/// `x` kept between `lo` and `hi` (first raised to `lo`, then lowered to `hi`).
pub open spec fn clamp_between(x: int, lo: int, hi: int) -> int {
    let raised = if x < lo { lo } else { x };
    if raised > hi { hi } else { raised }
}

/// The small, medium and large buffer sizes for `available` bytes of
/// memory: a ten-thousandth, a thousandth and a hundredth of it, kept
/// within 1–4 KiB, 4–16 KiB and 16–64 KiB.
pub fn buffer_sizes_for(available: usize) -> (r: (usize, usize, usize))
    ensures
        r.0 == clamp_between(available as int / 10000, 1024, 4096),
        r.1 == clamp_between(available as int / 1000, 4096, 16384),
        r.2 == clamp_between(available as int / 100, 16384, 65536),
{
    let s = available / 10000;
    let s = if s < 1024 { 1024 } else { s };
    let s = if s > 4096 { 4096 } else { s };
    let m = available / 1000;
    let m = if m < 4096 { 4096 } else { m };
    let m = if m > 16384 { 16384 } else { m };
    let l = available / 100;
    let l = if l < 16384 { 16384 } else { l };
    let l = if l > 65536 { 65536 } else { l };
    (s, m, l)
}

/// The memory assumed available for buffers: 1 GiB.
pub const AVAILABLE_MEMORY: usize = 1073741824;

/// The suggested small, medium and large buffer sizes: 4 KiB, 16 KiB and 64 KiB.
pub fn suggest_buffer_sizes() -> (r: (usize, usize, usize))
    ensures
        r == (4096usize, 16384usize, 65536usize),
{
    buffer_sizes_for(AVAILABLE_MEMORY)
}

/// The suggested socket buffer size: 64 KiB.
pub fn get_optimal_buffer_size() -> (n: usize)
    ensures
        n == 65536,
{
    64 * 1024
}

/// The suggested listen backlog: 1024.
pub fn get_suggested_backlog() -> (n: u32)
    ensures
        n == 1024,
{
    1024
}

/// Measures the time since it was started.
pub struct LatencyTimer {
    start: Instant,
}

impl LatencyTimer {
    /// A timer started now.
    pub fn start() -> LatencyTimer {
        LatencyTimer { start: instant_now() }
    }

    /// The time since the timer started.
    pub fn elapsed(&self) -> Duration {
        instant_elapsed(&self.start)
    }

    /// Records the time since the timer started as a publish latency.
    pub fn record_publish_latency(self, metrics: &mut PerformanceMetrics)
        ensures
            recorded_one(old(metrics).publish_latency, final(metrics).publish_latency),
            final(metrics).delivery_latency == old(metrics).delivery_latency,
            final(metrics).queue_depth_histogram == old(metrics).queue_depth_histogram,
            plain_counters(*final(metrics)) == plain_counters(*old(metrics)),
    {
        metrics.record_publish_latency(self.elapsed());
    }

    /// Records the time since the timer started as a delivery latency.
    pub fn record_delivery_latency(self, metrics: &mut PerformanceMetrics)
        ensures
            recorded_one(old(metrics).delivery_latency, final(metrics).delivery_latency),
            final(metrics).publish_latency == old(metrics).publish_latency,
            final(metrics).queue_depth_histogram == old(metrics).queue_depth_histogram,
            plain_counters(*final(metrics)) == plain_counters(*old(metrics)),
    {
        metrics.record_delivery_latency(self.elapsed());
    }
}

} // verus!
