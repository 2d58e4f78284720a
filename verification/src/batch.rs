//! Batching: items are gathered and handed over in batches, when a batch
//! is full, when it has waited long enough, or when the input ends. The
//! timer and the input channel are driven around the batcher; it decides.

use vstd::prelude::*;
use crate::delivery::BatchConfig;

verus! {

/// Batch counters. They count modulo 2^64.
#[derive(Debug, Clone, Copy, PartialEq, Eq, Structural)]
pub struct BatchStats {
    pub total_batches: u64,
    pub total_items: u64,
    /// The largest batch handed over.
    pub max_batch_size: usize,
    pub flush_by_size: u64,
    pub flush_by_timeout: u64,
    pub processing_time_ms: u64,
}

/// The counters after a batch of `size` items was processed in `ms`
/// milliseconds, handed over by timeout or not.
pub open spec fn stats_after(s: BatchStats, size: usize, by_timeout: bool, ms: u64) -> BatchStats {
    BatchStats {
        total_batches: crate::collector::wrap_add(s.total_batches, 1),
        total_items: crate::collector::wrap_add(s.total_items, size as u64),
        max_batch_size: if size > s.max_batch_size { size } else { s.max_batch_size },
        flush_by_size: if by_timeout { s.flush_by_size } else { crate::collector::wrap_add(s.flush_by_size, 1) },
        flush_by_timeout: if by_timeout { crate::collector::wrap_add(s.flush_by_timeout, 1) } else { s.flush_by_timeout },
        processing_time_ms: crate::collector::wrap_add(s.processing_time_ms, ms),
    }
}

impl BatchStats {
    /// All counters zero.
    pub fn new() -> (s: BatchStats)
        ensures
            s == (BatchStats {
                total_batches: 0,
                total_items: 0,
                max_batch_size: 0,
                flush_by_size: 0,
                flush_by_timeout: 0,
                processing_time_ms: 0,
            }),
    {
        BatchStats {
            total_batches: 0,
            total_items: 0,
            max_batch_size: 0,
            flush_by_size: 0,
            flush_by_timeout: 0,
            processing_time_ms: 0,
        }
    }

    /// Counts a processed batch.
    pub fn update(&mut self, batch_size: usize, flushed_by_timeout: bool, processing_time_ms: u64)
        ensures
            *final(self) == stats_after(*old(self), batch_size, flushed_by_timeout, processing_time_ms),
    {
        self.total_batches = self.total_batches.wrapping_add(1);
        self.total_items = self.total_items.wrapping_add(batch_size as u64);
        if batch_size > self.max_batch_size {
            self.max_batch_size = batch_size;
        }
        if flushed_by_timeout {
            self.flush_by_timeout = self.flush_by_timeout.wrapping_add(1);
        } else {
            self.flush_by_size = self.flush_by_size.wrapping_add(1);
        }
        self.processing_time_ms = self.processing_time_ms.wrapping_add(processing_time_ms);
    }
}

/// A batch handed over.
#[derive(Debug)]
pub struct Flush<T> {
    pub items: Vec<T>,
    /// Handed over because it waited long enough.
    pub by_timeout: bool,
}

/// The batch being gathered, and when the last batch was handed over.
#[derive(Debug)]
pub struct Batcher<T> {
    config: BatchConfig,
    batch: Vec<T>,
    last_flush_ms: u64,
}

impl<T> Batcher<T> {
    /// The items gathered so far, oldest first.
    pub closed spec fn pending(&self) -> Seq<T> {
        self.batch@
    }

    /// When the last batch was handed over (or the batcher started).
    pub closed spec fn last_flush(&self) -> u64 {
        self.last_flush_ms
    }

    /// The settings.
    pub closed spec fn settings(&self) -> BatchConfig {
        self.config
    }

    /// An empty batcher started at `now`.
    pub fn new_at(config: BatchConfig, now: u64) -> (b: Batcher<T>)
        ensures
            b.pending() == Seq::<T>::empty(),
            b.last_flush() == now,
            b.settings() == config,
    {
        Batcher { config, batch: Vec::new(), last_flush_ms: now }
    }

    /// Takes an item at `now`; a batch that reaches the maximum size is
    /// handed over.
    pub fn on_item(&mut self, item: T, now: u64) -> (r: Option<Flush<T>>)
        ensures
            final(self).settings() == old(self).settings(),
            if old(self).pending().len() + 1 >= old(self).settings().max_batch_size {
                &&& r matches Some(f) && f.items@ == old(self).pending().push(item) && !f.by_timeout
                &&& final(self).pending() == Seq::<T>::empty()
                &&& final(self).last_flush() == now
            } else {
                &&& r is None
                &&& final(self).pending() == old(self).pending().push(item)
                &&& final(self).last_flush() == old(self).last_flush()
            },
    {
        self.batch.push(item);
        if self.batch.len() >= self.config.max_batch_size {
            let mut items: Vec<T> = Vec::new();
            std::mem::swap(&mut items, &mut self.batch);
            self.last_flush_ms = now;
            Some(Flush { items, by_timeout: false })
        } else {
            None
        }
    }

    /// The input ended: what is left is handed over, if anything.
    pub fn on_closed(&mut self) -> (r: Option<Flush<T>>)
        ensures
            final(self).settings() == old(self).settings(),
            final(self).pending() == Seq::<T>::empty(),
            final(self).last_flush() == old(self).last_flush(),
            old(self).pending().len() == 0 ==> r is None,
            old(self).pending().len() > 0 ==> (r matches Some(f) && f.items@ == old(self).pending() && !f.by_timeout),
    {
        if self.batch.len() == 0 {
            return None;
        }
        let mut items: Vec<T> = Vec::new();
        std::mem::swap(&mut items, &mut self.batch);
        Some(Flush { items, by_timeout: false })
    }

    /// The timer fired at `now`: a non-empty batch that has waited at
    /// least the maximum delay since the last hand-over is handed over.
    pub fn on_tick(&mut self, now: u64) -> (r: Option<Flush<T>>)
        ensures
            final(self).settings() == old(self).settings(),
            if old(self).pending().len() > 0 && now >= old(self).last_flush()
                && now - old(self).last_flush() >= old(self).settings().max_batch_delay_ms {
                &&& r matches Some(f) && f.items@ == old(self).pending() && f.by_timeout
                &&& final(self).pending() == Seq::<T>::empty()
                &&& final(self).last_flush() == now
            } else {
                &&& r is None
                &&& final(self).pending() == old(self).pending()
                &&& final(self).last_flush() == old(self).last_flush()
            },
    {
        if self.batch.len() > 0 && now >= self.last_flush_ms
            && now - self.last_flush_ms >= self.config.max_batch_delay_ms {
            let mut items: Vec<T> = Vec::new();
            std::mem::swap(&mut items, &mut self.batch);
            self.last_flush_ms = now;
            Some(Flush { items, by_timeout: true })
        } else {
            None
        }
    }
}

} // verus!
