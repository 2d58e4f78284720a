//! A bounded pool of reusable objects: taken objects are reset before they
//! are handed out again, new ones are made when the pool is empty, and at
//! most `max_size` returned objects are kept.

use vstd::prelude::*;

verus! {

/// Pool counters. They count modulo 2^64 (or the machine word), as atomic
/// counters do.
#[derive(Debug, Clone, Copy, PartialEq, Eq, Structural)]
pub struct PoolStats {
    /// Objects asked for.
    pub allocations: usize,
    /// Objects given back.
    pub deallocations: usize,
    /// Requests served from the pool.
    pub cache_hits: usize,
    /// Requests served by making a new object.
    pub cache_misses: usize,
    /// Objects the pool holds.
    pub pool_size: usize,
    /// Most objects the pool held.
    pub peak_pool_size: usize,
}

/// The counters as read at one moment.
pub type PoolStatsSnapshot = PoolStats;

/// `a + 1` in the machine word, wrapping.
pub open spec fn inc(a: usize) -> usize {
    if a == usize::MAX { 0 } else { (a + 1) as usize }
}

/// `a - 1` in the machine word, wrapping.
pub open spec fn dec(a: usize) -> usize {
    if a == 0 { usize::MAX } else { (a - 1) as usize }
}

fn wrapping_inc(a: usize) -> (r: usize)
    ensures
        r == inc(a),
{
    if a == usize::MAX { 0 } else { a + 1 }
}

fn wrapping_dec(a: usize) -> (r: usize)
    ensures
        r == dec(a),
{
    if a == 0 { usize::MAX } else { a - 1 }
}

impl PoolStats {
    /// All counters zero.
    pub fn new() -> (s: PoolStats)
        ensures
            s == (PoolStats {
                allocations: 0,
                deallocations: 0,
                cache_hits: 0,
                cache_misses: 0,
                pool_size: 0,
                peak_pool_size: 0,
            }),
    {
        PoolStats { allocations: 0, deallocations: 0, cache_hits: 0, cache_misses: 0, pool_size: 0, peak_pool_size: 0 }
    }

    /// The counters at this moment.
    pub fn snapshot(&self) -> (s: PoolStatsSnapshot)
        ensures
            s == *self,
    {
        *self
    }
}

/// A pool of objects made by `factory` and cleaned by `reset`.
#[verifier::reject_recursive_types(T)]
pub struct ObjectPool<T, F: Fn() -> T, R: Fn(T) -> T> {
    pool: Vec<T>,
    factory: F,
    reset: R,
    max_size: usize,
    stats: PoolStats,
}

impl<T, F: Fn() -> T, R: Fn(T) -> T> ObjectPool<T, F, R> {
    #[verifier::type_invariant]
    spec fn inv(self) -> bool {
        &&& call_requires(self.factory, ())
        &&& forall|t: T| call_requires(self.reset, (t,))
        &&& self.pool@.len() <= self.max_size
    }

    /// The objects held, in the order they will be handed out.
    pub closed spec fn held(self) -> Seq<T> {
        self.pool@
    }

    /// The most objects kept.
    pub closed spec fn capacity(self) -> usize {
        self.max_size
    }

    /// The counters.
    pub closed spec fn counters(self) -> PoolStats {
        self.stats
    }

    /// How objects are made.
    pub closed spec fn maker(self) -> F {
        self.factory
    }

    /// How objects are cleaned.
    pub closed spec fn cleaner(self) -> R {
        self.reset
    }

    /// An empty pool keeping at most `max_size` objects.
    pub fn new(max_size: usize, factory: F, reset: R) -> (p: Self)
        requires
            call_requires(factory, ()),
            forall|t: T| call_requires(reset, (t,)),
        ensures
            p.held() == Seq::<T>::empty(),
            p.capacity() == max_size,
            p.counters() == PoolStats::new_spec(),
            p.maker() == factory,
            p.cleaner() == reset,
    {
        ObjectPool { pool: Vec::new(), factory, reset, max_size, stats: PoolStats::new() }
    }

    /// An object: the oldest held one, cleaned, or a new one when none is
    /// held.
    pub fn get(&mut self) -> (r: T)
        ensures
            final(self).capacity() == old(self).capacity(),
            final(self).maker() == old(self).maker(),
            final(self).cleaner() == old(self).cleaner(),
            final(self).counters().allocations == inc(old(self).counters().allocations),
            final(self).counters().deallocations == old(self).counters().deallocations,
            final(self).counters().peak_pool_size == old(self).counters().peak_pool_size,
            if old(self).held().len() > 0 {
                &&& call_ensures(old(self).cleaner(), (old(self).held()[0],), r)
                &&& final(self).held() == old(self).held().drop_first()
                &&& final(self).counters().cache_hits == inc(old(self).counters().cache_hits)
                &&& final(self).counters().cache_misses == old(self).counters().cache_misses
                &&& final(self).counters().pool_size == dec(old(self).counters().pool_size)
            } else {
                &&& call_ensures(old(self).maker(), (), r)
                &&& final(self).held() == old(self).held()
                &&& final(self).counters().cache_hits == old(self).counters().cache_hits
                &&& final(self).counters().cache_misses == inc(old(self).counters().cache_misses)
                &&& final(self).counters().pool_size == old(self).counters().pool_size
            },
    {
        proof {
            use_type_invariant(&*self);
        }
        self.stats.allocations = wrapping_inc(self.stats.allocations);
        if self.pool.len() > 0 {
            let mut held: Vec<T> = Vec::new();
            std::mem::swap(&mut held, &mut self.pool);
            let obj = held.remove(0);
            self.pool = held;
            let obj = (self.reset)(obj);
            self.stats.cache_hits = wrapping_inc(self.stats.cache_hits);
            self.stats.pool_size = wrapping_dec(self.stats.pool_size);
            obj
        } else {
            let obj = (self.factory)();
            self.stats.cache_misses = wrapping_inc(self.stats.cache_misses);
            obj
        }
    }

    /// Gives an object back: it is kept if the pool has room, else dropped.
    pub fn put(&mut self, object: T)
        ensures
            final(self).capacity() == old(self).capacity(),
            final(self).maker() == old(self).maker(),
            final(self).cleaner() == old(self).cleaner(),
            final(self).counters().deallocations == inc(old(self).counters().deallocations),
            final(self).counters().allocations == old(self).counters().allocations,
            final(self).counters().cache_hits == old(self).counters().cache_hits,
            final(self).counters().cache_misses == old(self).counters().cache_misses,
            if old(self).held().len() < old(self).capacity() {
                &&& final(self).held() == old(self).held().push(object)
                &&& final(self).counters().pool_size == final(self).held().len()
                &&& final(self).counters().peak_pool_size == (if final(self).held().len() > old(self).counters().peak_pool_size {
                    final(self).held().len() as usize
                } else {
                    old(self).counters().peak_pool_size
                })
            } else {
                &&& final(self).held() == old(self).held()
                &&& final(self).counters().pool_size == old(self).counters().pool_size
                &&& final(self).counters().peak_pool_size == old(self).counters().peak_pool_size
            },
    {
        proof {
            use_type_invariant(&*self);
        }
        self.stats.deallocations = wrapping_inc(self.stats.deallocations);
        if self.pool.len() < self.max_size {
            let mut held: Vec<T> = Vec::new();
            std::mem::swap(&mut held, &mut self.pool);
            held.push(object);
            let n = held.len();
            self.pool = held;
            self.stats.pool_size = n;
            if n > self.stats.peak_pool_size {
                self.stats.peak_pool_size = n;
            }
        }
    }

    /// The counters.
    pub fn stats(&self) -> (s: PoolStatsSnapshot)
        ensures
            s == self.counters(),
    {
        self.stats.snapshot()
    }

    /// Drops every held object; only the size counter is reset.
    pub fn clear(&mut self)
        ensures
            final(self).held() == Seq::<T>::empty(),
            final(self).capacity() == old(self).capacity(),
            final(self).maker() == old(self).maker(),
            final(self).cleaner() == old(self).cleaner(),
            final(self).counters() == (PoolStats { pool_size: 0, ..old(self).counters() }),
    {
        proof {
            use_type_invariant(&*self);
        }
        self.pool = Vec::new();
        self.stats.pool_size = 0;
    }

    /// Makes up to `count` new objects (no more than the capacity) and adds
    /// them while the pool has room; the size and peak counters become the
    /// pool's size.
    pub fn warm_up(&mut self, count: usize)
        ensures
            final(self).held().len() == (if old(self).held().len() + (if count < old(self).capacity() { count } else { old(self).capacity() }) <= old(self).capacity() {
                old(self).held().len() + (if count < old(self).capacity() { count } else { old(self).capacity() })
            } else {
                old(self).capacity() as int
            }),
            final(self).held().subrange(0, old(self).held().len() as int) == old(self).held(),
            forall|i: int| old(self).held().len() <= i < final(self).held().len() ==>
                call_ensures(old(self).maker(), (), #[trigger] final(self).held()[i]),
            final(self).capacity() == old(self).capacity(),
            final(self).maker() == old(self).maker(),
            final(self).cleaner() == old(self).cleaner(),
            final(self).counters() == (PoolStats {
                pool_size: final(self).held().len() as usize,
                peak_pool_size: final(self).held().len() as usize,
                ..old(self).counters()
            }),
    {
        proof {
            use_type_invariant(&*self);
        }
        let target = if count < self.max_size { count } else { self.max_size };
        let ghost start = self.pool@;
        let mut pool: Vec<T> = Vec::new();
        std::mem::swap(&mut pool, &mut self.pool);
        proof {
            assert(pool@.subrange(0, start.len() as int) =~= start);
        }
        let mut made: usize = 0;
        while made < target && pool.len() < self.max_size
            invariant
                call_requires(self.factory, ()),
                pool@.len() <= self.max_size,
                target <= self.max_size,
                pool@.len() == start.len() + made,
                made <= target,
                pool@.subrange(0, start.len() as int) == start,
                start.len() <= pool@.len(),
                forall|i: int| start.len() <= i < pool@.len() ==> call_ensures(self.factory, (), #[trigger] pool@[i]),
            decreases target - made,
        {
            let obj = (self.factory)();
            pool.push(obj);
            made = made + 1;
            proof {
                assert(pool@.subrange(0, start.len() as int) =~= start);
            }
        }
        let n = pool.len();
        self.pool = pool;
        self.stats.pool_size = n;
        self.stats.peak_pool_size = n;
    }
}

impl PoolStats {
    /// All counters zero.
    pub open spec fn new_spec() -> PoolStats {
        PoolStats { allocations: 0, deallocations: 0, cache_hits: 0, cache_misses: 0, pool_size: 0, peak_pool_size: 0 }
    }
}

} // verus!
