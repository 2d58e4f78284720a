//! Bounded first-in-first-out ring queue and a key-value registry where the
//! latest entry for a key shadows older ones.

use vstd::prelude::*;
use vstd::std_specs::cmp::PartialEqSpec;

verus! {

/// The smallest power of two that is at least `n` (1 for 0).
pub open spec fn is_pow2(n: nat) -> bool
    decreases n,
{
    if n == 1 {
        true
    } else if n == 0 || n % 2 == 1 {
        false
    } else {
        is_pow2(n / 2)
    }
}

/// The smallest power of two at least `n`; `None` when it does not fit a `usize`.
fn next_power_of_two(n: usize) -> (p: Option<usize>)
    ensures
        p matches Some(x) ==> x >= n && x >= 1 && is_pow2(x as nat) && (x == 1 || x / 2 < n),
        p is None ==> n > usize::MAX / 2 + 1,
{
    let mut p: usize = 1;
    while p < n
        invariant
            p >= 1,
            is_pow2(p as nat),
            p == 1 || p / 2 < n,
        decreases usize::MAX - p,
    {
        if p > usize::MAX / 2 {
            return None;
        }
        proof {
            assert((2 * p) / 2 == p);
            assert((2 * p) % 2 == 0);
        }
        p = p * 2;
    }
    Some(p)
}

/// A bounded first-in-first-out queue over a ring of slots; its capacity
/// is a power of two.
pub struct MpmcQueue<T> {
    slots: Vec<Option<T>>,
    capacity: usize,
    head: usize,
    count: usize,
    items: Ghost<Seq<T>>,
}

impl<T> MpmcQueue<T> {
    /// The queued items, oldest first.
    pub closed spec fn view(&self) -> Seq<T> {
        self.items@
    }

    /// How many items the queue holds at most.
    pub closed spec fn cap(&self) -> nat {
        self.capacity as nat
    }

    /// The ring holds the items from `head` on, wrapping around, and the
    /// other slots are empty.
    pub closed spec fn wf(&self) -> bool {
        &&& self.slots@.len() == self.capacity
        &&& self.capacity >= 1
        &&& self.head < self.capacity
        &&& self.count <= self.capacity
        &&& self.items@.len() == self.count
        &&& forall|i: int| 0 <= i < self.count ==> #[trigger] self.slots@[(self.head + i) % (self.capacity as int)]
            == Some(self.items@[i])
    }

    /// An empty queue whose capacity is `capacity` rounded up to a power of two.
    pub fn new(capacity: usize) -> (q: MpmcQueue<T>)
        requires
            capacity <= usize::MAX / 2 + 1,
        ensures
            q.wf(),
            q.view() == Seq::<T>::empty(),
            q.cap() >= capacity,
            q.cap() >= 1,
            is_pow2(q.cap()),
            q.cap() == 1 || q.cap() / 2 < capacity,
    {
        let cap = match next_power_of_two(capacity) {
            Some(c) => c,
            None => 1,
        };
        let mut slots: Vec<Option<T>> = Vec::new();
        let mut i: usize = 0;
        while i < cap
            invariant
                i <= cap,
                slots@.len() == i,
            decreases cap - i,
        {
            slots.push(None);
            i = i + 1;
        }
        MpmcQueue { slots, capacity: cap, head: 0, count: 0, items: Ghost(Seq::empty()) }
    }

    /// Appends `item` unless the queue is full, in which case it is handed back.
    pub fn try_enqueue(&mut self, item: T) -> (r: Result<(), T>)
        requires
            old(self).wf(),
        ensures
            final(self).wf(),
            final(self).cap() == old(self).cap(),
            old(self).view().len() < old(self).cap() ==> r is Ok && final(self).view() == old(self).view().push(item),
            old(self).view().len() >= old(self).cap() ==> r == Err::<(), T>(item) && final(self).view() == old(self).view(),
    {
        if self.count >= self.capacity {
            return Err(item);
        }
        let room = self.capacity - self.count;
        let pos = if self.head < room { self.head + self.count } else { self.head - room };
        proof {
            let c = self.capacity as int;
            if self.head < room {
                vstd::arithmetic::div_mod::lemma_small_mod((self.head + self.count) as nat, c as nat);
            } else {
                vstd::arithmetic::div_mod::lemma_small_mod((self.head - room) as nat, c as nat);
                vstd::arithmetic::div_mod::lemma_mod_add_multiples_vanish(self.head - room, c);
            }
            assert(pos == (self.head + self.count) % c);
        }
        let ghost old_items = self.items@;
        let mut slots: Vec<Option<T>> = Vec::new();
        std::mem::swap(&mut slots, &mut self.slots);
        slots.set(pos, Some(item));
        self.slots = slots;
        self.count = self.count + 1;
        self.items = Ghost(old_items.push(item));
        proof {
            let c = self.capacity as int;
            assert forall|i: int| 0 <= i < self.count implies #[trigger] self.slots@[(self.head + i) % c]
                == Some(self.items@[i]) by {
                if i < self.count - 1 {
                    assert((self.head + i) % c != pos) by {
                        assert(0 <= i < self.count - 1 < c);
                        if (self.head + i) % c == pos as int {
                            lemma_mod_injective(self.head as int, i, (self.count - 1) as int, c);
                        }
                    }
                    assert(old(self).slots@[(self.head + i) % c] == Some(old_items[i]));
                }
            }
        }
        Ok(())
    }

    /// Takes the oldest item, if any.
    pub fn try_dequeue(&mut self) -> (r: Option<T>)
        requires
            old(self).wf(),
        ensures
            final(self).wf(),
            final(self).cap() == old(self).cap(),
            old(self).view().len() == 0 ==> r is None && final(self).view() == old(self).view(),
            old(self).view().len() > 0 ==> r == Some(old(self).view()[0]) && final(self).view() == old(self).view().drop_first(),
    {
        if self.count == 0 {
            return None;
        }
        let pos = self.head;
        let ghost old_items = self.items@;
        proof {
            assert(self.slots@[(self.head + 0) % (self.capacity as int)] == Some(old_items[0]));
            assert((self.head + 0) % (self.capacity as int) == self.head as int) by {
                vstd::arithmetic::div_mod::lemma_small_mod(self.head as nat, self.capacity as nat);
            }
        }
        let mut slots: Vec<Option<T>> = Vec::new();
        std::mem::swap(&mut slots, &mut self.slots);
        let mut taken: Option<T> = None;
        std::mem::swap(&mut taken, &mut slots[pos]);
        self.slots = slots;
        self.head = if pos + 1 == self.capacity { 0 } else { pos + 1 };
        self.count = self.count - 1;
        self.items = Ghost(old_items.drop_first());
        proof {
            let c = self.capacity as int;
            assert forall|i: int| 0 <= i < self.count implies #[trigger] self.slots@[(self.head + i) % c]
                == Some(self.items@[i]) by {
                assert((self.head + i) % c == (pos + (i + 1)) % c) by {
                    if pos + 1 == c {
                        vstd::arithmetic::div_mod::lemma_mod_add_multiples_vanish(i, c);
                        assert(pos + (i + 1) == i + c);
                    }
                }
                assert((pos + (i + 1)) % c != pos) by {
                    if (pos + (i + 1)) % c == pos as int {
                        lemma_mod_injective(pos as int, 0, i + 1, c);
                        vstd::arithmetic::div_mod::lemma_small_mod(pos as nat, c as nat);
                    }
                }
                assert(old(self).slots@[(pos + (i + 1)) % c] == Some(old_items[i + 1]));
            }
        }
        taken
    }

    /// The number of queued items.
    pub fn len(&self) -> (n: usize)
        requires
            self.wf(),
        ensures
            n == self.view().len(),
    {
        self.count
    }

    /// Whether nothing is queued.
    pub fn is_empty(&self) -> (r: bool)
        requires
            self.wf(),
        ensures
            r == (self.view().len() == 0),
    {
        self.count == 0
    }
}

/// The successful enqueues less the successful dequeues in a run of
/// operations (`true` for an enqueue, `false` for a dequeue).
pub open spec fn net_count(ops: Seq<bool>) -> int
    decreases ops.len(),
{
    if ops.len() == 0 {
        0
    } else {
        net_count(ops.drop_last()) + if ops.last() { 1int } else { -1int }
    }
}

/// `b` follows `a` by a successful operation: an enqueue puts one item last,
/// a dequeue takes the first one off.
pub open spec fn queue_step<T>(a: Seq<T>, b: Seq<T>, enqueue: bool) -> bool {
    if enqueue {
        b.len() == a.len() + 1 && b.drop_last() == a
    } else {
        a.len() > 0 && b == a.drop_first()
    }
}

/// After a run of successful enqueues and dequeues, the queue holds as many
/// items as it held plus the enqueues less the dequeues.
pub proof fn lemma_count_after_run<T>(views: Seq<Seq<T>>, ops: Seq<bool>)
    requires
        views.len() == ops.len() + 1,
        forall|k: int| 0 <= k < ops.len() ==> #[trigger] queue_step(views[k], views[k + 1], ops[k]),
    ensures
        views.last().len() == views[0].len() + net_count(ops),
    decreases ops.len(),
{
    if ops.len() > 0 {
        let n = ops.len() - 1;
        assert forall|k: int| 0 <= k < ops.drop_last().len() implies #[trigger] queue_step(views.drop_last()[k], views.drop_last()[k + 1], ops.drop_last()[k]) by {
            assert(queue_step(views[k], views[k + 1], ops[k]));
        }
        lemma_count_after_run(views.drop_last(), ops.drop_last());
        assert(queue_step(views[n], views[n + 1], ops[n]));
    }
}

/// Two offsets below `c` from one base land on different ring positions.
pub(crate) proof fn lemma_mod_injective(base: int, i: int, j: int, c: int)
    requires
        c > 0,
        base >= 0,
        0 <= i < j < c,
    ensures
        (base + i) % c != (base + j) % c,
{
    if (base + i) % c == (base + j) % c {
        vstd::arithmetic::div_mod::lemma_fundamental_div_mod(base + i, c);
        vstd::arithmetic::div_mod::lemma_fundamental_div_mod(base + j, c);
        let qi = (base + i) / c;
        let qj = (base + j) / c;
        assert(c * (qj - qi) == j - i) by (nonlinear_arith)
            requires
                base + i == c * qi + (base + i) % c,
                base + j == c * qj + (base + j) % c,
                (base + i) % c == (base + j) % c,
        ;
        assert(false) by (nonlinear_arith)
            requires
                c * (qj - qi) == j - i,
                0 < j - i < c,
        ;
    }
}

/// The position of the newest entry whose key equals `key`, if any.
pub open spec fn newest_with_key<K: PartialEq, V>(entries: Seq<(K, V)>, key: K) -> Option<int>
    decreases entries.len(),
{
    if entries.len() == 0 {
        None
    } else if entries.last().0.eq_spec(&key) {
        Some(entries.len() - 1)
    } else {
        newest_with_key(entries.drop_last(), key)
    }
}

proof fn lemma_newest_after_update<K: PartialEq, V>(s: Seq<(K, V)>, key: K, i: int, e: (K, V))
    requires
        newest_with_key(s, key) == Some(i),
        e.0.eq_spec(&key),
    ensures
        newest_with_key(s.update(i, e), key) == Some(i),
    decreases s.len(),
{
    lemma_newest_index_in_range(s, key);
    if i == s.len() - 1 {
        assert(s.update(i, e).last() == e);
    } else {
        assert(!s.last().0.eq_spec(&key));
        assert(s.update(i, e).last() == s.last());
        assert(s.update(i, e).drop_last() =~= s.drop_last().update(i, e));
        lemma_newest_after_update(s.drop_last(), key, i, e);
    }
}

/// What an insertion puts in is what a lookup of the same key finds next,
/// and an existing key is updated in place, so the number of entries grows
/// only for a new key (for a key equal to itself).
pub proof fn lemma_insert_then_get<K: PartialEq, V>(before: Seq<(K, V)>, key: K, value: V)
    requires
        key.eq_spec(&key),
    ensures
        ({
            let after = match newest_with_key(before, key) {
                Some(i) => before.update(i, (key, value)),
                None => before.push((key, value)),
            };
            &&& newest_with_key(after, key) matches Some(j) && after[j].1 == value
            &&& after.len() == before.len() + (if newest_with_key(before, key) is Some { 0int } else { 1int })
        }),
{
    match newest_with_key(before, key) {
        Some(i) => {
            lemma_newest_index_in_range(before, key);
            lemma_newest_after_update(before, key, i, (key, value));
        },
        None => {
            assert(before.push((key, value)).last() == (key, value));
        },
    }
}

proof fn lemma_newest_index_in_range<K: PartialEq, V>(s: Seq<(K, V)>, key: K)
    ensures
        newest_with_key(s, key) matches Some(i) ==> 0 <= i < s.len(),
    decreases s.len(),
{
    if s.len() > 0 {
        lemma_newest_index_in_range(s.drop_last(), key);
    }
}

/// A key-value registry: an insertion updates the entry for its key or adds
/// one, a lookup finds the entry for its key, and a removal takes it away.
pub struct LockFreeRegistry<K, V> {
    entries: Vec<(K, V)>,
    num_buckets: usize,
}

impl<K: PartialEq, V> LockFreeRegistry<K, V> {
    /// The entries, oldest first.
    pub closed spec fn view(&self) -> Seq<(K, V)> {
        self.entries@
    }

    /// An empty registry; `num_buckets` is rounded up to a power of two
    /// and only records the intended spread.
    pub fn new(num_buckets: usize) -> (r: LockFreeRegistry<K, V>)
        requires
            num_buckets <= usize::MAX / 2 + 1,
        ensures
            r.view() == Seq::<(K, V)>::empty(),
    {
        let n = match next_power_of_two(num_buckets) {
            Some(p) => p,
            None => 1,
        };
        LockFreeRegistry { entries: Vec::new(), num_buckets: n }
    }

    /// Inserts or updates: an entry for `key` gets the new value (and the
    /// new key) in its place and its old value is returned; otherwise the
    /// entry is added last.
    pub fn insert(&mut self, key: K, value: V) -> (r: Option<V>)
        ensures
            K::obeys_eq_spec() ==> match newest_with_key(old(self).view(), key) {
                Some(i) => r == Some(old(self).view()[i].1) && final(self).view() == old(self).view().update(i, (key, value)),
                None => r is None && final(self).view() == old(self).view().push((key, value)),
            },
            !K::obeys_eq_spec() ==> final(self).view().len() <= old(self).view().len() + 1,
    {
        let mut i: usize = self.entries.len();
        proof {
            assert(self.entries@.subrange(0, i as int) =~= self.entries@);
        }
        while i > 0
            invariant
                i <= self.entries@.len(),
                *self == *old(self),
                K::obeys_eq_spec() ==> newest_with_key(self.entries@, key)
                    == newest_with_key(self.entries@.subrange(0, i as int), key),
            decreases i,
        {
            let ghost pre = self.entries@.subrange(0, i as int);
            if self.entries[i - 1].0 == key {
                proof {
                    assert(pre.last() == self.entries@[i - 1]);
                }
                let (_, v) = self.entries.remove(i - 1);
                self.entries.insert(i - 1, (key, value));
                proof {
                    assert(self.entries@ =~= old(self).entries@.update(i - 1, (key, value)));
                }
                return Some(v);
            }
            proof {
                assert(pre.drop_last() =~= self.entries@.subrange(0, i - 1));
            }
            i = i - 1;
        }
        self.entries.push((key, value));
        None
    }

    /// The value of the newest entry for `key`.
    pub fn get(&self, key: &K) -> (r: Option<&V>)
        ensures
            K::obeys_eq_spec() ==> match newest_with_key(self.view(), *key) {
                Some(i) => r == Some(&self.view()[i].1),
                None => r is None,
            },
    {
        let mut i: usize = self.entries.len();
        proof {
            assert(self.entries@.subrange(0, i as int) =~= self.entries@);
        }
        while i > 0
            invariant
                i <= self.entries@.len(),
                K::obeys_eq_spec() ==> newest_with_key(self.entries@, *key)
                    == newest_with_key(self.entries@.subrange(0, i as int), *key),
            decreases i,
        {
            let ghost pre = self.entries@.subrange(0, i as int);
            if self.entries[i - 1].0 == *key {
                proof {
                    assert(pre.last() == self.entries@[i - 1]);
                }
                return Some(&self.entries[i - 1].1);
            }
            proof {
                assert(pre.drop_last() =~= self.entries@.subrange(0, i - 1));
            }
            i = i - 1;
        }
        None
    }

    /// Removes the newest entry for `key` and returns its value.
    pub fn remove(&mut self, key: &K) -> (r: Option<V>)
        ensures
            K::obeys_eq_spec() ==> match newest_with_key(old(self).view(), *key) {
                Some(i) => r == Some(old(self).view()[i].1) && final(self).view() == old(self).view().remove(i),
                None => r is None && final(self).view() == old(self).view(),
            },
    {
        let mut i: usize = self.entries.len();
        proof {
            assert(self.entries@.subrange(0, i as int) =~= self.entries@);
        }
        while i > 0
            invariant
                i <= self.entries@.len(),
                *self == *old(self),
                K::obeys_eq_spec() ==> newest_with_key(self.entries@, *key)
                    == newest_with_key(self.entries@.subrange(0, i as int), *key),
            decreases i,
        {
            let ghost pre = self.entries@.subrange(0, i as int);
            if self.entries[i - 1].0 == *key {
                proof {
                    assert(pre.last() == self.entries@[i - 1]);
                }
                let (_, v) = self.entries.remove(i - 1);
                return Some(v);
            }
            proof {
                assert(pre.drop_last() =~= self.entries@.subrange(0, i - 1));
            }
            i = i - 1;
        }
        None
    }

    /// The number of entries.
    pub fn len(&self) -> (n: usize)
        ensures
            n == self.view().len(),
    {
        self.entries.len()
    }
}

} // verus!
