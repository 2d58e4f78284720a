//! A hierarchical timer wheel for message expiry: three levels of 256 slots,
//! 10 ms per slot on the first level, 2.56 s on the second and 655.36 s on
//! the third. Messages are filed by their expiry; each tick empties the
//! next first-level slot and, once per turn, cascades a second-level slot.

use vstd::prelude::*;
use std::sync::Arc;
use vstd::multiset::Multiset;
use crate::clock::now_millis;
use crate::message::WireMessage;

verus! {

/// Slots per level.
pub const WHEEL_SIZE: u64 = 256;

/// Milliseconds per first-level slot.
pub const TIMER_RESOLUTION_MS: u64 = 10;

/// A filed message with its expiry and id.
#[derive(Debug)]
pub struct TimerEntry {
    pub expire_at: u64,
    pub message: Arc<WireMessage>,
    pub entry_id: u64,
}

/// The entries held by a run of slots.
pub open spec fn slot_sum(s: Seq<Vec<TimerEntry>>) -> nat
    decreases s.len(),
{
    if s.len() == 0 {
        0
    } else {
        slot_sum(s.drop_last()) + s.last()@.len()
    }
}

/// The entries held by a run of levels.
pub open spec fn level_sum(w: Seq<Vec<Vec<TimerEntry>>>) -> nat
    decreases w.len(),
{
    if w.len() == 0 {
        0
    } else {
        level_sum(w.drop_last()) + slot_sum(w.last()@)
    }
}

proof fn lemma_slot_sum_update(s: Seq<Vec<TimerEntry>>, i: int, v: Vec<TimerEntry>)
    requires
        0 <= i < s.len(),
    ensures
        slot_sum(s.update(i, v)) == slot_sum(s) - s[i]@.len() + v@.len(),
    decreases s.len(),
{
    if i == s.len() - 1 {
        assert(s.update(i, v).drop_last() =~= s.drop_last());
    } else {
        lemma_slot_sum_update(s.drop_last(), i, v);
        assert(s.update(i, v).drop_last() =~= s.drop_last().update(i, v));
    }
}

proof fn lemma_level_sum_update(w: Seq<Vec<Vec<TimerEntry>>>, l: int, v: Vec<Vec<TimerEntry>>)
    requires
        0 <= l < w.len(),
    ensures
        level_sum(w.update(l, v)) == level_sum(w) - slot_sum(w[l]@) + slot_sum(v@),
    decreases w.len(),
{
    if l == w.len() - 1 {
        assert(w.update(l, v).drop_last() =~= w.drop_last());
    } else {
        lemma_level_sum_update(w.drop_last(), l, v);
        assert(w.update(l, v).drop_last() =~= w.drop_last().update(l, v));
    }
}

/// Each entry is filed under its message's expiry.
pub open spec fn entries_ok(v: Seq<TimerEntry>) -> bool {
    forall|i: int| 0 <= i < v.len() ==> #[trigger] v[i].expire_at == v[i].message.expire_at
}

/// A message is due no sooner than one resolution step after `now`.
pub open spec fn not_due(x: Arc<WireMessage>, now: u64) -> bool {
    x.expire_at >= now + TIMER_RESOLUTION_MS
}

/// The messages of a run of entries.
pub open spec fn entry_msgs(v: Seq<TimerEntry>) -> Multiset<Arc<WireMessage>> {
    v.map_values(|e: TimerEntry| e.message).to_multiset()
}

/// The messages held by a run of slots.
pub open spec fn slot_msgs(s: Seq<Vec<TimerEntry>>) -> Multiset<Arc<WireMessage>>
    decreases s.len(),
{
    if s.len() == 0 {
        Multiset::empty()
    } else {
        slot_msgs(s.drop_last()).add(entry_msgs(s.last()@))
    }
}

/// The messages held by a run of levels.
pub open spec fn level_msgs(w: Seq<Vec<Vec<TimerEntry>>>) -> Multiset<Arc<WireMessage>>
    decreases w.len(),
{
    if w.len() == 0 {
        Multiset::empty()
    } else {
        level_msgs(w.drop_last()).add(slot_msgs(w.last()@))
    }
}

proof fn lemma_slot_msgs_update(s: Seq<Vec<TimerEntry>>, i: int, v: Vec<TimerEntry>)
    requires
        0 <= i < s.len(),
    ensures
        slot_msgs(s.update(i, v)).add(entry_msgs(s[i]@)) =~= slot_msgs(s).add(entry_msgs(v@)),
    decreases s.len(),
{
    broadcast use vstd::multiset::group_multiset_axioms;
    let t = s.update(i, v);
    assert(t.last() == if i == s.len() - 1 { v } else { s.last() });
    if i == s.len() - 1 {
        assert(t.drop_last() =~= s.drop_last());
    } else {
        lemma_slot_msgs_update(s.drop_last(), i, v);
        assert(t.drop_last() =~= s.drop_last().update(i, v));
        assert(s.drop_last()[i] == s[i]);
    }
    assert(slot_msgs(t) == slot_msgs(t.drop_last()).add(entry_msgs(t.last()@)));
    assert(slot_msgs(s) == slot_msgs(s.drop_last()).add(entry_msgs(s.last()@)));
    assert forall|x: Arc<WireMessage>| #[trigger] slot_msgs(t).add(entry_msgs(s[i]@)).count(x) == slot_msgs(s).add(entry_msgs(v@)).count(x) by {
        if i != s.len() - 1 {
            assert(slot_msgs(t.drop_last()).add(entry_msgs(s[i]@)).count(x) == slot_msgs(s.drop_last()).add(entry_msgs(v@)).count(x));
        }
    }
}

proof fn lemma_level_msgs_update(w: Seq<Vec<Vec<TimerEntry>>>, l: int, v: Vec<Vec<TimerEntry>>)
    requires
        0 <= l < w.len(),
    ensures
        level_msgs(w.update(l, v)).add(slot_msgs(w[l]@)) =~= level_msgs(w).add(slot_msgs(v@)),
    decreases w.len(),
{
    broadcast use vstd::multiset::group_multiset_axioms;
    let t = w.update(l, v);
    assert(t.last() == if l == w.len() - 1 { v } else { w.last() });
    if l == w.len() - 1 {
        assert(t.drop_last() =~= w.drop_last());
    } else {
        lemma_level_msgs_update(w.drop_last(), l, v);
        assert(t.drop_last() =~= w.drop_last().update(l, v));
        assert(w.drop_last()[l] == w[l]);
    }
    assert(level_msgs(t) == level_msgs(t.drop_last()).add(slot_msgs(t.last()@)));
    assert(level_msgs(w) == level_msgs(w.drop_last()).add(slot_msgs(w.last()@)));
    assert forall|x: Arc<WireMessage>| #[trigger] level_msgs(t).add(slot_msgs(w[l]@)).count(x) == level_msgs(w).add(slot_msgs(v@)).count(x) by {
        if l != w.len() - 1 {
            assert(level_msgs(t.drop_last()).add(slot_msgs(w[l]@)).count(x) == level_msgs(w.drop_last()).add(slot_msgs(v@)).count(x));
        }
    }
}

/// Appending an entry adds its message.
proof fn lemma_entry_msgs_push(v: Seq<TimerEntry>, e: TimerEntry)
    ensures
        entry_msgs(v.push(e)) =~= entry_msgs(v).insert(e.message),
{
    broadcast use vstd::seq_lib::group_to_multiset_ensures;
    assert(v.push(e).map_values(|e: TimerEntry| e.message) =~= v.map_values(|e: TimerEntry| e.message).push(e.message));
}

/// Taking the first entry off takes its message off.
proof fn lemma_entry_msgs_first(v: Seq<TimerEntry>)
    requires
        v.len() > 0,
    ensures
        entry_msgs(v) =~= entry_msgs(v.remove(0)).insert(v[0].message),
{
    broadcast use {vstd::seq_lib::group_to_multiset_ensures, vstd::multiset::group_multiset_axioms};
    let m = v.map_values(|e: TimerEntry| e.message);
    assert(v.remove(0).map_values(|e: TimerEntry| e.message) =~= m.remove(0));
    assert(m.remove(0).to_multiset() =~= m.to_multiset().remove(m[0]));
    assert(m.contains(m[0]));
}

/// The level and slot a message expiring at `expire_at` is filed in at
/// `now`, the levels standing at positions `p0`, `p1`, `p2`: the first level
/// for less than 2.56 s ahead, the second for less than 655.36 s, the third
/// beyond; the slot lies that many slots past the level's position.
pub open spec fn wheel_position(p0: u64, p1: u64, p2: u64, now: u64, expire_at: u64) -> (int, int) {
    let d = expire_at - now;
    if d < 2560 {
        (0, (p0 + d / 10) % 256)
    } else if d < 655_360 {
        (1, (p1 + d / 2560) % 256)
    } else {
        (2, (p2 + d / 655_360) % 256)
    }
}

/// Why a message is not filed.
pub open spec fn insert_refusal(expire_at: u64, now: u64) -> Option<&'static str> {
    if expire_at == 0 {
        Some("Message has no TTL")
    } else if expire_at <= now {
        Some("Message already expired")
    } else {
        None
    }
}

/// The timer wheel.
#[derive(Debug)]
pub struct TimerWheel {
    current_time: u64,
    wheels: Vec<Vec<Vec<TimerEntry>>>,
    pos0: u64,
    pos1: u64,
    pos2: u64,
    next_entry_id: u64,
    inserted: u64,
    expired: u64,
    cascaded: u64,
}

/// `(a + n) mod 256` computed without overflow.
fn slot_after(pos: u64, n: u64) -> (r: usize)
    ensures
        r == (pos + n) % 256,
        r < 256,
{
    ((pos % 256 + n % 256) % 256) as usize
}

impl TimerWheel {
    /// Three levels of 256 slots.
    pub closed spec fn wf(&self) -> bool {
        &&& self.wheels@.len() == 3
        &&& forall|l: int| 0 <= l < 3 ==> #[trigger] self.wheels@[l]@.len() == 256
        &&& forall|l: int, s: int| 0 <= l < 3 && 0 <= s < 256 ==> entries_ok(#[trigger] self.wheels@[l]@[s]@)
    }

    /// The entries of slot `s` of level `l`, oldest first.
    pub closed spec fn slot(&self, l: int, s: int) -> Seq<TimerEntry> {
        self.wheels@[l]@[s]@
    }

    /// How many entries the wheel holds.
    pub closed spec fn total(&self) -> nat {
        level_sum(self.wheels@)
    }

    /// The messages the wheel holds.
    pub closed spec fn messages(&self) -> Multiset<Arc<WireMessage>> {
        level_msgs(self.wheels@)
    }

    /// The wheel's clock, in milliseconds since the epoch.
    pub closed spec fn now(&self) -> u64 {
        self.current_time
    }

    /// The positions of the three levels (counted without end).
    pub closed spec fn positions(&self) -> (u64, u64, u64) {
        (self.pos0, self.pos1, self.pos2)
    }

    /// The id the next filed message gets.
    pub closed spec fn next_id(&self) -> u64 {
        self.next_entry_id
    }

    /// The counters: filed, expired and cascades.
    pub closed spec fn counters(&self) -> (u64, u64, u64) {
        (self.inserted, self.expired, self.cascaded)
    }

    /// An empty wheel whose clock reads `now`.
    pub fn new_at(now: u64) -> (w: TimerWheel)
        ensures
            w.wf(),
            w.total() == 0,
            w.messages() == Multiset::<Arc<WireMessage>>::empty(),
            w.now() == now,
            w.positions() == (0u64, 0u64, 0u64),
            w.next_id() == 1,
            w.counters() == (0u64, 0u64, 0u64),
    {
        let mut wheels: Vec<Vec<Vec<TimerEntry>>> = Vec::new();
        let mut l: usize = 0;
        while l < 3
            invariant
                l <= 3,
                wheels@.len() == l,
                forall|j: int| 0 <= j < l ==> #[trigger] wheels@[j]@.len() == 256,
                forall|j: int, t: int| 0 <= j < l && 0 <= t < 256 ==> (#[trigger] wheels@[j]@[t])@.len() == 0,
                level_sum(wheels@) == 0,
                level_msgs(wheels@) == Multiset::<Arc<WireMessage>>::empty(),
            decreases 3 - l,
        {
            let mut level: Vec<Vec<TimerEntry>> = Vec::new();
            let mut s: usize = 0;
            while s < 256
                invariant
                    s <= 256,
                    level@.len() == s,
                    forall|t: int| 0 <= t < s ==> (#[trigger] level@[t])@.len() == 0,
                    slot_sum(level@) == 0,
                    slot_msgs(level@) == Multiset::<Arc<WireMessage>>::empty(),
                decreases 256 - s,
            {
                let ghost before = level@;
                level.push(Vec::new());
                proof {
                    broadcast use {vstd::multiset::group_multiset_axioms, vstd::seq_lib::group_to_multiset_ensures};
                    assert(level@.drop_last() =~= before);
                    assert(entry_msgs(level@.last()@).len() == 0);
                    assert(slot_msgs(level@) =~= Multiset::<Arc<WireMessage>>::empty());
                }
                s = s + 1;
            }
            let ghost before = wheels@;
            wheels.push(level);
            proof {
                broadcast use vstd::multiset::group_multiset_axioms;
                assert(wheels@.drop_last() =~= before);
                assert(level_msgs(wheels@) =~= Multiset::<Arc<WireMessage>>::empty());
            }
            l = l + 1;
        }
        TimerWheel {
            current_time: now,
            wheels,
            pos0: 0,
            pos1: 0,
            pos2: 0,
            next_entry_id: 1,
            inserted: 0,
            expired: 0,
            cascaded: 0,
        }
    }

    /// An empty wheel whose clock reads the time now.
    pub fn new() -> (w: TimerWheel)
        ensures
            w.wf(),
            w.total() == 0,
            w.messages() == Multiset::<Arc<WireMessage>>::empty(),
            w.next_id() == 1,
    {
        TimerWheel::new_at(now_millis())
    }

    /// The wheel's clock.
    pub fn current_time(&self) -> (t: u64)
        ensures
            t == self.now(),
    {
        self.current_time
    }

    /// Sets the wheel's clock (the slots are left as they are).
    pub fn set_current_time(&mut self, t: u64)
        ensures
            final(self).now() == t,
            final(self).wf() == old(self).wf(),
            final(self).total() == old(self).total(),
            final(self).positions() == old(self).positions(),
            final(self).next_id() == old(self).next_id(),
            final(self).counters() == old(self).counters(),
            forall|l: int, s: int| #[trigger] final(self).slot(l, s) == old(self).slot(l, s),
    {
        self.current_time = t;
    }

    /// The level and slot for a message expiring at `expire_at` at time
    /// `now`.
    fn calculate_wheel_position(&self, now: u64, expire_at: u64) -> (r: (usize, usize))
        requires
            expire_at >= now,
        ensures
            r.0 as int == wheel_position(self.pos0, self.pos1, self.pos2, now, expire_at).0,
            r.1 as int == wheel_position(self.pos0, self.pos1, self.pos2, now, expire_at).1,
            r.0 < 3,
            r.1 < 256,
    {
        let d = expire_at - now;
        if d < WHEEL_SIZE * TIMER_RESOLUTION_MS {
            (0, slot_after(self.pos0, d / TIMER_RESOLUTION_MS))
        } else if d < WHEEL_SIZE * WHEEL_SIZE * TIMER_RESOLUTION_MS {
            (1, slot_after(self.pos1, d / (WHEEL_SIZE * TIMER_RESOLUTION_MS)))
        } else {
            (2, slot_after(self.pos2, d / (WHEEL_SIZE * WHEEL_SIZE * TIMER_RESOLUTION_MS)))
        }
    }

    /// Takes the entries of slot `s` of level `l` out, leaving it empty.
    fn take_slot(&mut self, l: usize, s: usize) -> (r: Vec<TimerEntry>)
        requires
            old(self).wf(),
            l < 3,
            s < 256,
        ensures
            final(self).wf(),
            r@ == old(self).slot(l as int, s as int),
            entries_ok(r@),
            final(self).slot(l as int, s as int) == Seq::<TimerEntry>::empty(),
            forall|l2: int, s2: int| 0 <= l2 < 3 && 0 <= s2 < 256 && (l2, s2) != (l as int, s as int) ==> #[trigger] final(self).slot(l2, s2) == old(self).slot(l2, s2),
            final(self).total() + r@.len() == old(self).total(),
            final(self).messages().add(entry_msgs(r@)) == old(self).messages(),
            final(self).now() == old(self).now(),
            final(self).positions() == old(self).positions(),
            final(self).next_id() == old(self).next_id(),
            final(self).counters() == old(self).counters(),
    {
        let ghost w0 = self.wheels@;
        let mut level = self.wheels.remove(l);
        let slot = level.remove(s);
        let empty: Vec<TimerEntry> = Vec::new();
        level.insert(s, empty);
        proof {
            let e = level@[s as int];
            assert(e@.len() == 0);
            assert(level@ =~= w0[l as int]@.update(s as int, e));
            lemma_slot_sum_update(w0[l as int]@, s as int, e);
            lemma_slot_msgs_update(w0[l as int]@, s as int, e);
            assert(w0[l as int]@[s as int] == slot);
        }
        self.wheels.insert(l, level);
        proof {
            broadcast use {vstd::multiset::group_multiset_axioms, vstd::seq_lib::group_to_multiset_ensures};
            assert(self.wheels@ =~= w0.update(l as int, level));
            lemma_level_sum_update(w0, l as int, level);
            lemma_level_msgs_update(w0, l as int, level);
            let e = level@[s as int];
            assert(entry_msgs(e@).len() == 0);
            let lv = slot_msgs(level@);
            let s0 = slot_msgs(w0[l as int]@);
            assert(w0[l as int]@.update(s as int, e) == level@);
            assert(lv.add(entry_msgs(slot@)) == s0.add(entry_msgs(e@)));
            assert(self.messages().add(s0) == old(self).messages().add(lv));
            assert forall|x: Arc<WireMessage>| #[trigger] self.messages().add(entry_msgs(slot@)).count(x) == old(self).messages().count(x) by {
                assert(entry_msgs(e@).count(x) == 0);
                assert(lv.add(entry_msgs(slot@)).count(x) == s0.add(entry_msgs(e@)).count(x));
                assert(self.messages().add(s0).count(x) == old(self).messages().add(lv).count(x));
            }
            assert(self.messages().add(entry_msgs(slot@)) =~= old(self).messages());
        }
        slot
    }

    /// Appends an entry to slot `s` of level `l`.
    fn push_to_slot(&mut self, l: usize, s: usize, e: TimerEntry)
        requires
            old(self).wf(),
            l < 3,
            s < 256,
            e.expire_at == e.message.expire_at,
        ensures
            final(self).wf(),
            final(self).slot(l as int, s as int) == old(self).slot(l as int, s as int).push(e),
            forall|l2: int, s2: int| 0 <= l2 < 3 && 0 <= s2 < 256 && (l2, s2) != (l as int, s as int) ==> #[trigger] final(self).slot(l2, s2) == old(self).slot(l2, s2),
            final(self).total() == old(self).total() + 1,
            final(self).messages() == old(self).messages().insert(e.message),
            final(self).now() == old(self).now(),
            final(self).positions() == old(self).positions(),
            final(self).next_id() == old(self).next_id(),
            final(self).counters() == old(self).counters(),
    {
        let ghost w0 = self.wheels@;
        let ghost msg = e.message;
        let mut level = self.wheels.remove(l);
        let mut slot = level.remove(s);
        let ghost before = slot@;
        slot.push(e);
        level.insert(s, slot);
        proof {
            assert(level@ =~= w0[l as int]@.update(s as int, slot));
            lemma_slot_sum_update(w0[l as int]@, s as int, slot);
            lemma_slot_msgs_update(w0[l as int]@, s as int, slot);
            lemma_entry_msgs_push(before, e);
            assert(w0[l as int]@[s as int]@ == before);
        }
        self.wheels.insert(l, level);
        proof {
            broadcast use vstd::multiset::group_multiset_axioms;
            assert(self.wheels@ =~= w0.update(l as int, level));
            lemma_level_sum_update(w0, l as int, level);
            lemma_level_msgs_update(w0, l as int, level);
            let lv = slot_msgs(level@);
            let s0 = slot_msgs(w0[l as int]@);
            assert(lv.add(entry_msgs(before)) == s0.add(entry_msgs(slot@)));
            assert(entry_msgs(slot@) == entry_msgs(before).insert(msg));
            assert(self.messages().add(s0) == old(self).messages().add(lv));
            assert forall|x: Arc<WireMessage>| #[trigger] self.messages().count(x) == old(self).messages().insert(msg).count(x) by {
                assert(lv.add(entry_msgs(before)).count(x) == s0.add(entry_msgs(slot@)).count(x));
                assert(self.messages().add(s0).count(x) == old(self).messages().add(lv).count(x));
            }
            assert(self.messages() =~= old(self).messages().insert(msg));
            assert forall|l2: int, s2: int| 0 <= l2 < 3 && 0 <= s2 < 256 implies entries_ok(#[trigger] self.wheels@[l2]@[s2]@) by {
                if l2 == l as int && s2 == s as int {
                    assert(self.wheels@[l2]@[s2]@ == before.push(e));
                    assert(entries_ok(w0[l2]@[s2]@));
                } else if l2 == l as int {
                    assert(self.wheels@[l2]@[s2] == w0[l2]@[s2]);
                } else {
                    assert(self.wheels@[l2] == w0[l2]);
                }
            }
        }
    }

    /// Files a message by its expiry: refused without an expiry or when it
    /// has already expired by the wheel's clock; otherwise it gets the next
    /// id and goes last in the slot `wheel_position` gives.
    pub fn insert(&mut self, message: Arc<WireMessage>) -> (r: Result<u64, &'static str>)
        requires
            old(self).wf(),
        ensures
            final(self).wf(),
            final(self).now() == old(self).now(),
            final(self).positions() == old(self).positions(),
            match insert_refusal(message.expire_at, old(self).now()) {
                Some(e) => {
                    &&& r == Err::<u64, &'static str>(e)
                    &&& final(self).total() == old(self).total()
                    &&& final(self).messages() == old(self).messages()
                    &&& final(self).next_id() == old(self).next_id()
                    &&& final(self).counters() == old(self).counters()
                    &&& forall|l: int, s: int| #[trigger] final(self).slot(l, s) == old(self).slot(l, s)
                },
                None => {
                    let (p0, p1, p2) = old(self).positions();
                    let (l, s) = wheel_position(p0, p1, p2, old(self).now(), message.expire_at);
                    &&& r == Ok::<u64, &'static str>(old(self).next_id())
                    &&& final(self).total() == old(self).total() + 1
                    &&& final(self).messages() == old(self).messages().insert(message)
                    &&& final(self).slot(l, s) == old(self).slot(l, s).push(TimerEntry {
                        expire_at: message.expire_at,
                        message,
                        entry_id: old(self).next_id(),
                    })
                    &&& forall|l2: int, s2: int| 0 <= l2 < 3 && 0 <= s2 < 256 && (l2, s2) != (l, s) ==> #[trigger] final(self).slot(l2, s2) == old(self).slot(l2, s2)
                    &&& final(self).next_id() == vstd::wrapping::u64_specs::wrapping_add(old(self).next_id(), 1)
                    &&& final(self).counters() == (
                        vstd::wrapping::u64_specs::wrapping_add(old(self).counters().0, 1),
                        old(self).counters().1,
                        old(self).counters().2,
                    )
                },
            },
    {
        if message.expire_at == 0 {
            return Err("Message has no TTL");
        }
        let now = self.current_time;
        if message.expire_at <= now {
            return Err("Message already expired");
        }
        let entry_id = self.next_entry_id;
        self.next_entry_id = self.next_entry_id.wrapping_add(1);
        let expire_at = message.expire_at;
        let (level, slot) = self.calculate_wheel_position(now, expire_at);
        self.push_to_slot(level, slot, TimerEntry { expire_at, message, entry_id });
        let ghost mid = *self;
        self.inserted = self.inserted.wrapping_add(1);
        proof {
            let (l, s) = wheel_position(old(self).pos0, old(self).pos1, old(self).pos2, old(self).current_time, expire_at);
            assert(l == level as int && s == slot as int);
            assert(self.total() == old(self).total() + 1);
            assert(self.next_id() == vstd::wrapping::u64_specs::wrapping_add(old(self).next_id(), 1));
            assert(self.slot(l, s) == old(self).slot(l, s).push(TimerEntry {
                expire_at: message.expire_at,
                message,
                entry_id: old(self).next_id(),
            }));
            assert forall|l2: int, s2: int| 0 <= l2 < 3 && 0 <= s2 < 256 && (l2, s2) != (l, s) implies #[trigger] self.slot(l2, s2) == old(self).slot(l2, s2) by {
                assert(self.slot(l2, s2) == mid.slot(l2, s2));
            }
            assert(self.counters() == (
                vstd::wrapping::u64_specs::wrapping_add(old(self).counters().0, 1),
                old(self).counters().1,
                old(self).counters().2,
            ));
        }
        Ok(entry_id)
    }

    /// The counters: messages filed, expired, and cascades done.
    pub fn stats(&self) -> (r: (u64, u64, u64))
        ensures
            r == self.counters(),
    {
        (self.inserted, self.expired, self.cascaded)
    }

    /// How many messages the wheel holds.
    pub fn pending_count(&self) -> (n: usize)
        requires
            self.wf(),
            self.total() <= usize::MAX,
        ensures
            n == self.total(),
    {
        let mut total: usize = 0;
        let mut l: usize = 0;
        while l < 3
            invariant
                self.wf(),
                self.total() <= usize::MAX,
                l <= 3,
                total == level_sum(self.wheels@.subrange(0, l as int)),
            decreases 3 - l,
        {
            let level = &self.wheels[l];
            let mut sum: usize = 0;
            let mut s: usize = 0;
            proof {
                assert(self.wheels@.subrange(0, l + 1).drop_last() =~= self.wheels@.subrange(0, l as int));
                lemma_level_prefix_le(self.wheels@, l + 1);
            }
            while s < level.len()
                invariant
                    level@.len() == 256,
                    s <= level@.len(),
                    sum == slot_sum(level@.subrange(0, s as int)),
                    total + slot_sum(level@) <= usize::MAX,
                    total == level_sum(self.wheels@.subrange(0, l as int)),
                decreases level@.len() - s,
            {
                proof {
                    assert(level@.subrange(0, s + 1).drop_last() =~= level@.subrange(0, s as int));
                    lemma_slot_prefix_le(level@, s + 1);
                }
                sum = sum + level[s].len();
                s = s + 1;
            }
            proof {
                assert(level@.subrange(0, s as int) =~= level@);
            }
            total = total + sum;
            l = l + 1;
        }
        proof {
            assert(self.wheels@.subrange(0, 3) =~= self.wheels@);
        }
        total
    }
}

/// `b` is wheel `a` after its clock was advanced to `now`, returning the
/// messages `r`: nothing happens unless `now` is more than one resolution
/// step past the clock; then the first level moves one slot per 10 ms
/// elapsed (at most one turn), the returned messages were held by the wheel
/// (the wheel holds at most what it held less what is returned), and they
/// are counted as expired. A message due one resolution step or more after
/// `now` is never taken out: the wheel holds it as often as before.
pub open spec fn ticked(a: TimerWheel, b: TimerWheel, now: u64, r: Seq<Arc<WireMessage>>) -> bool {
    &&& forall|x: Arc<WireMessage>| not_due(x, now) ==> #[trigger] b.messages().count(x) == a.messages().count(x)
    &&& if now <= a.now() || now - a.now() <= TIMER_RESOLUTION_MS {
        &&& r.len() == 0
        &&& b.now() == a.now()
        &&& b.total() == a.total()
        &&& b.messages() == a.messages()
        &&& b.positions() == a.positions()
        &&& b.counters() == a.counters()
    } else {
        let ticks = if (now - a.now()) / 10 < 256 { (now - a.now()) / 10 } else { 256 };
        &&& b.now() == now
        &&& b.total() + r.len() <= a.total()
        &&& b.messages().add(r.to_multiset()).subset_of(a.messages())
        &&& b.positions().0 == crate::qos::wrap_add_n(a.positions().0, ticks as nat)
        &&& b.counters().1 == (if r.len() > 0 { crate::qos::wrap_add_n(a.counters().1, r.len()) } else { a.counters().1 })
    }
}

impl TimerWheel {
    /// Moves the first level on by one slot: the entries of the new slot
    /// that have expired (or would land in the same slot again) are
    /// returned, the others are filed anew; after a full turn, the second
    /// level cascades (and the third, when the second's position reads 0).
    fn advance_wheel(&mut self) -> (r: Vec<Arc<WireMessage>>)
        requires
            old(self).wf(),
        ensures
            final(self).wf(),
            final(self).total() + r@.len() <= old(self).total(),
            final(self).messages().add(r@.to_multiset()).subset_of(old(self).messages()),
            forall|x: Arc<WireMessage>| not_due(x, old(self).now())
                ==> #[trigger] final(self).messages().count(x) == old(self).messages().count(x),
            final(self).now() == old(self).now(),
            final(self).positions().0 == vstd::wrapping::u64_specs::wrapping_add(old(self).positions().0, 1),
            final(self).next_id() == old(self).next_id(),
            final(self).counters().0 == old(self).counters().0,
            final(self).counters().1 == old(self).counters().1,
    {
        let old_pos0 = self.pos0;
        self.pos0 = self.pos0.wrapping_add(1);
        let new_pos0 = (old_pos0.wrapping_add(1) % WHEEL_SIZE) as usize;
        let ghost t0 = self.total();
        let ghost m0 = self.messages();
        let mut entries = self.take_slot(0, new_pos0);
        let now = self.current_time;
        let mut expired: Vec<Arc<WireMessage>> = Vec::new();
        proof {
            broadcast use {vstd::multiset::group_multiset_axioms, vstd::seq_lib::group_to_multiset_ensures};
            assert forall|x: Arc<WireMessage>| #[trigger] m0.count(x) == self.messages().count(x) + expired@.to_multiset().count(x) + entry_msgs(entries@).count(x) by {
                assert(self.messages().add(entry_msgs(entries@)).count(x) == m0.count(x));
                assert(expired@.to_multiset().len() == 0);
            }
        }
        while entries.len() > 0
            invariant
                self.wf(),
                forall|x: Arc<WireMessage>| #[trigger] m0.count(x) == self.messages().count(x) + expired@.to_multiset().count(x) + entry_msgs(entries@).count(x),
                forall|x: Arc<WireMessage>| not_due(x, now) ==> #[trigger] expired@.to_multiset().count(x) == 0,
                entries_ok(entries@),
                new_pos0 == self.positions().0 % 256,
                new_pos0 < 256,
                now == self.now(),
                self.total() + expired@.len() + entries@.len() == t0,
                self.now() == old(self).now(),
                self.positions().0 == vstd::wrapping::u64_specs::wrapping_add(old(self).positions().0, 1),
                self.next_id() == old(self).next_id(),
                self.counters() == old(self).counters(),
            decreases entries@.len(),
        {
            let ghost es = entries@;
            let ghost ex = expired@;
            let ghost ms = self.messages();
            let e = entries.remove(0);
            let ghost msg = e.message;
            proof {
                broadcast use {vstd::multiset::group_multiset_axioms, vstd::seq_lib::group_to_multiset_ensures};
                lemma_entry_msgs_first(es);
                assert(es.remove(0) == entries@);
                assert(es[0].message == msg);
                assert(es[0].expire_at == es[0].message.expire_at);
                assert forall|i: int| 0 <= i < entries@.len() implies #[trigger] entries@[i].expire_at == entries@[i].message.expire_at by {
                    assert(entries@[i] == es[i + 1]);
                }
            }
            if e.expire_at <= now {
                expired.push(e.message);
            } else {
                let (level, slot) = self.calculate_wheel_position(now, e.expire_at);
                proof {
                    if not_due(msg, now) {
                        let d = e.expire_at - now;
                        if d < 2560 {
                            let k = d / 10;
                            assert(1 <= k < 256);
                            crate::lockfree::lemma_mod_injective(self.pos0 as int, 0, k, 256);
                            assert(slot as int == (self.pos0 + k) % 256);
                        }
                        assert(!(level == 0 && slot == new_pos0));
                    }
                }
                if level == 0 && slot == new_pos0 {
                    expired.push(e.message);
                } else {
                    self.push_to_slot(level, slot, e);
                }
            }
            proof {
                broadcast use {vstd::multiset::group_multiset_axioms, vstd::seq_lib::group_to_multiset_ensures};
                assert(ex.push(msg).to_multiset() =~= ex.to_multiset().insert(msg));
                assert forall|x: Arc<WireMessage>| #[trigger] m0.count(x) == self.messages().count(x) + expired@.to_multiset().count(x) + entry_msgs(entries@).count(x) by {
                    assert(m0.count(x) == ms.count(x) + ex.to_multiset().count(x) + entry_msgs(es).count(x));
                    assert(entry_msgs(es).count(x) == entry_msgs(entries@).insert(msg).count(x));
                }
                assert forall|x: Arc<WireMessage>| not_due(x, now) implies #[trigger] expired@.to_multiset().count(x) == 0 by {
                    assert(ex.to_multiset().count(x) == 0);
                }
            }
        }
        proof {
            broadcast use {vstd::multiset::group_multiset_axioms, vstd::seq_lib::group_to_multiset_ensures};
            assert(entries@.map_values(|e: TimerEntry| e.message).len() == 0);
            assert(entry_msgs(entries@).len() == 0);
        }
        let ghost m1 = self.messages();
        if new_pos0 == 0 {
            self.cascade_wheel(1);
            if self.pos1 == 0 {
                self.cascade_wheel(2);
            }
        }
        proof {
            broadcast use vstd::multiset::group_multiset_axioms;
            assert forall|x: Arc<WireMessage>| #[trigger] self.messages().add(expired@.to_multiset()).count(x) <= m0.count(x) by {
                assert(self.messages().count(x) <= m1.count(x));
                assert(entry_msgs(entries@).count(x) == 0);
            }
            assert forall|x: Arc<WireMessage>| not_due(x, old(self).now()) implies #[trigger] self.messages().count(x) == m0.count(x) by {
                assert(entry_msgs(entries@).count(x) == 0);
                assert(m0.count(x) == m1.count(x) + expired@.to_multiset().count(x));
                assert(x.expire_at > now);
                assert(self.messages().count(x) == m1.count(x));
            }
        }
        expired
    }

    /// Moves level `level` (the second or third) on by one slot and files
    /// the entries of the new slot anew on the levels their expiry calls
    /// for; expired ones are dropped.
    fn cascade_wheel(&mut self, level: usize)
        requires
            old(self).wf(),
            level == 1 || level == 2,
        ensures
            final(self).wf(),
            final(self).total() <= old(self).total(),
            final(self).messages().subset_of(old(self).messages()),
            forall|x: Arc<WireMessage>| x.expire_at > old(self).now()
                ==> #[trigger] final(self).messages().count(x) == old(self).messages().count(x),
            final(self).now() == old(self).now(),
            final(self).positions().0 == old(self).positions().0,
            level == 1 ==> final(self).positions().1 == vstd::wrapping::u64_specs::wrapping_add(old(self).positions().1, 1)
                && final(self).positions().2 == old(self).positions().2,
            level == 2 ==> final(self).positions().2 == vstd::wrapping::u64_specs::wrapping_add(old(self).positions().2, 1)
                && final(self).positions().1 == old(self).positions().1,
            final(self).next_id() == old(self).next_id(),
            final(self).counters().0 == old(self).counters().0,
            final(self).counters().1 == old(self).counters().1,
            final(self).counters().2 == vstd::wrapping::u64_specs::wrapping_add(old(self).counters().2, 1),
    {
        let old_pos = if level == 1 { self.pos1 } else { self.pos2 };
        if level == 1 {
            self.pos1 = self.pos1.wrapping_add(1);
        } else {
            self.pos2 = self.pos2.wrapping_add(1);
        }
        let new_pos = (old_pos.wrapping_add(1) % WHEEL_SIZE) as usize;
        let ghost t0 = self.total();
        let ghost p = self.positions();
        let ghost m0 = self.messages();
        let mut entries = self.take_slot(level, new_pos);
        let now = self.current_time;
        proof {
            broadcast use vstd::multiset::group_multiset_axioms;
            assert forall|x: Arc<WireMessage>| #[trigger] m0.count(x) >= self.messages().count(x) + entry_msgs(entries@).count(x) by {
                assert(self.messages().add(entry_msgs(entries@)).count(x) == m0.count(x));
            }
        }
        while entries.len() > 0
            invariant
                self.wf(),
                now == self.now(),
                self.total() + entries@.len() <= t0,
                forall|x: Arc<WireMessage>| #[trigger] m0.count(x) >= self.messages().count(x) + entry_msgs(entries@).count(x),
                forall|x: Arc<WireMessage>| x.expire_at > now ==> #[trigger] m0.count(x) == self.messages().count(x) + entry_msgs(entries@).count(x),
                entries_ok(entries@),
                self.now() == old(self).now(),
                self.positions() == p,
                self.next_id() == old(self).next_id(),
                self.counters() == old(self).counters(),
            decreases entries@.len(),
        {
            let ghost es = entries@;
            let ghost ms = self.messages();
            let e = entries.remove(0);
            let ghost msg = e.message;
            proof {
                lemma_entry_msgs_first(es);
                assert(es.remove(0) == entries@);
                assert(es[0].message == msg);
                assert(es[0].expire_at == es[0].message.expire_at);
                assert forall|i: int| 0 <= i < entries@.len() implies #[trigger] entries@[i].expire_at == entries@[i].message.expire_at by {
                    assert(entries@[i] == es[i + 1]);
                }
            }
            if e.expire_at > now {
                let (l, slot) = self.calculate_wheel_position(now, e.expire_at);
                self.push_to_slot(l, slot, e);
            }
            proof {
                broadcast use vstd::multiset::group_multiset_axioms;
                assert forall|x: Arc<WireMessage>| #[trigger] m0.count(x) >= self.messages().count(x) + entry_msgs(entries@).count(x) by {
                    assert(m0.count(x) >= ms.count(x) + entry_msgs(es).count(x));
                    assert(entry_msgs(es).count(x) == entry_msgs(entries@).insert(msg).count(x));
                }
                assert forall|x: Arc<WireMessage>| x.expire_at > now implies #[trigger] m0.count(x) == self.messages().count(x) + entry_msgs(entries@).count(x) by {
                    assert(m0.count(x) == ms.count(x) + entry_msgs(es).count(x));
                    assert(entry_msgs(es).count(x) == entry_msgs(entries@).insert(msg).count(x));
                }
            }
        }
        self.cascaded = self.cascaded.wrapping_add(1);
        proof {
            broadcast use vstd::multiset::group_multiset_axioms;
            assert forall|x: Arc<WireMessage>| #[trigger] self.messages().count(x) <= m0.count(x) by {
                assert(m0.count(x) >= self.messages().count(x) + entry_msgs(entries@).count(x));
            }
            assert(entry_msgs(entries@).len() == 0) by {
                broadcast use vstd::seq_lib::group_to_multiset_ensures;
                assert(entries@.map_values(|e: TimerEntry| e.message).len() == 0);
            }
            assert forall|x: Arc<WireMessage>| x.expire_at > old(self).now() implies #[trigger] self.messages().count(x) == m0.count(x) by {
                assert(m0.count(x) == self.messages().count(x) + entry_msgs(entries@).count(x));
            }
        }
    }

    /// Advances the wheel's clock to `now` and returns the messages that
    /// came due. Nothing happens unless `now` is more than one resolution
    /// step past the wheel's clock; then the first level moves one slot per
    /// 10 ms elapsed (at most one turn). No message is gained: the wheel
    /// holds at most what it held less what is returned.
    pub fn tick_at(&mut self, now: u64) -> (r: Vec<Arc<WireMessage>>)
        requires
            old(self).wf(),
        ensures
            final(self).wf(),
            final(self).next_id() == old(self).next_id(),
            final(self).counters().0 == old(self).counters().0,
            ticked(*old(self), *final(self), now, r@),
    {
        let old_time = self.current_time;
        if now <= old_time || now - old_time <= TIMER_RESOLUTION_MS {
            return Vec::new();
        }
        self.current_time = now;
        let elapsed = now - old_time;
        let ticks: u64 = if elapsed / TIMER_RESOLUTION_MS < WHEEL_SIZE { elapsed / TIMER_RESOLUTION_MS } else { WHEEL_SIZE };
        let mut expired: Vec<Arc<WireMessage>> = Vec::new();
        let ghost t0 = self.total();
        let ghost m0 = self.messages();
        let mut i: u64 = 0;
        proof {
            broadcast use {vstd::multiset::group_multiset_axioms, vstd::seq_lib::group_to_multiset_ensures};
            crate::qos::lemma_wrap_step(old(self).pos0, 0);
            assert(expired@.to_multiset().len() == 0);
        }
        while i < ticks
            invariant
                self.wf(),
                m0 == old(self).messages(),
                forall|x: Arc<WireMessage>| #[trigger] m0.count(x) >= self.messages().count(x) + expired@.to_multiset().count(x),
                i <= ticks,
                ticks <= 256,
                self.now() == now,
                self.total() + expired@.len() <= t0,
                t0 == old(self).total(),
                self.positions().0 == crate::qos::wrap_add_n(old(self).positions().0, i as nat),
                forall|x: Arc<WireMessage>| not_due(x, now) ==> #[trigger] self.messages().count(x) == m0.count(x),
                self.next_id() == old(self).next_id(),
                self.counters().0 == old(self).counters().0,
                self.counters().1 == old(self).counters().1,
            decreases ticks - i,
        {
            let ghost ms = self.messages();
            let mut batch = self.advance_wheel();
            proof {
                crate::qos::lemma_wrap_step(old(self).pos0, i as nat);
            }
            let ghost before = expired@;
            let ghost b0 = batch@;
            while batch.len() > 0
                invariant
                    expired@.len() + batch@.len() == before.len() + b0.len(),
                    forall|x: Arc<WireMessage>| #[trigger] b0.to_multiset().count(x) + before.to_multiset().count(x) == expired@.to_multiset().count(x) + batch@.to_multiset().count(x),
                decreases batch@.len(),
            {
                let ghost bs = batch@;
                let ghost ex = expired@;
                let m = batch.remove(0);
                expired.push(m);
                proof {
                    broadcast use {vstd::multiset::group_multiset_axioms, vstd::seq_lib::group_to_multiset_ensures};
                    assert(bs.remove(0).to_multiset() =~= bs.to_multiset().remove(bs[0]));
                    assert(bs.contains(bs[0]));
                    assert(ex.push(m).to_multiset() =~= ex.to_multiset().insert(m));
                }
            }
            proof {
                broadcast use {vstd::multiset::group_multiset_axioms, vstd::seq_lib::group_to_multiset_ensures};
                assert(batch@.to_multiset().len() == 0);
                assert forall|x: Arc<WireMessage>| #[trigger] m0.count(x) >= self.messages().count(x) + expired@.to_multiset().count(x) by {
                    assert(self.messages().add(b0.to_multiset()).count(x) <= ms.count(x));
                    assert(m0.count(x) >= ms.count(x) + before.to_multiset().count(x));
                    assert(b0.to_multiset().count(x) + before.to_multiset().count(x) == expired@.to_multiset().count(x) + batch@.to_multiset().count(x));
                }
            }
            i = i + 1;
        }
        if expired.len() > 0 {
            proof {
                crate::qos::lemma_wrap_add_len(old(self).expired, expired@.len());
            }
            self.expired = self.expired.wrapping_add(expired.len() as u64);
        }
        proof {
            broadcast use vstd::multiset::group_multiset_axioms;
            assert forall|x: Arc<WireMessage>| #[trigger] self.messages().add(expired@.to_multiset()).count(x) <= m0.count(x) by {
                assert(m0.count(x) >= self.messages().count(x) + expired@.to_multiset().count(x));
            }
        }
        expired
    }

    /// Advances the wheel's clock to the time now (see `tick_at`).
    pub fn tick(&mut self) -> (r: Vec<Arc<WireMessage>>)
        requires
            old(self).wf(),
        ensures
            final(self).wf(),
            exists|now: u64| #[trigger] ticked(*old(self), *final(self), now, r@),
            final(self).total() + r@.len() <= old(self).total(),
            final(self).messages().add(r@.to_multiset()).subset_of(old(self).messages()),
            final(self).next_id() == old(self).next_id(),
    {
        let now = now_millis();
        let r = self.tick_at(now);
        proof {
            assert(ticked(*old(self), *self, now, r@));
            broadcast use vstd::multiset::group_multiset_axioms;
            if r@.len() == 0 {
                broadcast use vstd::seq_lib::group_to_multiset_ensures;
                assert(r@.to_multiset().len() == 0);
                assert(self.messages().add(r@.to_multiset()) =~= self.messages());
            }
        }
        r
    }

    /// Drops every filed message and puts the levels back at position 0;
    /// the clock, ids and counters are kept.
    pub fn clear(&mut self)
        requires
            old(self).wf(),
        ensures
            final(self).wf(),
            final(self).total() == 0,
            final(self).messages() == Multiset::<Arc<WireMessage>>::empty(),
            final(self).positions() == (0u64, 0u64, 0u64),
            final(self).now() == old(self).now(),
            final(self).next_id() == old(self).next_id(),
            final(self).counters() == old(self).counters(),
    {
        let fresh = TimerWheel::new_at(self.current_time);
        self.wheels = fresh.wheels;
        self.pos0 = 0;
        self.pos1 = 0;
        self.pos2 = 0;
    }
}

proof fn lemma_slot_prefix_le(s: Seq<Vec<TimerEntry>>, k: int)
    requires
        0 <= k <= s.len(),
    ensures
        slot_sum(s.subrange(0, k)) <= slot_sum(s),
    decreases s.len() - k,
{
    if k < s.len() {
        lemma_slot_prefix_le(s, k + 1);
        assert(s.subrange(0, k + 1).drop_last() =~= s.subrange(0, k));
    } else {
        assert(s.subrange(0, k) =~= s);
    }
}

proof fn lemma_level_prefix_le(w: Seq<Vec<Vec<TimerEntry>>>, k: int)
    requires
        0 <= k <= w.len(),
    ensures
        level_sum(w.subrange(0, k)) <= level_sum(w),
        k > 0 ==> level_sum(w.subrange(0, k - 1)) + slot_sum(w[k - 1]@) == level_sum(w.subrange(0, k)),
    decreases w.len() - k,
{
    if k > 0 {
        assert(w.subrange(0, k).drop_last() =~= w.subrange(0, k - 1));
    }
    if k < w.len() {
        lemma_level_prefix_le(w, k + 1);
        assert(w.subrange(0, k + 1).drop_last() =~= w.subrange(0, k));
    } else {
        assert(w.subrange(0, k) =~= w);
    }
}

} // verus!
