//! Per-subscriber QoS 0 queues over `crossbeam_queue::ArrayQueue`, their
//! overflow policies, and the registry of queues by subscriber.

use vstd::prelude::*;
use std::sync::Arc;
use crossbeam_queue::ArrayQueue;
use crate::assoc::StrMap;
use crate::message::Message;
use crate::text::{str_to_string, string_push_str};

verus! {

#[verifier::external_type_specification]
#[verifier::external_body]
#[verifier::reject_recursive_types(T)]
pub struct ExArrayQueue<T>(crossbeam_queue::ArrayQueue<T>);

/// The ids of the messages a queue holds, oldest first.
pub uninterp spec fn queued_ids(q: ArrayQueue<Arc<Message>>) -> Seq<u64>;

/// The most messages a queue holds.
pub uninterp spec fn queue_capacity(q: ArrayQueue<Arc<Message>>) -> nat;

/// `ArrayQueue::new`: an empty queue of capacity `cap`. It panics for a
/// zero capacity and when `cap + 1` has no power of two above it in a
/// `usize`, which `requires` rules out.
#[verifier::external_body]
fn array_queue_new(cap: usize) -> (q: ArrayQueue<Arc<Message>>)
    requires
        0 < cap <= usize::MAX / 2,
    ensures
        queued_ids(q) == Seq::<u64>::empty(),
        queue_capacity(q) == cap,
{
    ArrayQueue::new(cap)
}

/// `ArrayQueue::push`: appends the message when the queue has room, and
/// hands it back otherwise.
#[verifier::external_body]
fn array_queue_push(q: &mut ArrayQueue<Arc<Message>>, m: Arc<Message>) -> (r: Result<(), Arc<Message>>)
    ensures
        queue_capacity(*final(q)) == queue_capacity(*old(q)),
        queued_ids(*old(q)).len() < queue_capacity(*old(q)) ==> r is Ok
            && queued_ids(*final(q)) == queued_ids(*old(q)).push(m.id),
        queued_ids(*old(q)).len() >= queue_capacity(*old(q)) ==> (r matches Err(x) && x == m)
            && queued_ids(*final(q)) == queued_ids(*old(q)),
{
    q.push(m)
}

/// `ArrayQueue::pop`: takes the oldest message, if any.
#[verifier::external_body]
fn array_queue_pop(q: &mut ArrayQueue<Arc<Message>>) -> (r: Option<Arc<Message>>)
    ensures
        queue_capacity(*final(q)) == queue_capacity(*old(q)),
        queued_ids(*old(q)).len() == 0 ==> r is None && queued_ids(*final(q)) == queued_ids(*old(q)),
        queued_ids(*old(q)).len() > 0 ==> (r matches Some(m) && m.id == queued_ids(*old(q))[0])
            && queued_ids(*final(q)) == queued_ids(*old(q)).drop_first(),
{
    q.pop()
}

/// `ArrayQueue::len`: the number of messages held.
#[verifier::external_body]
fn array_queue_len(q: &ArrayQueue<Arc<Message>>) -> (n: usize)
    ensures
        n == queued_ids(*q).len(),
{
    q.len()
}

/// Broker errors around queues and subscribers.
#[derive(Debug, Clone)]
pub enum BlipError {
    Disconnected,
    QueueClosed,
    QueueFull,
    InvalidSubscriber,
    Timeout,
    Internal(String),
}

/// The text of a broker error.
pub open spec fn blip_error_text(e: BlipError) -> Seq<char> {
    match e {
        BlipError::Disconnected => "Subscriber is disconnected"@,
        BlipError::QueueClosed => "Queue is closed"@,
        BlipError::QueueFull => "Queue is full"@,
        BlipError::InvalidSubscriber => "Invalid subscriber"@,
        BlipError::Timeout => "Operation timed out"@,
        BlipError::Internal(m) => "Internal error: "@ + m@,
    }
}

impl BlipError {
    /// The error's text.
    pub fn message(&self) -> (s: String)
        ensures
            s@ == blip_error_text(*self),
    {
        match self {
            BlipError::Disconnected => str_to_string("Subscriber is disconnected"),
            BlipError::QueueClosed => str_to_string("Queue is closed"),
            BlipError::QueueFull => str_to_string("Queue is full"),
            BlipError::InvalidSubscriber => str_to_string("Invalid subscriber"),
            BlipError::Timeout => str_to_string("Operation timed out"),
            BlipError::Internal(m) => {
                let mut s = str_to_string("Internal error: ");
                string_push_str(&mut s, m.as_str());
                s
            },
        }
    }
}

/// What a full queue does with a new message.
#[derive(Debug, Clone, Copy, PartialEq, Eq, Structural)]
pub enum OverflowPolicy {
    /// Refuse the new message.
    DropNew,
    /// Drop the oldest message to make room.
    DropOldest,
}

impl Default for OverflowPolicy {
    /// Dropping the oldest message.
    fn default() -> (p: OverflowPolicy)
        ensures
            p == OverflowPolicy::DropOldest,
    {
        OverflowPolicy::DropOldest
    }
}

/// The delivery guarantee a subscriber's queue is made for.
#[derive(Debug, Clone, Copy, PartialEq, Eq, Structural)]
pub enum QoS {
    QoS0,
    QoS1,
}

/// The ids after enqueuing message `id` on a queue of capacity `cap` under
/// `policy`, and whether it was accepted.
pub open spec fn enqueue_outcome(ids: Seq<u64>, cap: nat, policy: OverflowPolicy, id: u64) -> (bool, Seq<u64>) {
    if ids.len() < cap {
        (true, ids.push(id))
    } else if policy == OverflowPolicy::DropNew {
        (false, ids)
    } else if ids.len() > 0 {
        let rest = ids.drop_first();
        if rest.len() < cap {
            (true, rest.push(id))
        } else {
            (false, rest)
        }
    } else {
        (false, ids)
    }
}

/// What the overflow policies do: a message enqueued on a queue with room is
/// taken and goes last; on a full queue (of capacity at least one),
/// `DropNew` refuses it and leaves the queue as it was, while `DropOldest`
/// takes it after dropping the oldest message.
pub proof fn lemma_overflow_policies(ids: Seq<u64>, cap: nat, id: u64)
    requires
        ids.len() <= cap,
    ensures
        ids.len() < cap ==> enqueue_outcome(ids, cap, OverflowPolicy::DropNew, id) == (true, ids.push(id))
            && enqueue_outcome(ids, cap, OverflowPolicy::DropOldest, id) == (true, ids.push(id)),
        ids.len() == cap ==> enqueue_outcome(ids, cap, OverflowPolicy::DropNew, id) == (false, ids),
        ids.len() == cap && cap >= 1 ==> enqueue_outcome(ids, cap, OverflowPolicy::DropOldest, id)
            == (true, ids.drop_first().push(id)),
{
}

/// The interface of a subscriber's queue.
pub trait QueueBehavior {
    /// Offers a message; an error when it is not taken.
    fn enqueue(&mut self, message: Arc<Message>) -> Result<(), BlipError>;

    /// Takes the oldest message, if any.
    fn dequeue(&mut self) -> Option<Arc<Message>>;

    /// The number of queued messages.
    fn len(&self) -> usize;

    /// Whether nothing is queued.
    fn is_empty(&self) -> bool;

    /// The queue's name (the subscriber's id).
    fn name(&self) -> String;
}

/// A subscriber's bounded QoS 0 queue.
#[derive(Debug)]
pub struct Queue {
    name: String,
    queue: ArrayQueue<Arc<Message>>,
    policy: OverflowPolicy,
}

impl Queue {
    /// The ids of the queued messages, oldest first.
    pub closed spec fn ids(&self) -> Seq<u64> {
        queued_ids(self.queue)
    }

    /// The queue's capacity.
    pub closed spec fn cap(&self) -> nat {
        queue_capacity(self.queue)
    }

    /// The queue's overflow policy.
    pub closed spec fn overflow(&self) -> OverflowPolicy {
        self.policy
    }

    /// The queue's name.
    pub closed spec fn label(&self) -> Seq<char> {
        self.name@
    }

    /// An empty queue named `name` with room for `capacity` messages.
    pub fn new(name: String, capacity: usize, policy: OverflowPolicy) -> (q: Queue)
        requires
            0 < capacity <= usize::MAX / 2,
        ensures
            q.ids() == Seq::<u64>::empty(),
            q.cap() == capacity,
            q.overflow() == policy,
            q.label() == name@,
    {
        Queue { name, queue: array_queue_new(capacity), policy }
    }

    /// Takes up to `max` of the oldest messages, oldest first.
    pub fn drain(&mut self, max: usize) -> (out: Vec<Arc<Message>>)
        ensures
            ({
                let k = if max < old(self).ids().len() { max as int } else { old(self).ids().len() as int };
                &&& out@.len() == k
                &&& forall|i: int| 0 <= i < k ==> (#[trigger] out@[i]).id == old(self).ids()[i]
                &&& final(self).ids() == old(self).ids().skip(k)
            }),
            final(self).cap() == old(self).cap(),
            final(self).overflow() == old(self).overflow(),
            final(self).label() == old(self).label(),
    {
        let mut out: Vec<Arc<Message>> = Vec::new();
        let mut i: usize = 0;
        while i < max
            invariant
                i <= max,
                out@.len() == i,
                i <= old(self).ids().len(),
                self.ids() == old(self).ids().skip(i as int),
                forall|j: int| 0 <= j < i ==> (#[trigger] out@[j]).id == old(self).ids()[j],
                self.cap() == old(self).cap(),
                self.overflow() == old(self).overflow(),
                self.label() == old(self).label(),
            ensures
                out@.len() == i,
                i == (if max < old(self).ids().len() { max as int } else { old(self).ids().len() as int }),
                self.ids() == old(self).ids().skip(i as int),
                forall|j: int| 0 <= j < i ==> (#[trigger] out@[j]).id == old(self).ids()[j],
                self.cap() == old(self).cap(),
                self.overflow() == old(self).overflow(),
                self.label() == old(self).label(),
            decreases max - i,
        {
            match array_queue_pop(&mut self.queue) {
                Some(m) => {
                    proof {
                        assert(old(self).ids().skip(i as int)[0] == old(self).ids()[i as int]);
                        assert(old(self).ids().skip(i as int).drop_first() =~= old(self).ids().skip(i + 1));
                    }
                    out.push(m);
                    i = i + 1;
                },
                None => {
                    proof {
                        assert(i == old(self).ids().len());
                    }
                    break;
                },
            }
        }
        out
    }
}

impl QueueBehavior for Queue {
    /// Offers a message: taken when there is room; when full, refused
    /// under `DropNew`, or taken in place of the oldest under `DropOldest`.
    fn enqueue(&mut self, message: Arc<Message>) -> (r: Result<(), BlipError>)
        ensures
            ({
                let o = enqueue_outcome(old(self).ids(), old(self).cap(), old(self).overflow(), message.id);
                &&& (r is Ok) == o.0
                &&& r matches Err(e) ==> e is QueueFull
                &&& final(self).ids() == o.1
            }),
            old(self).ids().len() < old(self).cap() ==> r is Ok && final(self).ids() == old(self).ids().push(message.id),
            old(self).ids().len() == old(self).cap() && old(self).overflow() == OverflowPolicy::DropNew
                ==> r == Err::<(), BlipError>(BlipError::QueueFull) && final(self).ids() == old(self).ids(),
            old(self).ids().len() == old(self).cap() && old(self).cap() >= 1 && old(self).overflow() == OverflowPolicy::DropOldest
                ==> r is Ok && final(self).ids() == old(self).ids().drop_first().push(message.id),
            final(self).cap() == old(self).cap(),
            final(self).overflow() == old(self).overflow(),
            final(self).label() == old(self).label(),
    {
        match array_queue_push(&mut self.queue, message) {
            Ok(()) => Ok(()),
            Err(m) => match self.policy {
                OverflowPolicy::DropNew => Err(BlipError::QueueFull),
                OverflowPolicy::DropOldest => {
                    let _ = array_queue_pop(&mut self.queue);
                    match array_queue_push(&mut self.queue, m) {
                        Ok(()) => Ok(()),
                        Err(_) => Err(BlipError::QueueFull),
                    }
                },
            },
        }
    }

    /// Takes the oldest message, if any.
    fn dequeue(&mut self) -> (r: Option<Arc<Message>>)
        ensures
            old(self).ids().len() == 0 ==> r is None && final(self).ids() == old(self).ids(),
            old(self).ids().len() > 0 ==> (r matches Some(m) && m.id == old(self).ids()[0])
                && final(self).ids() == old(self).ids().drop_first(),
            final(self).cap() == old(self).cap(),
            final(self).overflow() == old(self).overflow(),
            final(self).label() == old(self).label(),
    {
        array_queue_pop(&mut self.queue)
    }

    /// The number of queued messages.
    fn len(&self) -> (n: usize)
        ensures
            n == self.ids().len(),
    {
        array_queue_len(&self.queue)
    }

    /// Whether nothing is queued.
    fn is_empty(&self) -> (r: bool)
        ensures
            r == (self.ids().len() == 0),
    {
        array_queue_len(&self.queue) == 0
    }

    /// The queue's name.
    fn name(&self) -> (s: String)
        ensures
            s@ == self.label(),
    {
        self.name.clone()
    }
}

/// The subscribers' queues, by subscriber id.
#[derive(Debug)]
pub struct QueueManager {
    queues: StrMap<Queue>,
}

impl QueueManager {
    /// The queues by subscriber id.
    pub closed spec fn view(&self) -> Map<Seq<char>, Queue> {
        self.queues.view()
    }

    /// No queues.
    pub fn new() -> (m: QueueManager)
        ensures
            m.view() == Map::<Seq<char>, Queue>::empty(),
    {
        QueueManager { queues: StrMap::new() }
    }

    /// Makes sure `subscriber_id` has a queue; a new one is an empty QoS 0
    /// queue (QoS 1 is served by the same kind) with the given capacity and
    /// policy. An existing queue is kept as it is.
    pub fn get_or_create(&mut self, subscriber_id: String, qos: QoS, capacity: usize, policy: OverflowPolicy)
        requires
            0 < capacity <= usize::MAX / 2,
        ensures
            old(self).view().contains_key(subscriber_id@) ==> final(self).view() == old(self).view(),
            !old(self).view().contains_key(subscriber_id@) ==> {
                &&& final(self).view().dom() == old(self).view().dom().insert(subscriber_id@)
                &&& final(self).view()[subscriber_id@].ids() == Seq::<u64>::empty()
                &&& final(self).view()[subscriber_id@].cap() == capacity
                &&& final(self).view()[subscriber_id@].overflow() == policy
                &&& forall|k: Seq<char>| k != subscriber_id@ && #[trigger] old(self).view().contains_key(k)
                    ==> final(self).view()[k] == old(self).view()[k]
            },
    {
        if self.queues.contains_key(subscriber_id.as_str()) {
            return;
        }
        let q = match qos {
            QoS::QoS0 => Queue::new(subscriber_id.clone(), capacity, policy),
            QoS::QoS1 => Queue::new(subscriber_id.clone(), capacity, policy),
        };
        self.queues.insert(subscriber_id, q);
    }

    /// Offers a message to `subscriber_id`'s queue (see `Queue::enqueue`);
    /// a subscriber without a queue is an invalid subscriber.
    pub fn enqueue(&mut self, subscriber_id: &str, message: Arc<Message>) -> (r: Result<(), BlipError>)
        ensures
            !old(self).view().contains_key(subscriber_id@) ==> (r matches Err(e) && e is InvalidSubscriber)
                && final(self).view() == old(self).view(),
            old(self).view().contains_key(subscriber_id@) ==> {
                let q = old(self).view()[subscriber_id@];
                let o = enqueue_outcome(q.ids(), q.cap(), q.overflow(), message.id);
                &&& (r is Ok) == o.0
                &&& final(self).view().dom() == old(self).view().dom()
                &&& final(self).view()[subscriber_id@].ids() == o.1
                &&& final(self).view()[subscriber_id@].cap() == q.cap()
            },
    {
        match self.queues.remove(subscriber_id) {
            Some(mut q) => {
                let r = q.enqueue(message);
                self.queues.insert(str_to_string(subscriber_id), q);
                proof {
                    assert(self.view().dom() =~= old(self).view().dom());
                }
                r
            },
            None => Err(BlipError::InvalidSubscriber),
        }
    }

    /// Drops `subscriber_id`'s queue.
    pub fn remove(&mut self, subscriber_id: &str)
        ensures
            final(self).view() == old(self).view().remove(subscriber_id@),
    {
        self.queues.remove(subscriber_id);
    }

    /// The number of queues.
    pub fn count(&self) -> (n: usize)
        ensures
            n == self.view().dom().len(),
    {
        self.queues.note_entries();
        proof {
            crate::assoc::lemma_entries_map_len(self.queues.entries());
        }
        self.queues.len()
    }
}

} // verus!
