//! The order of a graceful shutdown: components registered with a
//! priority are shut down lowest number first (equal priorities in order of
//! registration), and no new task is admitted once shutdown began.

use vstd::prelude::*;

verus! {

/// The priorities are in order.
pub open spec fn by_priority(cs: Seq<(String, u8)>) -> bool {
    forall|i: int, j: int| 0 <= i < j < cs.len() ==> cs[i].1 <= cs[j].1
}

/// How many components come before a new one of priority `p`: those of
/// priority up to `p`.
pub open spec fn slot_for(cs: Seq<(String, u8)>, p: u8) -> int
    decreases cs.len(),
{
    if cs.len() == 0 {
        0
    } else if cs.last().1 <= p {
        cs.len() as int
    } else {
        slot_for(cs.drop_last(), p)
    }
}

proof fn lemma_slot_for(cs: Seq<(String, u8)>, p: u8)
    requires
        by_priority(cs),
    ensures
        0 <= slot_for(cs, p) <= cs.len(),
        forall|i: int| 0 <= i < slot_for(cs, p) ==> #[trigger] cs[i].1 <= p,
        forall|i: int| slot_for(cs, p) <= i < cs.len() ==> #[trigger] cs[i].1 > p,
    decreases cs.len(),
{
    if cs.len() > 0 {
        let n = cs.len() - 1;
        if cs.last().1 > p {
            let d = cs.drop_last();
            assert(by_priority(d)) by {
                assert forall|i: int, j: int| 0 <= i < j < d.len() implies d[i].1 <= d[j].1 by {
                    assert(d[i] == cs[i] && d[j] == cs[j]);
                }
            }
            lemma_slot_for(d, p);
            assert forall|i: int| 0 <= i < slot_for(cs, p) implies #[trigger] cs[i].1 <= p by {
                assert(d[i] == cs[i]);
            }
            assert forall|i: int| slot_for(cs, p) <= i < cs.len() implies #[trigger] cs[i].1 > p by {
                if i < n {
                    assert(d[i] == cs[i]);
                }
            }
        } else {
            assert forall|i: int| 0 <= i < slot_for(cs, p) implies #[trigger] cs[i].1 <= p by {
                if i < n {
                    assert(cs[i].1 <= cs[n].1);
                }
            }
        }
    }
}

/// The shutdown coordinator's state.
#[derive(Debug)]
pub struct ShutdownPlan {
    components: Vec<(String, u8)>,
    shutting_down: bool,
    shutdown_timeout_ms: u64,
}

impl ShutdownPlan {
    #[verifier::type_invariant]
    spec fn inv(self) -> bool {
        by_priority(self.components@)
    }

    /// The registered components (name and priority) in shutdown order.
    pub closed spec fn order(self) -> Seq<(String, u8)> {
        self.components@
    }

    /// Shutdown has begun.
    pub closed spec fn stopping(self) -> bool {
        self.shutting_down
    }

    /// How long each component is given, in milliseconds.
    pub closed spec fn timeout(self) -> u64 {
        self.shutdown_timeout_ms
    }

    /// No component, not shutting down.
    pub fn new(shutdown_timeout_ms: u64) -> (p: ShutdownPlan)
        ensures
            p.order() == Seq::<(String, u8)>::empty(),
            !p.stopping(),
            p.timeout() == shutdown_timeout_ms,
    {
        ShutdownPlan { components: Vec::new(), shutting_down: false, shutdown_timeout_ms }
    }

    /// Registers a component: it is shut down after every component of a
    /// lower or equal priority registered so far, before those of a higher
    /// one.
    pub fn register_component(&mut self, name: String, priority: u8)
        ensures
            final(self).order() == old(self).order().insert(slot_for(old(self).order(), priority), (name, priority)),
            by_priority(final(self).order()),
            final(self).stopping() == old(self).stopping(),
            final(self).timeout() == old(self).timeout(),
    {
        proof {
            use_type_invariant(&*self);
            lemma_slot_for(self.components@, priority);
        }
        let ghost cs = self.components@;
        let mut k: usize = self.components.len();
        while k > 0 && self.components[k - 1].1 > priority
            invariant
                self.components@ == cs,
                by_priority(cs),
                k <= cs.len(),
                forall|i: int| k <= i < cs.len() ==> #[trigger] cs[i].1 > priority,
                forall|i: int| 0 <= i < slot_for(cs, priority) ==> #[trigger] cs[i].1 <= priority,
                forall|i: int| slot_for(cs, priority) <= i < cs.len() ==> #[trigger] cs[i].1 > priority,
                0 <= slot_for(cs, priority) <= cs.len(),
                k >= slot_for(cs, priority),
            decreases k,
        {
            k = k - 1;
        }
        proof {
            if k > slot_for(cs, priority) {
                assert(cs[k - 1].1 > priority);
            }
            assert(k == slot_for(cs, priority));
        }
        let mut comps: Vec<(String, u8)> = Vec::new();
        std::mem::swap(&mut comps, &mut self.components);
        comps.insert(k, (name, priority));
        proof {
            let n = comps@;
            assert forall|i: int, j: int| 0 <= i < j < n.len() implies n[i].1 <= n[j].1 by {
                if i < k as int && j < k as int {
                    assert(n[i] == cs[i] && n[j] == cs[j]);
                } else if i < k as int && j == k as int {
                    assert(n[i] == cs[i]);
                } else if i < k as int {
                    assert(n[i] == cs[i] && n[j] == cs[j - 1]);
                } else if i == k as int {
                    assert(n[j] == cs[j - 1]);
                } else {
                    assert(n[i] == cs[i - 1] && n[j] == cs[j - 1]);
                }
            }
        }
        self.components = comps;
    }

    /// Whether shutdown has begun.
    pub fn is_shutting_down(&self) -> (r: bool)
        ensures
            r == self.stopping(),
    {
        self.shutting_down
    }

    /// Whether a new task is admitted. None is: no task slot is ever made
    /// available, and none once shutdown began.
    pub fn track_task(&self) -> (r: bool)
        ensures
            !r,
    {
        false
    }

    /// Begins shutdown and gives the components' names in shutdown order.
    pub fn begin_shutdown(&mut self) -> (names: Vec<String>)
        ensures
            final(self).stopping(),
            final(self).order() == old(self).order(),
            final(self).timeout() == old(self).timeout(),
            names@.len() == old(self).order().len(),
            forall|i: int| 0 <= i < names@.len() ==> #[trigger] names@[i] == old(self).order()[i].0,
    {
        proof {
            use_type_invariant(&*self);
        }
        self.shutting_down = true;
        let mut names: Vec<String> = Vec::new();
        let mut i: usize = 0;
        while i < self.components.len()
            invariant
                i <= self.components@.len(),
                names@.len() == i,
                forall|j: int| 0 <= j < i ==> #[trigger] names@[j] == self.components@[j].0,
            decreases self.components@.len() - i,
        {
            names.push(self.components[i].0.clone());
            i = i + 1;
        }
        names
    }
}

} // verus!
