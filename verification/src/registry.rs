//! The registry of active topics: each name maps to one shared topic,
//! created on first use with the requested input-queue capacity.

use vstd::prelude::*;
use std::sync::Arc;
use crate::assoc::StrMap;
use crate::text::str_to_string;

verus! {

/// `Arc::clone`: another pointer to the same allocation, so the same value.
#[verifier::external_body]
fn share<T>(a: &Arc<T>) -> (r: Arc<T>)
    ensures
        r == *a,
{
    Arc::clone(a)
}

/// The topics by name, with the capacity new topics get by default.
#[derive(Debug)]
pub struct TopicRegistry<T> {
    topics: StrMap<Arc<T>>,
    default_topic_capacity: usize,
}

impl<T> TopicRegistry<T> {
    /// The topics by name.
    pub closed spec fn view(&self) -> Map<Seq<char>, Arc<T>> {
        self.topics.view()
    }

    /// The input-queue capacity of topics created without one.
    pub closed spec fn default_capacity(&self) -> usize {
        self.default_topic_capacity
    }

    /// No topics yet; new topics get `default_topic_capacity` unless told otherwise.
    pub fn new(default_topic_capacity: usize) -> (r: TopicRegistry<T>)
        ensures
            r.view() == Map::<Seq<char>, Arc<T>>::empty(),
            r.default_capacity() == default_topic_capacity,
    {
        TopicRegistry { topics: StrMap::new(), default_topic_capacity }
    }

    /// The topic named `name`, if there is one.
    pub fn get_topic(&self, name: &String) -> (r: Option<Arc<T>>)
        ensures
            r == (if self.view().contains_key(name@) { Some(self.view()[name@]) } else { None::<Arc<T>> }),
    {
        match self.topics.get(name.as_str()) {
            Some(t) => Some(share(t)),
            None => None,
        }
    }

    /// The topic named `name`; when there is none, `make(name, queue_capacity)`
    /// builds it and it is registered under the name.
    pub fn create_or_get_topic_with_capacity<F: FnOnce(String, usize) -> T>(
        &mut self,
        name: &String,
        queue_capacity: usize,
        make: F,
    ) -> (r: Arc<T>)
        requires
            forall|n: String| n@ == name@ ==> #[trigger] make.requires((n, queue_capacity)),
        ensures
            final(self).default_capacity() == old(self).default_capacity(),
            old(self).view().contains_key(name@) ==> r == old(self).view()[name@] && final(self).view() == old(self).view(),
            !old(self).view().contains_key(name@) ==> final(self).view() == old(self).view().insert(name@, r)
                && exists|n: String| n@ == name@ && #[trigger] make.ensures((n, queue_capacity), *r),
    {
        match self.topics.get(name.as_str()) {
            Some(t) => share(t),
            None => {
                let n = str_to_string(name.as_str());
                let ghost nv = n;
                let topic = Arc::new(make(n, queue_capacity));
                self.topics.insert(str_to_string(name.as_str()), share(&topic));
                proof {
                    assert(make.ensures((nv, queue_capacity), *topic));
                }
                topic
            },
        }
    }

    /// The topic named `name`, created with the default capacity by `make`
    /// when there is none.
    pub fn create_or_get_topic<F: FnOnce(String, usize) -> T>(&mut self, name: &String, make: F) -> (r: Arc<T>)
        requires
            forall|n: String| n@ == name@ ==> #[trigger] make.requires((n, old(self).default_capacity())),
        ensures
            final(self).default_capacity() == old(self).default_capacity(),
            old(self).view().contains_key(name@) ==> r == old(self).view()[name@] && final(self).view() == old(self).view(),
            !old(self).view().contains_key(name@) ==> final(self).view() == old(self).view().insert(name@, r)
                && exists|n: String| n@ == name@ && #[trigger] make.ensures((n, old(self).default_capacity()), *r),
    {
        let cap = self.default_topic_capacity;
        proof {
            assert forall|n: String| n@ == name@ implies #[trigger] make.requires((n, cap)) by {
                assert(make.requires((n, old(self).default_capacity())));
            }
        }
        self.create_or_get_topic_with_capacity(name, cap, make)
    }

    /// The names of the registered topics, each once.
    pub fn list_topics(&self) -> (r: Vec<String>)
        ensures
            r@.len() == self.view().dom().len(),
            forall|i: int| 0 <= i < r@.len() ==> #[trigger] self.view().contains_key(r@[i]@),
            forall|k: Seq<char>| #[trigger] self.view().contains_key(k) ==> exists|i: int| 0 <= i < r@.len() && r@[i]@ == k,
            forall|i: int, j: int| 0 <= i < j < r@.len() ==> r@[i]@ != r@[j]@,
    {
        self.topics.note_entries();
        let r = self.topics.keys();
        proof {
            let es = self.topics.entries();
            crate::assoc::lemma_entries_map_len(es);
            assert forall|i: int| 0 <= i < r@.len() implies #[trigger] self.view().contains_key(r@[i]@) by {
                assert(r@[i]@ == es[i].0@);
                crate::assoc::lemma_key_index_unique(es, i);
            }
            assert forall|k: Seq<char>| #[trigger] self.view().contains_key(k) implies exists|i: int| 0 <= i < r@.len() && r@[i]@ == k by {
                let i = choose|i: int| 0 <= i < es.len() && es[i].0@ == k;
                assert(r@[i]@ == es[i].0@);
            }
            assert forall|i: int, j: int| 0 <= i < j < r@.len() implies r@[i]@ != r@[j]@ by {
                assert(r@[i]@ == es[i].0@);
                assert(r@[j]@ == es[j].0@);
            }
        }
        r
    }

    /// Removes the topic named `name`, returning it if it was registered.
    pub fn remove_topic(&mut self, name: &String) -> (r: Option<Arc<T>>)
        ensures
            final(self).view() == old(self).view().remove(name@),
            final(self).default_capacity() == old(self).default_capacity(),
            r == (if old(self).view().contains_key(name@) { Some(old(self).view()[name@]) } else { None::<Arc<T>> }),
    {
        self.topics.remove(name.as_str())
    }
}

} // verus!
