//! A map keyed by topic that can be walked.

use vstd::hash_map::StringHashMap;
use vstd::prelude::*;
use vstd::string::*;

verus! {

/// A map from topics to values. Looking a topic up takes constant time; walking
/// the map visits the entries in a fixed order.
#[verifier::reject_recursive_types(V)]
pub struct TopicMap<V> {
    entries: Vec<(String, V)>,
    /// Where each topic stands in `entries`.
    index: StringHashMap<usize>,
}

/// The topics of a list of entries.
pub open spec fn topics_of<V>(entries: Seq<(String, V)>) -> Seq<Seq<char>> {
    Seq::new(entries.len(), |i: int| entries[i].0@)
}

/// What a list of entries holds under each topic, the last entry for a topic
/// being the one that counts.
pub open spec fn entry_map<V>(entries: Seq<(String, V)>) -> Map<Seq<char>, V>
    decreases entries.len(),
{
    if entries.len() == 0 {
        Map::empty()
    } else {
        entry_map(entries.drop_last()).insert(entries.last().0@, entries.last().1)
    }
}

/// An entry without a later one for the same topic is what the list holds under
/// that topic, and the list holds nothing under a topic without an entry.
pub proof fn entry_map_holds_the_entries<V>(entries: Seq<(String, V)>)
    requires
        topics_of(entries).no_duplicates(),
    ensures
        forall|i: int|
            0 <= i < entries.len() ==> entry_map(entries).contains_key((#[trigger] entries[i]).0@)
                && entry_map(entries)[entries[i].0@] == entries[i].1,
        forall|topic: Seq<char>|
            entry_map(entries).contains_key(topic) ==> #[trigger] topics_of(entries).contains(
                topic,
            ),
    decreases entries.len(),
{
    if entries.len() > 0 {
        let before = entries.drop_last();
        let topics = topics_of(entries);
        assert(topics_of(before) == topics.drop_last());
        assert forall|i: int, j: int|
            0 <= i < before.len() && 0 <= j < before.len() && i != j implies topics_of(before)[i]
            != topics_of(before)[j] by {
            assert(topics[i] != topics[j]);
        }
        entry_map_holds_the_entries(before);
        assert forall|i: int| 0 <= i < entries.len() implies entry_map(entries).contains_key(
            (#[trigger] entries[i]).0@,
        ) && entry_map(entries)[entries[i].0@] == entries[i].1 by {
            if i < before.len() {
                assert(before[i] == entries[i]);
                assert(topics[i] != topics[entries.len() - 1]);
            }
        }
        assert forall|topic: Seq<char>| entry_map(entries).contains_key(topic) implies
            #[trigger] topics.contains(topic) by {
            if topic == entries.last().0@ {
                assert(topics[entries.len() - 1] == topic);
            } else {
                assert(topics_of(before).contains(topic));
                let i = choose|i: int| 0 <= i < before.len() && topics_of(before)[i] == topic;
                assert(topics[i] == topic);
            }
        }
    }
}

impl<V> TopicMap<V> {
    /// The entries in the order in which they are walked.
    pub closed spec fn walk(&self) -> Seq<(String, V)> {
        self.entries@
    }

    /// What is stored under each topic.
    pub open spec fn map(&self) -> Map<Seq<char>, V> {
        entry_map(self.walk())
    }

    /// No topic occurs twice, and the index agrees with the entries.
    pub closed spec fn wf(&self) -> bool {
        &&& topics_of(self.entries@).no_duplicates()
        &&& forall|i: int|
            0 <= i < self.entries@.len() ==> self.index@.contains_key(
                (#[trigger] self.entries@[i]).0@,
            ) && self.index@[self.entries@[i].0@] == i
        &&& forall|topic: Seq<char>|
            #[trigger] self.index@.contains_key(topic) ==> self.index@[topic]
                < self.entries@.len() && self.entries@[self.index@[topic] as int].0@ == topic
    }

    proof fn index_is_exact(&self)
        requires
            self.wf(),
        ensures
            forall|topic: Seq<char>|
                #[trigger] self.map().contains_key(topic) <==> self.index@.contains_key(topic),
            forall|topic: Seq<char>| #[trigger]
                self.index@.contains_key(topic) ==> self.map()[topic]
                    == self.entries@[self.index@[topic] as int].1,
    {
        entry_map_holds_the_entries(self.entries@);
        assert forall|topic: Seq<char>| #[trigger]
            self.map().contains_key(topic) <==> self.index@.contains_key(topic) by {
            if self.map().contains_key(topic) {
                assert(topics_of(self.entries@).contains(topic));
                let i = choose|i: int|
                    0 <= i < self.entries@.len() && topics_of(self.entries@)[i] == topic;
                assert(self.entries@[i].0@ == topic);
            }
            if self.index@.contains_key(topic) {
                assert(self.entries@[self.index@[topic] as int].0@ == topic);
            }
        }
        assert forall|topic: Seq<char>| #[trigger]
            self.index@.contains_key(topic) implies self.map()[topic]
            == self.entries@[self.index@[topic] as int].1 by {
            assert(self.entries@[self.index@[topic] as int].0@ == topic);
        }
    }

    /// The number of entries is the number of topics.
    pub proof fn walk_visits_each_topic_once(&self)
        requires
            self.wf(),
        ensures
            topics_of(self.walk()).no_duplicates(),
            self.map().dom().finite(),
            self.map().dom() == topics_of(self.walk()).to_set(),
            self.map().len() == self.walk().len(),
    {
        entry_map_holds_the_entries(self.entries@);
        let topics = topics_of(self.entries@);
        assert forall|topic: Seq<char>| self.map().dom().contains(topic) <==> topics.to_set().contains(
            topic,
        ) by {
            if topics.contains(topic) {
                let i = choose|i: int| 0 <= i < topics.len() && topics[i] == topic;
                assert(self.entries@[i].0@ == topic);
            }
        }
        assert(self.map().dom() == topics.to_set());
        topics.unique_seq_to_set();
    }

    pub fn new() -> (m: Self)
        ensures
            m.wf(),
            m.walk() == Seq::<(String, V)>::empty(),
            m.map() == Map::<Seq<char>, V>::empty(),
    {
        TopicMap { entries: Vec::new(), index: StringHashMap::new() }
    }

    /// The number of topics.
    pub fn len(&self) -> (n: usize)
        requires
            self.wf(),
        ensures
            n == self.map().len(),
            n == self.walk().len(),
    {
        proof {
            self.walk_visits_each_topic_once();
        }
        self.entries.len()
    }

    /// What is stored under `topic`.
    pub fn get(&self, topic: &str) -> (value: Option<&V>)
        requires
            self.wf(),
        ensures
            match value {
                Some(v) => self.map().contains_key(topic@) && *v == self.map()[topic@],
                None => !self.map().contains_key(topic@),
            },
    {
        proof {
            self.index_is_exact();
        }
        match self.index.get(topic) {
            Some(i) => Some(&self.entries[*i].1),
            None => None,
        }
    }

    /// Stores `value` under `topic`, in place of what is stored there.
    pub fn insert(&mut self, topic: &str, value: V)
        requires
            old(self).wf(),
        ensures
            final(self).wf(),
            final(self).map() == old(self).map().insert(topic@, value),
    {
        proof {
            self.index_is_exact();
        }
        let place: Option<usize> = match self.index.get(topic) {
            Some(i) => Some(*i),
            None => None,
        };
        match place {
            Some(i) => {
                let ghost before = self.entries@;
                self.entries.set(i, (topic.to_owned(), value));
                assert(topics_of(self.entries@) == topics_of(before));
            },
            None => {
                let n: usize = self.entries.len();
                let ghost before = self.entries@;
                self.entries.push((topic.to_owned(), value));
                self.index.insert(topic.to_owned(), n);
                proof {
                    let topics = topics_of(self.entries@);
                    assert forall|i: int| 0 <= i < n implies #[trigger] topics[i] != topic@ by {
                        assert(before[i].0@ != topic@);
                    }
                    assert forall|i: int, j: int|
                        0 <= i < topics.len() && 0 <= j < topics.len() && i != j implies topics[i]
                        != topics[j] by {
                        if i < n && j < n {
                            assert(topics_of(before)[i] != topics_of(before)[j]);
                        }
                    }
                    assert forall|i: int| 0 <= i < self.entries@.len() implies
                        self.index@.contains_key((#[trigger] self.entries@[i]).0@)
                        && self.index@[self.entries@[i].0@] == i by {
                        if i < n {
                            assert(self.entries@[i] == before[i]);
                            assert(topics[i] != topic@);
                        }
                    }
                }
            },
        }
        proof {
            self.index_is_exact();
            assert(self.map() == old(self).map().insert(topic@, value));
        }
    }

    /// Removes the entry for `topic`, if there is one.
    pub fn remove(&mut self, topic: &str)
        requires
            old(self).wf(),
        ensures
            final(self).wf(),
            final(self).map() == old(self).map().remove(topic@),
    {
        proof {
            self.index_is_exact();
        }
        let place: Option<usize> = match self.index.get(topic) {
            Some(i) => Some(*i),
            None => None,
        };
        if let Some(i) = place {
            let ghost before = self.entries@;
            let ghost last = before.len() - 1;
            let ghost topics = topics_of(before);
            assert(before[i as int].0@ == topic@);
            assert(topics[i as int] == topic@);
            if let Some(moved) = self.entries.pop() {
                self.index.remove(topic);
                if i < self.entries.len() {
                    assert(topics[last] == moved.0@);
                    self.index.insert(moved.0.clone(), i);
                    self.entries.set(i, moved);
                }
            }
            proof {
                let after = self.entries@;
                assert forall|k: int| 0 <= k < after.len() implies #[trigger] topics_of(after)[k]
                    == topics[if k == i {
                    last
                } else {
                    k
                }] by {}
                assert forall|a: int, b: int|
                    0 <= a < after.len() && 0 <= b < after.len() && a != b implies topics_of(
                    after,
                )[a] != topics_of(after)[b] by {}
                assert forall|k: int| 0 <= k < after.len() implies self.index@.contains_key(
                    (#[trigger] after[k]).0@,
                ) && self.index@[after[k].0@] == k by {
                    assert(topics_of(after)[k] == after[k].0@);
                    assert(after[k].0@ == before[if k == i {
                        last
                    } else {
                        k
                    }].0@);
                    assert(topics[if k == i {
                        last
                    } else {
                        k
                    }] != topics[i as int]);
                    if k != i && i < last {
                        assert(topics[k] != topics[last]);
                    }
                }
                assert forall|t: Seq<char>| #[trigger]
                    self.index@.contains_key(t) implies self.index@[t] < after.len()
                    && after[self.index@[t] as int].0@ == t by {
                    if i < last && t == topics[last] {
                    } else {
                        assert(old(self).index@.contains_key(t));
                        let k = old(self).index@[t] as int;
                        assert(topics[k] == t);
                    }
                }
                self.index_is_exact();
                assert forall|t: Seq<char>| #[trigger]
                    self.map().contains_key(t) <==> old(self).map().remove(topic@).contains_key(
                        t,
                    ) by {
                    if t != topic@ && old(self).index@.contains_key(t) {
                        assert(self.index@.contains_key(t));
                    }
                }
                assert forall|t: Seq<char>| #[trigger]
                    self.map().contains_key(t) implies self.map()[t] == old(self).map()[t] by {
                    assert(self.index@.contains_key(t));
                    assert(old(self).index@.contains_key(t));
                }
            }
            assert(self.map() == old(self).map().remove(topic@));
        } else {
            assert(self.map() == old(self).map().remove(topic@));
        }
    }

    /// The entry at place `i` of the walk.
    pub fn entry(&self, i: usize) -> (e: &(String, V))
        requires
            i < self.walk().len(),
        ensures
            *e == self.walk()[i as int],
    {
        &self.entries[i]
    }

    /// The entries in the order in which they are walked.
    pub fn into_entries(self) -> (entries: Vec<(String, V)>)
        requires
            self.wf(),
        ensures
            entries@ == self.walk(),
            entry_map(entries@) == self.map(),
            topics_of(entries@).no_duplicates(),
    {
        self.entries
    }
}

} // verus!
