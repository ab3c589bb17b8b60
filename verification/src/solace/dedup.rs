//! Deduplication of broker redeliveries by replication-group message ID.

use std::collections::VecDeque;
use vstd::hash_set::StringHashSet;
use vstd::prelude::*;
use vstd::string::*;

use crate::text::texts;

verus! {

/// Bounded record of the replication-group message IDs seen this session.
///
/// The broker redelivers guaranteed messages that were received but not yet
/// acknowledged. The cache recognizes such redeliveries, so that a record is
/// not ingested twice.
///
/// It has a window of the last `cap` distinct IDs, first in, first out. A
/// redelivery of a message older than that re-ingests, which at-least-once
/// delivery permits. Such a message is no younger for having come back: it does
/// not displace an ID of the window. It is remembered beside the window for as
/// long as it is among the last `cap` IDs that left it.
pub struct RgmidCache {
    /// The IDs of the window, oldest first.
    order: VecDeque<String>,
    seen: StringHashSet,
    /// The IDs that left the window, oldest first.
    past: VecDeque<String>,
    left: StringHashSet,
    /// Those of `past` that came back.
    returned: StringHashSet,
    cap: usize,
}

/// What the cache knows.
pub struct CacheModel {
    /// The last distinct IDs, oldest first.
    pub window: Seq<Seq<char>>,
    /// The IDs that left the window last, oldest first.
    pub past: Seq<Seq<char>>,
    /// Those of `past` that came back.
    pub returned: Set<Seq<char>>,
    /// How many IDs the window may hold; without any, deduplication is off.
    pub cap: nat,
}

impl CacheModel {
    /// A cache that has seen nothing.
    pub open spec fn empty(cap: nat) -> CacheModel {
        CacheModel { window: Seq::empty(), past: Seq::empty(), returned: Set::empty(), cap }
    }

    /// The message with this ID has not been seen, or is too old to be remembered.
    pub open spec fn is_new(self, id: Seq<char>) -> bool {
        self.cap == 0 || (!self.window.contains(id) && !self.returned.contains(id))
    }

    /// The ID is neither in the window nor among those that left it last.
    pub open spec fn is_unknown(self, id: Seq<char>) -> bool {
        !self.window.contains(id) && !self.past.contains(id)
    }

    /// The cache after the oldest ID has left the window.
    pub open spec fn evicted(self) -> CacheModel {
        if self.past.len() >= self.cap {
            CacheModel {
                window: self.window.drop_first(),
                past: self.past.drop_first().push(self.window[0]),
                returned: self.returned.remove(self.past[0]),
                ..self
            }
        } else {
            CacheModel {
                window: self.window.drop_first(),
                past: self.past.push(self.window[0]),
                ..self
            }
        }
    }

    /// The cache after a message with this ID.
    pub open spec fn after(self, id: Seq<char>) -> CacheModel {
        if self.cap == 0 || self.window.contains(id) {
            self
        } else if self.past.contains(id) {
            CacheModel { returned: self.returned.insert(id), ..self }
        } else {
            let roomy = if self.window.len() >= self.cap {
                self.evicted()
            } else {
                self
            };
            CacheModel { window: roomy.window.push(id), ..roomy }
        }
    }

    /// The cache after messages with these IDs, in order.
    pub open spec fn after_all(self, ids: Seq<Seq<char>>) -> CacheModel
        decreases ids.len(),
    {
        if ids.len() == 0 {
            self
        } else {
            self.after_all(ids.drop_last()).after(ids.last())
        }
    }

    /// No ID is held twice, and neither the window nor what left it is larger
    /// than allowed.
    pub open spec fn wf(self) -> bool {
        &&& self.window.no_duplicates()
        &&& self.past.no_duplicates()
        &&& forall|id: Seq<char>| #[trigger] self.window.contains(id) ==> !self.past.contains(id)
        &&& forall|id: Seq<char>| #[trigger]
            self.returned.contains(id) ==> self.past.contains(id)
        &&& self.window.len() <= self.cap
        &&& self.past.len() <= self.cap
    }
}

/// Those of `ids` that an empty cache did not know when they came.
pub open spec fn first_seen(cap: nat, ids: Seq<Seq<char>>) -> Seq<Seq<char>>
    decreases ids.len(),
{
    if ids.len() == 0 {
        Seq::empty()
    } else {
        let before = first_seen(cap, ids.drop_last());
        if CacheModel::empty(cap).after_all(ids.drop_last()).is_unknown(ids.last()) {
            before.push(ids.last())
        } else {
            before
        }
    }
}

/// The last `n` elements of `s`, or all of them where there are fewer.
pub open spec fn last_n<T>(s: Seq<T>, n: nat) -> Seq<T> {
    if s.len() <= n {
        s
    } else {
        s.skip(s.len() - n)
    }
}

/// An element of a sequence without its first one is an element of the sequence.
proof fn rest_contains<T>(s: Seq<T>, x: T)
    requires
        s.len() > 0,
        s.no_duplicates(),
    ensures
        s.drop_first().contains(x) <==> s.contains(x) && x != s[0],
        s.drop_first().no_duplicates(),
{
    let rest = s.drop_first();
    if rest.contains(x) {
        let i = choose|i: int| 0 <= i < rest.len() && rest[i] == x;
        assert(s[i + 1] == x);
    }
    if s.contains(x) && x != s[0] {
        let i = choose|i: int| 0 <= i < s.len() && s[i] == x;
        assert(rest[i - 1] == x);
    }
}

/// What a sequence contains after a push.
proof fn pushed_contains<T>(s: Seq<T>, y: T, x: T)
    ensures
        s.push(y).contains(x) <==> s.contains(x) || x == y,
{
    if s.contains(x) {
        let i = choose|i: int| 0 <= i < s.len() && s[i] == x;
        assert(s.push(y)[i] == x);
    }
    assert(s.push(y)[s.len() as int] == y);
    if s.push(y).contains(x) && x != y {
        let i = choose|i: int| 0 <= i < s.push(y).len() && s.push(y)[i] == x;
        assert(s[i] == x);
    }
}

proof fn pushed_no_duplicates<T>(s: Seq<T>, y: T)
    requires
        s.no_duplicates(),
        !s.contains(y),
    ensures
        s.push(y).no_duplicates(),
{
    let t = s.push(y);
    assert forall|i: int, j: int| 0 <= i < t.len() && 0 <= j < t.len() && i != j implies t[i]
        != t[j] by {
        if i < s.len() && j < s.len() {
            assert(s[i] != s[j]);
        } else if i < s.len() {
            assert(s.contains(s[i]));
        } else {
            assert(s.contains(s[j]));
        }
    }
}

proof fn eviction_keeps_order(cache: CacheModel)
    requires
        cache.wf(),
        cache.window.len() > 0,
    ensures
        cache.evicted().wf(),
        forall|id: Seq<char>| #[trigger]
            cache.evicted().window.contains(id) <==> cache.window.contains(id) && id
                != cache.window[0],
        forall|id: Seq<char>| #[trigger]
            cache.evicted().past.contains(id) <==> id == cache.window[0] || (
            cache.past.contains(id) && !(cache.past.len() >= cache.cap && id == cache.past[0])),
{
    let after = cache.evicted();
    let gone = cache.window[0];
    assert(cache.window.contains(gone));
    assert forall|id: Seq<char>| #[trigger]
        after.window.contains(id) <==> cache.window.contains(id) && id != gone by {
        rest_contains(cache.window, id);
    }
    rest_contains(cache.window, gone);
    let shorter = if cache.past.len() >= cache.cap {
        cache.past.drop_first()
    } else {
        cache.past
    };
    assert forall|id: Seq<char>| #[trigger]
        after.past.contains(id) <==> id == gone || (cache.past.contains(id) && !(cache.past.len()
            >= cache.cap && id == cache.past[0])) by {
        pushed_contains(shorter, gone, id);
        if cache.past.len() >= cache.cap {
            rest_contains(cache.past, id);
        }
    }
    if cache.past.len() >= cache.cap {
        rest_contains(cache.past, gone);
    }
    pushed_no_duplicates(shorter, gone);
}

/// Whatever messages come, no ID is held twice and the limits are kept.
pub proof fn cache_stays_bounded(cache: CacheModel, id: Seq<char>)
    requires
        cache.wf(),
    ensures
        cache.after(id).wf(),
{
    if cache.cap > 0 && cache.is_unknown(id) {
        let roomy = if cache.window.len() >= cache.cap {
            cache.evicted()
        } else {
            cache
        };
        if cache.window.len() >= cache.cap {
            eviction_keeps_order(cache);
        }
        let after = cache.after(id);
        pushed_no_duplicates(roomy.window, id);
        assert forall|x: Seq<char>| #[trigger] after.window.contains(x) implies !after.past.contains(
            x,
        ) by {
            pushed_contains(roomy.window, id, x);
        }
    }
}

impl View for RgmidCache {
    type V = CacheModel;

    closed spec fn view(&self) -> CacheModel {
        CacheModel {
            window: texts(self.order@),
            past: texts(self.past@),
            returned: self.returned@,
            cap: self.cap as nat,
        }
    }
}

impl RgmidCache {
    /// The limits are kept, and the indexes agree with the lists.
    pub closed spec fn wf(&self) -> bool {
        &&& self@.wf()
        &&& forall|id: Seq<char>| #[trigger] self.seen@.contains(id) <==> self@.window.contains(id)
        &&& forall|id: Seq<char>| #[trigger] self.left@.contains(id) <==> self@.past.contains(id)
    }

    /// What is known of a well-formed cache is well formed.
    pub proof fn model_is_well_formed(&self)
        requires
            self.wf(),
        ensures
            self@.wf(),
    {
    }

    pub fn new(cap: usize) -> (cache: Self)
        ensures
            cache.wf(),
            cache@ == CacheModel::empty(cap as nat),
    {
        let cache = RgmidCache {
            order: VecDeque::new(),
            seen: StringHashSet::new(),
            past: VecDeque::new(),
            left: StringHashSet::new(),
            returned: StringHashSet::new(),
            cap,
        };
        assert(cache@.window == Seq::<Seq<char>>::empty());
        assert(cache@.past == Seq::<Seq<char>>::empty());
        cache
    }

    /// Records `id`. Returns `true` if it is new, `false` if already seen.
    ///
    /// A capacity of 0 disables deduplication: every message is reported as
    /// new.
    pub fn insert(&mut self, id: &str) -> (new: bool)
        requires
            old(self).wf(),
        ensures
            final(self).wf(),
            new == old(self)@.is_new(id@),
            final(self)@ == old(self)@.after(id@),
    {
        proof {
            cache_stays_bounded(self@, id@);
        }
        if self.cap == 0 {
            return true;
        }
        if self.seen.contains(id) {
            return false;
        }
        if self.left.contains(id) {
            if self.returned.contains(id) {
                assert(self@.returned.insert(id@) == self@.returned);
                return false;
            }
            self.returned.insert(id.to_owned());
            assert(self@ == old(self)@.after(id@));
            return true;
        }
        if self.order.len() >= self.cap {
            self.evict();
        }
        let ghost roomy = self@;
        self.order.push_back(id.to_owned());
        self.seen.insert(id.to_owned());
        proof {
            assert(self@.window == roomy.window.push(id@));
            assert forall|x: Seq<char>| #[trigger]
                self.seen@.contains(x) <==> self@.window.contains(x) by {
                pushed_contains(roomy.window, id@, x);
            }
        }
        true
    }

    /// Moves the oldest ID out of the window.
    fn evict(&mut self)
        requires
            old(self).wf(),
            old(self)@.window.len() > 0,
        ensures
            final(self).wf(),
            final(self)@ == old(self)@.evicted(),
    {
        proof {
            eviction_keeps_order(self@);
        }
        let ghost before = self@;
        if self.past.len() >= self.cap {
            if let Some(dropped) = self.past.pop_front() {
                assert(dropped@ == before.past[0]);
                self.left.remove(dropped.as_str());
                self.returned.remove(dropped.as_str());
            }
        }
        let ghost shorter = texts(self.past@);
        assert(shorter == if before.past.len() >= before.cap {
            before.past.drop_first()
        } else {
            before.past
        });
        if let Some(evicted) = self.order.pop_front() {
            assert(evicted@ == before.window[0]);
            self.seen.remove(evicted.as_str());
            self.left.insert(evicted.clone());
            let ghost gone = evicted@;
            self.past.push_back(evicted);
            assert(texts(self.past@) == shorter.push(gone));
        }
        assert(texts(self.order@) == before.window.drop_first());
        assert(self@ == before.evicted());
    }
}

/// A message that is redelivered right after it was recorded is recognized.
pub proof fn redelivery_is_recognized(cache: CacheModel, id: Seq<char>)
    requires
        cache.wf(),
        cache.cap > 0,
    ensures
        !cache.after(id).is_new(id),
{
    if cache.is_unknown(id) {
        let after = cache.after(id);
        assert(after.window[after.window.len() - 1] == id);
    }
}

/// Whatever messages came, the window holds exactly the last `cap` distinct IDs:
/// a redelivery is recognized until `cap` younger messages have come.
pub proof fn window_holds_the_newest(cap: nat, ids: Seq<Seq<char>>)
    requires
        cap > 0,
    ensures
        CacheModel::empty(cap).after_all(ids).window == last_n(first_seen(cap, ids), cap),
        CacheModel::empty(cap).after_all(ids).wf(),
        CacheModel::empty(cap).after_all(ids).cap == cap,
    decreases ids.len(),
{
    if ids.len() > 0 {
        window_holds_the_newest(cap, ids.drop_last());
        let before = CacheModel::empty(cap).after_all(ids.drop_last());
        cache_stays_bounded(before, ids.last());
        assert(CacheModel::empty(cap).after_all(ids).window == last_n(first_seen(cap, ids), cap));
    }
}

/// However many messages come, the cache holds at most twice as many IDs as its
/// window may hold: those of the window, and as many again that left it, of which it
/// recognizes those that came back.
pub proof fn cache_holds_at_most_twice_its_window(cap: nat, ids: Seq<Seq<char>>)
    ensures
        ({
            let cache = CacheModel::empty(cap).after_all(ids);
            &&& cache.window.len() <= cap
            &&& cache.past.len() <= cap
            &&& cache.window.len() + cache.past.len() <= 2 * cap
            &&& forall|id: Seq<char>| #[trigger]
                cache.returned.contains(id) ==> cache.past.contains(id)
            &&& forall|id: Seq<char>| #![trigger cache.is_new(id)]
                !cache.is_new(id) ==> cache.window.contains(id) || cache.past.contains(id)
        }),
{
    if cap > 0 {
        window_holds_the_newest(cap, ids);
    } else {
        zero_capacity_disables_deduplication(ids, Seq::empty());
    }
}

/// A message that is too old to be recognized does not displace a younger one.
pub proof fn returning_ids_leave_the_window_alone(cache: CacheModel, id: Seq<char>)
    requires
        cache.past.contains(id),
    ensures
        cache.after(id).window == cache.window,
{
}

/// Without capacity nothing is deduplicated.
pub proof fn zero_capacity_disables_deduplication(ids: Seq<Seq<char>>, id: Seq<char>)
    ensures
        CacheModel::empty(0).after_all(ids).is_new(id),
        CacheModel::empty(0).after_all(ids) == CacheModel::empty(0),
    decreases ids.len(),
{
    if ids.len() > 0 {
        zero_capacity_disables_deduplication(ids.drop_last(), id);
    }
}

/// Everything that the cache holds came in a message.
proof fn held_ids_came(cap: nat, ids: Seq<Seq<char>>, id: Seq<char>)
    ensures
        ({
            let cache = CacheModel::empty(cap).after_all(ids);
            cache.window.contains(id) || cache.past.contains(id) || cache.returned.contains(id)
                ==> ids.contains(id)
        }),
    decreases ids.len(),
{
    if ids.len() > 0 && cap > 0 {
        let shorter = ids.drop_last();
        let last = ids[ids.len() - 1];
        let before = CacheModel::empty(cap).after_all(shorter);
        held_ids_came(cap, shorter, id);
        window_holds_the_newest(cap, shorter);
        if shorter.contains(id) {
            let i = choose|i: int| 0 <= i < shorter.len() && shorter[i] == id;
            assert(ids[i] == id);
        }
        if before.is_unknown(last) {
            let roomy = if before.window.len() >= before.cap {
                eviction_keeps_order(before);
                assert(before.window.contains(before.window[0]));
                before.evicted()
            } else {
                before
            };
            pushed_contains(roomy.window, last, id);
        }
    } else if cap == 0 {
        zero_capacity_disables_deduplication(ids, id);
    }
}

/// A message that never came before is new, whatever came: no message is taken for a
/// redelivery that is none.
pub proof fn unseen_messages_are_new(cap: nat, ids: Seq<Seq<char>>, id: Seq<char>)
    requires
        !ids.contains(id),
    ensures
        CacheModel::empty(cap).after_all(ids).is_new(id),
{
    held_ids_came(cap, ids, id);
}

/// Behind the window, the cache holds those that left it last: of the IDs that were not
/// known when they came, the last `cap` but for those of the window.
pub proof fn past_holds_what_left_the_window(cap: nat, ids: Seq<Seq<char>>)
    requires
        cap > 0,
    ensures
        ({
            let first = first_seen(cap, ids);
            let cache = CacheModel::empty(cap).after_all(ids);
            cache.past == if first.len() <= cap {
                Seq::<Seq<char>>::empty()
            } else {
                last_n(first.take(first.len() - cap), cap)
            }
        }),
    decreases ids.len(),
{
    if ids.len() > 0 {
        let shorter = ids.drop_last();
        let before = CacheModel::empty(cap).after_all(shorter);
        let first = first_seen(cap, shorter);
        past_holds_what_left_the_window(cap, shorter);
        window_holds_the_newest(cap, shorter);
        if before.is_unknown(ids.last()) {
            let more = first.push(ids.last());
            if first.len() >= cap {
                let left = first.take(first.len() - cap);
                assert(before.window[0] == first[first.len() - cap]);
                assert(more.take(more.len() - cap) == left.push(before.window[0]));
                assert(before.past == last_n(left, cap));
                assert(CacheModel::empty(cap).after_all(ids).past == last_n(
                    left.push(before.window[0]),
                    cap,
                ));
            } else {
                assert(CacheModel::empty(cap).after_all(ids).past == Seq::<Seq<char>>::empty());
            }
        }
    }
}

/// An ID enters the window exactly if it is not among the last `2 * cap` that entered it.
pub proof fn only_forgotten_ids_enter_again(cap: nat, ids: Seq<Seq<char>>, id: Seq<char>)
    requires
        cap > 0,
    ensures
        first_seen(cap, ids.push(id)) == if last_n(
            first_seen(cap, ids),
            2 * cap,
        ).contains(id) {
            first_seen(cap, ids)
        } else {
            first_seen(cap, ids).push(id)
        },
        first_seen(cap, Seq::empty()) == Seq::<Seq<char>>::empty(),
{
    let first = first_seen(cap, ids);
    let cache = CacheModel::empty(cap).after_all(ids);
    assert(ids.push(id).drop_last() == ids);
    past_holds_what_left_the_window(cap, ids);
    window_holds_the_newest(cap, ids);
    let both = cache.past + cache.window;
    assert(both == last_n(first, 2 * cap)) by {
        if first.len() > cap {
            let left = first.take(first.len() - cap);
            assert(left + cache.window == first);
        }
    }
    if cache.past.contains(id) {
        let i = choose|i: int| 0 <= i < cache.past.len() && cache.past[i] == id;
        assert(both[i] == id);
    }
    if cache.window.contains(id) {
        let i = choose|i: int| 0 <= i < cache.window.len() && cache.window[i] == id;
        assert(both[cache.past.len() + i] == id);
    }
    if both.contains(id) {
        let i = choose|i: int| 0 <= i < both.len() && both[i] == id;
        if i < cache.past.len() {
            assert(cache.past[i] == id);
        } else {
            assert(cache.window[i - cache.past.len()] == id);
        }
    }
}

/// Message `j` brought an ID back that had left the window, and has been among those that
/// left it last ever since.
pub open spec fn came_back_at(cap: nat, ids: Seq<Seq<char>>, j: int, id: Seq<char>) -> bool {
    &&& 0 <= j < ids.len()
    &&& ids[j] == id
    &&& forall|k: int|
        j <= k <= ids.len() ==> (#[trigger] CacheModel::empty(cap).after_all(
            ids.take(k),
        )).past.contains(id)
}

/// A message is taken for a redelivery exactly if its ID is in the window, or has left it
/// and came back since then.
pub proof fn redeliveries_are_in_the_window_or_came_back(
    cap: nat,
    ids: Seq<Seq<char>>,
    id: Seq<char>,
)
    requires
        cap > 0,
    ensures
        CacheModel::empty(cap).after_all(ids).is_new(id) <==> !last_n(
            first_seen(cap, ids),
            cap,
        ).contains(id) && !(exists|j: int| #[trigger] came_back_at(cap, ids, j, id)),
{
    window_holds_the_newest(cap, ids);
    returned_ids_came_back(cap, ids, id);
}

proof fn returned_ids_came_back(cap: nat, ids: Seq<Seq<char>>, id: Seq<char>)
    requires
        cap > 0,
    ensures
        CacheModel::empty(cap).after_all(ids).returned.contains(id) <==> exists|j: int| #[trigger]
            came_back_at(cap, ids, j, id),
    decreases ids.len(),
{
    if ids.len() > 0 {
        let shorter = ids.drop_last();
        let n = ids.len() as int;
        let fresh = CacheModel::empty(cap);
        let before = fresh.after_all(shorter);
        let after = fresh.after_all(ids);
        returned_ids_came_back(cap, shorter, id);
        window_holds_the_newest(cap, shorter);
        window_holds_the_newest(cap, ids);
        assert(ids.take(n) == ids);
        assert(ids.take(n - 1) == shorter);
        assert forall|k: int| 0 <= k < n implies ids.take(k) == #[trigger] shorter.take(k) by {}
        if before.is_unknown(ids.last()) && before.window.len() >= before.cap {
            eviction_keeps_order(before);
            assert(before.window.contains(before.window[0]));
        }
        if after.returned.contains(id) {
            if ids[n - 1] == id && before.past.contains(id) {
                assert(came_back_at(cap, ids, n - 1, id)) by {
                    assert forall|k: int| n - 1 <= k <= n implies (#[trigger] fresh.after_all(
                        ids.take(k),
                    )).past.contains(id) by {}
                }
            } else {
                assert(before.returned.contains(id));
                let j = choose|j: int| #[trigger] came_back_at(cap, shorter, j, id);
                assert(ids[j] == shorter[j]);
                assert(came_back_at(cap, ids, j, id)) by {
                    assert forall|k: int| j <= k <= n implies (#[trigger] fresh.after_all(
                        ids.take(k),
                    )).past.contains(id) by {
                        if k < n {
                            assert(ids.take(k) == shorter.take(k));
                            assert(fresh.after_all(shorter.take(k)).past.contains(id));
                        }
                    }
                }
            }
        }
        if exists|j: int| #[trigger] came_back_at(cap, ids, j, id) {
            let j = choose|j: int| #[trigger] came_back_at(cap, ids, j, id);
            assert(fresh.after_all(ids.take(n)).past.contains(id));
            assert(fresh.after_all(ids.take(n - 1)).past.contains(id));
            if j < n - 1 {
                assert(shorter[j] == ids[j]);
                assert(came_back_at(cap, shorter, j, id)) by {
                    assert forall|k: int| j <= k <= shorter.len() implies (
                    #[trigger] fresh.after_all(shorter.take(k))).past.contains(id) by {
                        assert(ids.take(k) == shorter.take(k));
                        assert(fresh.after_all(ids.take(k)).past.contains(id));
                    }
                }
                assert(before.returned.contains(id));
                assert(!before.window.contains(id));
            } else {
                assert(!before.window.contains(id));
            }
        }
    }
}

} // verus!
