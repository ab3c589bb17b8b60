//! Per-topic publish throttle with conflation.

use vstd::prelude::*;
use vstd::string::*;

use crate::clock::elapsed;
use crate::clock::time_since;
use crate::clock::Nanos;
use crate::solace::topic_map::entry_map;
use crate::solace::topic_map::entry_map_holds_the_entries;
use crate::solace::topic_map::topics_of;
use crate::solace::topic_map::TopicMap;

verus! {

/// Cap on the number of topics whose publish time is tracked.
pub const MAX_ENTRIES: usize = 100_000;

/// Minimum interval between conflation reports: 60 seconds.
pub const LOG_INTERVAL: Nanos = 60_000_000_000;

/// What the throttle knows.
pub struct WindowModel {
    pub window: Nanos,
    /// Last publish time per topic.
    pub last_sent: Map<Seq<char>, Nanos>,
    /// Latest conflated payload per topic, awaiting window expiry.
    pub pending: Map<Seq<char>, Seq<u8>>,
    /// Conflated records since the last report.
    pub conflated: u64,
    /// When the last report was made.
    pub last_log: Nanos,
    /// A report that is due: how many records were conflated in which time.
    pub report: Option<(u64, Nanos)>,
}

impl WindowModel {
    /// A throttle that has seen nothing.
    pub open spec fn initial(window: Nanos, now: Nanos) -> WindowModel {
        WindowModel {
            window,
            last_sent: Map::empty(),
            pending: Map::empty(),
            conflated: 0,
            last_log: now,
            report: None,
        }
    }

    /// The topic was published less than a window ago.
    pub open spec fn inside(self, topic: Seq<char>, now: Nanos) -> bool {
        self.last_sent.contains_key(topic) && elapsed(self.last_sent[topic], now) < self.window
    }

    /// The trackers of topics that are inside their window.
    pub open spec fn live(self, now: Nanos) -> Map<Seq<char>, Nanos> {
        self.last_sent.restrict(self.last_sent.dom().filter(|t: Seq<char>| self.inside(t, now)))
    }

    /// All trackers must be given up to make room: as many topics as may be
    /// tracked are inside their window.
    pub open spec fn overflows(self, now: Nanos) -> bool {
        self.last_sent.len() >= MAX_ENTRIES && self.live(now).len() >= MAX_ENTRIES
    }

    /// The trackers once room has been made for another topic. Expired ones are
    /// evicted only when the cap is reached; if that is not enough, all of them.
    pub open spec fn capped(self, now: Nanos) -> Map<Seq<char>, Nanos> {
        if self.last_sent.len() < MAX_ENTRIES {
            self.last_sent
        } else if self.overflows(now) {
            Map::empty()
        } else {
            self.live(now)
        }
    }

    /// The throttle after a report of the conflated records, if one is due.
    pub open spec fn logged(self, now: Nanos) -> WindowModel {
        if elapsed(self.last_log, now) >= LOG_INTERVAL {
            WindowModel {
                conflated: 0,
                last_log: now,
                report: Some((self.conflated, elapsed(self.last_log, now))),
                ..self
            }
        } else {
            self
        }
    }

    /// The throttle after a publish to `topic`: a conflated payload for it is
    /// older than what is published and is dropped.
    pub open spec fn sent(self, topic: Seq<char>, now: Nanos) -> WindowModel {
        WindowModel {
            pending: self.pending.remove(topic),
            last_sent: self.capped(now).insert(topic, now),
            ..self
        }
    }

    /// The throttle after a record for `topic`.
    pub open spec fn offered(self, topic: Seq<char>, payload: Seq<u8>, now: Nanos) -> WindowModel {
        if self.inside(topic, now) {
            WindowModel {
                pending: self.pending.insert(topic, payload),
                conflated: (self.conflated + 1) as u64,
                ..self
            }.logged(now)
        } else {
            self.sent(topic, now)
        }
    }

    /// A conflated payload for the topic is due.
    pub open spec fn expired(self, topic: Seq<char>, now: Nanos) -> bool {
        self.pending.contains_key(topic) && !self.inside(topic, now)
    }

    /// The conflated payloads that are due.
    pub open spec fn due(self, now: Nanos) -> Map<Seq<char>, Seq<u8>> {
        Map::new(|t: Seq<char>| self.expired(t, now), |t: Seq<char>| self.pending[t])
    }

    /// The throttle after the payloads that are due have been taken.
    pub open spec fn flushed(self, now: Nanos) -> WindowModel {
        WindowModel {
            pending: Map::new(
                |t: Seq<char>| self.pending.contains_key(t) && self.inside(t, now),
                |t: Seq<char>| self.pending[t],
            ),
            last_sent: Map::new(
                |t: Seq<char>| self.last_sent.contains_key(t) || self.expired(t, now),
                |t: Seq<char>|
                    if self.expired(t, now) {
                        now
                    } else {
                        self.last_sent[t]
                    },
            ),
            ..self
        }
    }
}

/// The payloads of a list of messages, by topic.
pub open spec fn payload_map(messages: Seq<(String, Vec<u8>)>) -> Map<Seq<char>, Seq<u8>> {
    entry_map(messages).map_values(|v: Vec<u8>| v@)
}

/// Per-topic publish throttle with conflation.
///
/// A record whose topic was published less than a window ago is kept back, and
/// only the latest payload per topic is kept. What was kept back is published at
/// a batch boundary once its window has expired. This bounds each topic's
/// outbound rate to one message per window without losing the newest value.
pub struct DedupState {
    window: Nanos,
    last_sent: TopicMap<Nanos>,
    pending: TopicMap<Vec<u8>>,
    conflated_since_log: u64,
    last_log: Nanos,
    report: Option<(u64, Nanos)>,
}

impl View for DedupState {
    type V = WindowModel;

    closed spec fn view(&self) -> WindowModel {
        WindowModel {
            window: self.window,
            last_sent: self.last_sent.map(),
            pending: payload_map(self.pending.walk()),
            conflated: self.conflated_since_log,
            last_log: self.last_log,
            report: self.report,
        }
    }
}

fn copy_bytes(bytes: &[u8]) -> (copy: Vec<u8>)
    ensures
        copy@ == bytes@,
{
    let mut copy: Vec<u8> = Vec::new();
    copy.extend_from_slice(bytes);
    assert(copy@ == bytes@);
    copy
}

impl DedupState {
    pub closed spec fn wf(&self) -> bool {
        self.last_sent.wf() && self.pending.wf()
    }

    pub fn new(window: Nanos, now: Nanos) -> (state: Self)
        ensures
            state.wf(),
            state@ == WindowModel::initial(window, now),
    {
        let state = DedupState {
            window,
            last_sent: TopicMap::new(),
            pending: TopicMap::new(),
            conflated_since_log: 0,
            last_log: now,
            report: None,
        };
        assert(payload_map(state.pending.walk()) == Map::<Seq<char>, Seq<u8>>::empty());
        state
    }

    /// How many topics are tracked.
    pub fn topics(&self) -> (n: usize)
        requires
            self.wf(),
        ensures
            n == self@.last_sent.len(),
    {
        self.last_sent.len()
    }

    /// How many records were conflated since the last report.
    pub fn conflated(&self) -> (n: u64)
        ensures
            n == self@.conflated,
    {
        self.conflated_since_log
    }

    /// Takes the report that is due, if there is one.
    pub fn take_report(&mut self) -> (report: Option<(u64, Nanos)>)
        requires
            old(self).wf(),
        ensures
            final(self).wf(),
            report == old(self)@.report,
            final(self)@ == (WindowModel { report: None, ..old(self)@ }),
    {
        let report = self.report;
        self.report = None;
        report
    }

    fn is_inside(&self, topic: &str, now: Nanos) -> (b: bool)
        requires
            self.wf(),
        ensures
            b == self@.inside(topic@, now),
    {
        match self.last_sent.get(topic) {
            Some(last) => time_since(*last, now) < self.window,
            None => false,
        }
    }

    /// Decides whether a record publishes now (`true`) or is conflated for a
    /// later flush (`false`).
    pub fn should_send(&mut self, topic: &str, payload: &[u8], now: Nanos) -> (send: bool)
        requires
            old(self).wf(),
            old(self)@.conflated < u64::MAX,
        ensures
            final(self).wf(),
            send == !old(self)@.inside(topic@, now),
            final(self)@ == old(self)@.offered(topic@, payload@, now),
    {
        if self.is_inside(topic, now) {
            let kept = copy_bytes(payload);
            self.pending.insert(topic, kept);
            assert(payload_map(self.pending.walk()) == payload_map(old(self).pending.walk()).insert(
                topic@,
                payload@,
            ));
            self.conflated_since_log = self.conflated_since_log + 1;
            self.maybe_log(now);
            return false;
        }
        self.mark_sent(topic, now);
        true
    }

    /// Records a publish and drops any conflated payload for the topic.
    fn mark_sent(&mut self, topic: &str, now: Nanos)
        requires
            old(self).wf(),
        ensures
            final(self).wf(),
            final(self)@ == old(self)@.sent(topic@, now),
    {
        self.pending.remove(topic);
        assert(payload_map(self.pending.walk()) == payload_map(old(self).pending.walk()).remove(
            topic@,
        ));
        let ghost before = self@;
        self.enforce_cap(now);
        assert(before.live(now) == old(self)@.live(now));
        self.last_sent.insert(topic, now);
    }

    /// Bounds the number of tracked topics. Expired trackers are evicted first;
    /// if the cap is still reached, all of them are dropped: the throttle resets,
    /// the next record per topic publishes immediately, and what is conflated
    /// becomes due.
    fn enforce_cap(&mut self, now: Nanos)
        requires
            old(self).wf(),
        ensures
            final(self).wf(),
            final(self)@ == (WindowModel { last_sent: old(self)@.capped(now), ..old(self)@ }),
    {
        if self.last_sent.len() < MAX_ENTRIES {
            return;
        }
        let kept = self.live_trackers(now);
        if kept.len() >= MAX_ENTRIES {
            self.last_sent = TopicMap::new();
        } else {
            self.last_sent = kept;
        }
    }

    /// The trackers of topics that are inside their window.
    fn live_trackers(&self, now: Nanos) -> (kept: TopicMap<Nanos>)
        requires
            self.wf(),
        ensures
            kept.wf(),
            kept.map() == self@.live(now),
    {
        let ghost walk = self.last_sent.walk();
        let ghost all = self.last_sent.map();
        proof {
            self.last_sent.walk_visits_each_topic_once();
            entry_map_holds_the_entries(walk);
        }
        let mut kept: TopicMap<Nanos> = TopicMap::new();
        let n: usize = self.last_sent.len();
        let mut i: usize = 0;
        while i < n
            invariant
                i <= n,
                n == walk.len(),
                self.wf(),
                walk == self.last_sent.walk(),
                all == self.last_sent.map(),
                all == self@.last_sent,
                topics_of(walk).no_duplicates(),
                forall|k: int|
                    0 <= k < walk.len() ==> all.contains_key((#[trigger] walk[k]).0@)
                        && all[walk[k].0@] == walk[k].1,
                kept.wf(),
                forall|t: Seq<char>| #[trigger]
                    kept.map().contains_key(t) <==> self@.inside(t, now) && topics_of(
                        walk.take(i as int),
                    ).contains(t),
                forall|t: Seq<char>| #[trigger]
                    kept.map().contains_key(t) ==> kept.map()[t] == all[t],
            decreases n - i,
        {
            let entry = self.last_sent.entry(i);
            let ghost before = kept.map();
            let ghost t0 = walk[i as int].0@;
            if time_since(entry.1, now) < self.window {
                kept.insert(entry.0.as_str(), entry.1);
            }
            proof {
                let shorter = topics_of(walk.take(i as int));
                let longer = topics_of(walk.take(i + 1));
                assert(longer == shorter.push(t0));
                assert forall|t: Seq<char>| longer.contains(t) <==> (shorter.contains(t) || t
                    == t0) by {
                    if shorter.contains(t) {
                        let k = choose|k: int| 0 <= k < shorter.len() && shorter[k] == t;
                        assert(longer[k] == t);
                    }
                    assert(longer[i as int] == t0);
                    if longer.contains(t) {
                        let k = choose|k: int| 0 <= k < longer.len() && longer[k] == t;
                        if k < i {
                            assert(shorter[k] == t);
                        }
                    }
                }
                assert(all[t0] == entry.1);
            }
            i += 1;
        }
        proof {
            assert(walk.take(n as int) == walk);
            let live = self@.live(now);
            assert forall|t: Seq<char>| kept.map().contains_key(t) <==> live.contains_key(t) by {
                if self@.inside(t, now) {
                    assert(all.dom().contains(t));
                    assert(topics_of(walk).to_set().contains(t));
                }
            }
            assert(kept.map() == live);
        }
        kept
    }

    /// Removes and returns the conflated payloads whose window has expired,
    /// recording `now` as their publish time. No topic occurs twice; the order
    /// of the topics means nothing.
    pub fn take_expired(&mut self, now: Nanos) -> (ready: Vec<(String, Vec<u8>)>)
        requires
            old(self).wf(),
        ensures
            final(self).wf(),
            final(self)@ == old(self)@.flushed(now),
            topics_of(ready@).no_duplicates(),
            payload_map(ready@) == old(self)@.due(now),
    {
        let mut waiting: TopicMap<Vec<u8>> = TopicMap::new();
        std::mem::swap(&mut waiting, &mut self.pending);
        let ghost all = waiting.map();
        let mut entries = waiting.into_entries();
        let ghost walk = entries@;
        let ghost model = old(self)@;
        proof {
            entry_map_holds_the_entries(walk);
            assert(payload_map(walk) == model.pending);
        }
        let mut ready: Vec<(String, Vec<u8>)> = Vec::new();
        let ghost mut n = walk.len() as int;
        while entries.len() > 0
            invariant
                0 <= n <= walk.len(),
                entries@ == walk.take(n),
                self.wf(),
                self.window == model.window,
                self.conflated_since_log == model.conflated,
                self.last_log == model.last_log,
                self.report == model.report,
                model == old(self)@,
                topics_of(walk).no_duplicates(),
                all == entry_map(walk),
                model.pending == payload_map(walk),
                forall|k: int|
                    0 <= k < walk.len() ==> all.contains_key((#[trigger] walk[k]).0@)
                        && all[walk[k].0@] == walk[k].1,
                forall|t: Seq<char>|
                    all.contains_key(t) ==> #[trigger] topics_of(walk).contains(t),
                // What has been walked is either ready or kept.
                topics_of(ready@).no_duplicates(),
                forall|t: Seq<char>| #[trigger]
                    topics_of(ready@).contains(t) <==> model.expired(t, now) && topics_of(
                        walk.skip(n),
                    ).contains(t),
                forall|k: int|
                    0 <= k < ready@.len() ==> all.contains_key((#[trigger] ready@[k]).0@)
                        && all[ready@[k].0@] == ready@[k].1,
                forall|t: Seq<char>| #[trigger]
                    self.pending.map().contains_key(t) <==> all.contains_key(t) && model.inside(
                        t,
                        now,
                    ) && topics_of(walk.skip(n)).contains(t),
                forall|t: Seq<char>| #[trigger]
                    self.pending.map().contains_key(t) ==> self.pending.map()[t] == all[t],
                forall|t: Seq<char>| #[trigger]
                    self.last_sent.map().contains_key(t) <==> model.last_sent.contains_key(t) || (
                    model.expired(t, now) && topics_of(walk.skip(n)).contains(t)),
                forall|t: Seq<char>| #[trigger]
                    self.last_sent.map().contains_key(t) ==> self.last_sent.map()[t] == if (
                    model.expired(t, now) && topics_of(walk.skip(n)).contains(t)) {
                        now
                    } else {
                        model.last_sent[t]
                    },
            decreases entries.len(),
        {
            if let Some((topic, payload)) = entries.pop() {
                let ghost t0 = topic@;
                let ghost later = topics_of(walk.skip(n));
                proof {
                    n = n - 1;
                    assert(entries@ == walk.take(n));
                    assert(walk[n] == (topic, payload));
                    assert(all[t0] == payload);
                    let more = topics_of(walk.skip(n));
                    assert(more == seq![t0] + later);
                    assert forall|t: Seq<char>| more.contains(t) <==> (later.contains(t) || t
                        == t0) by {
                        if later.contains(t) {
                            let k = choose|k: int| 0 <= k < later.len() && later[k] == t;
                            assert(more[k + 1] == t);
                        }
                        assert(more[0] == t0);
                        if more.contains(t) {
                            let k = choose|k: int| 0 <= k < more.len() && more[k] == t;
                            if k > 0 {
                                assert(later[k - 1] == t);
                            }
                        }
                    }
                    assert(!later.contains(t0)) by {
                        if later.contains(t0) {
                            let k = choose|k: int| 0 <= k < later.len() && later[k] == t0;
                            assert(topics_of(walk)[n + 1 + k] == t0);
                            assert(topics_of(walk)[n] == t0);
                        }
                    }
                    assert(model.last_sent.contains_key(t0) <==> self.last_sent.map().contains_key(
                        t0,
                    ));
                }
                let inside = match self.last_sent.get(topic.as_str()) {
                    Some(last) => time_since(*last, now) < self.window,
                    None => false,
                };
                assert(inside == model.inside(t0, now));
                let ghost ready_before = ready@;
                if inside {
                    self.pending.insert(topic.as_str(), payload);
                } else {
                    self.last_sent.insert(topic.as_str(), now);
                    ready.push((topic, payload));
                    proof {
                        assert(model.expired(t0, now));
                        let b = topics_of(ready_before);
                        let a = topics_of(ready@);
                        assert(a == b.push(t0));
                        assert(!b.contains(t0));
                        assert forall|i: int, j: int|
                            0 <= i < a.len() && 0 <= j < a.len() && i != j implies a[i] != a[j] by {
                            if i < b.len() && j < b.len() {
                                assert(b[i] != b[j]);
                            } else if i < b.len() {
                                assert(b.contains(b[i]));
                            } else {
                                assert(b.contains(b[j]));
                            }
                        }
                        assert forall|t: Seq<char>| a.contains(t) <==> (b.contains(t) || t == t0) by {
                            if b.contains(t) {
                                let k = choose|k: int| 0 <= k < b.len() && b[k] == t;
                                assert(a[k] == t);
                            }
                            assert(a[b.len() as int] == t0);
                            if a.contains(t) {
                                let k = choose|k: int| 0 <= k < a.len() && a[k] == t;
                                if k < b.len() {
                                    assert(b[k] == t);
                                }
                            }
                        }
                    }
                }
            }
        }
        proof {
            assert(walk.skip(0) == walk);
            assert(n == 0);
            entry_map_holds_the_entries(ready@);
            let due = model.due(now);
            assert forall|t: Seq<char>| payload_map(ready@).contains_key(t) <==> due.contains_key(
                t,
            ) by {
                if due.contains_key(t) {
                    assert(all.contains_key(t));
                    assert(topics_of(walk).contains(t));
                    assert(topics_of(ready@).contains(t));
                    let k = choose|k: int| 0 <= k < ready@.len() && topics_of(ready@)[k] == t;
                    assert(ready@[k].0@ == t);
                }
                if payload_map(ready@).contains_key(t) {
                    assert(topics_of(ready@).contains(t));
                }
            }
            assert forall|t: Seq<char>| due.contains_key(t) implies payload_map(ready@)[t]
                == due[t] by {
                assert(payload_map(ready@).contains_key(t));
                assert(topics_of(ready@).contains(t));
                let k = choose|k: int| 0 <= k < ready@.len() && topics_of(ready@)[k] == t;
                assert(ready@[k].0@ == t);
            }
            assert(payload_map(ready@) == due);
            let after = model.flushed(now);
            assert forall|t: Seq<char>| after.pending.contains_key(t) <==> payload_map(
                self.pending.walk(),
            ).contains_key(t) by {
                assert(payload_map(self.pending.walk()).contains_key(t)
                    == self.pending.map().contains_key(t));
                if after.pending.contains_key(t) {
                    assert(all.contains_key(t));
                    assert(topics_of(walk).contains(t));
                }
            }
            assert forall|t: Seq<char>| after.pending.contains_key(t) implies payload_map(
                self.pending.walk(),
            )[t] == after.pending[t] by {
                assert(payload_map(self.pending.walk()).contains_key(t));
                assert(self.pending.map().contains_key(t));
                assert(self.pending.map()[t] == all[t]);
                assert(model.pending[t] == all[t]@);
            }
            assert(payload_map(self.pending.walk()) == after.pending);
            assert forall|t: Seq<char>| after.last_sent.contains_key(t)
                <==> self.last_sent.map().contains_key(t) by {
                if model.expired(t, now) {
                    assert(all.contains_key(t));
                    assert(topics_of(walk).contains(t));
                }
            }
            assert(self.last_sent.map() == after.last_sent);
        }
        ready
    }

    /// Makes the report of the conflated records at most once per
    /// [`LOG_INTERVAL`].
    fn maybe_log(&mut self, now: Nanos)
        requires
            old(self).wf(),
        ensures
            final(self).wf(),
            final(self)@ == old(self)@.logged(now),
    {
        let since = time_since(self.last_log, now);
        if since >= LOG_INTERVAL {
            self.report = Some((self.conflated_since_log, since));
            self.conflated_since_log = 0;
            self.last_log = now;
        }
    }
}

/// What can happen to a throttle.
pub enum WindowEvent {
    /// A record arrives for a topic.
    Record { topic: Seq<char>, payload: Seq<u8>, now: Nanos },
    /// What is due is taken, at a batch boundary.
    Flush { now: Nanos },
}

impl WindowEvent {
    pub open spec fn now(self) -> Nanos {
        match self {
            WindowEvent::Record { now, .. } => now,
            WindowEvent::Flush { now } => now,
        }
    }
}

/// The payload of the newest record for `topic`.
pub open spec fn newest(events: Seq<WindowEvent>, topic: Seq<char>) -> Option<Seq<u8>>
    decreases events.len(),
{
    if events.len() == 0 {
        None
    } else {
        match events.last() {
            WindowEvent::Record { topic: t, payload, .. } if t == topic => Some(payload),
            _ => newest(events.drop_last(), topic),
        }
    }
}

/// The clock never goes back.
pub open spec fn in_order(events: Seq<WindowEvent>) -> bool {
    forall|i: int, j: int|
        0 <= i <= j < events.len() ==> (#[trigger] events[i]).now() <= (#[trigger] events[j]).now()
}

impl WindowModel {
    /// The throttle after `event`.
    pub open spec fn after(self, event: WindowEvent) -> WindowModel {
        match event {
            WindowEvent::Record { topic, payload, now } => self.offered(topic, payload, now),
            WindowEvent::Flush { now } => self.flushed(now),
        }
    }

    /// What is published on `event`: the payload per topic.
    pub open spec fn published(self, event: WindowEvent) -> Map<Seq<char>, Seq<u8>> {
        match event {
            WindowEvent::Record { topic, payload, now } => if self.inside(topic, now) {
                Map::empty()
            } else {
                Map::empty().insert(topic, payload)
            },
            WindowEvent::Flush { now } => self.due(now),
        }
    }

    /// The throttle after `events`, in order.
    pub open spec fn after_all(self, events: Seq<WindowEvent>) -> WindowModel
        decreases events.len(),
    {
        if events.len() == 0 {
            self
        } else {
            self.after_all(events.drop_last()).after(events.last())
        }
    }

    /// The last message that is published to `topic` during `events`, with the
    /// time of its publication.
    pub open spec fn last_published(self, events: Seq<WindowEvent>, topic: Seq<char>) -> Option<
        (Seq<u8>, Nanos),
    >
        decreases events.len(),
    {
        if events.len() == 0 {
            None
        } else {
            let before = self.after_all(events.drop_last());
            if before.published(events.last()).contains_key(topic) {
                Some((before.published(events.last())[topic], events.last().now()))
            } else {
                self.last_published(events.drop_last(), topic)
            }
        }
    }

    /// The trackers are never given up during `events` for want of room.
    pub open spec fn never_overflows(self, events: Seq<WindowEvent>) -> bool
        decreases events.len(),
    {
        events.len() > 0 ==> {
            &&& self.never_overflows(events.drop_last())
            &&& events.last() is Record ==> !self.after_all(events.drop_last()).overflows(
                events.last().now(),
            )
        }
    }
}

/// Conflation never loses the newest value of a topic, whatever records arrive
/// and whenever what is due is taken: it is the one that waits, or, if none
/// waits, the one that was published last.
pub proof fn newest_value_is_never_lost(
    window: Nanos,
    start: Nanos,
    events: Seq<WindowEvent>,
    topic: Seq<char>,
)
    ensures
        ({
            let fresh = WindowModel::initial(window, start);
            let state = fresh.after_all(events);
            newest(events, topic) matches Some(payload) ==> if state.pending.contains_key(topic) {
                state.pending[topic] == payload
            } else {
                fresh.last_published(events, topic) matches Some(p) && p.0 == payload
            }
        }),
        ({
            let fresh = WindowModel::initial(window, start);
            newest(events, topic) is None ==> !fresh.after_all(events).pending.contains_key(topic)
        }),
    decreases events.len(),
{
    if events.len() > 0 {
        newest_value_is_never_lost(window, start, events.drop_last(), topic);
    }
}

proof fn trackers_hold_the_publish_times(
    window: Nanos,
    start: Nanos,
    events: Seq<WindowEvent>,
    topic: Seq<char>,
)
    requires
        in_order(events),
        WindowModel::initial(window, start).never_overflows(events),
    ensures
        ({
            let fresh = WindowModel::initial(window, start);
            let state = fresh.after_all(events);
            &&& state.window == window
            &&& fresh.last_published(events, topic) matches Some(p) ==> {
                ||| state.last_sent.contains_key(topic) && state.last_sent[topic] == p.1
                ||| elapsed(p.1, events.last().now()) >= window
            }
            &&& fresh.last_published(events, topic) is Some ==> events.len() > 0
        }),
    decreases events.len(),
{
    if events.len() > 0 {
        let before = events.drop_last();
        assert(in_order(before)) by {
            assert forall|i: int, j: int| 0 <= i <= j < before.len() implies (
            #[trigger] before[i]).now() <= (#[trigger] before[j]).now() by {
                assert(before[i] == events[i] && before[j] == events[j]);
            }
        }
        trackers_hold_the_publish_times(window, start, before, topic);
        if before.len() > 0 {
            assert(events[before.len() - 1].now() <= events[events.len() - 1].now());
            assert(before.last() == events[before.len() - 1]);
        }
    }
}

/// At most one message per topic is published per window, as long as there is
/// room to track the topics: two publications to a topic lie at least a window
/// apart.
pub proof fn at_most_one_publish_per_window(
    window: Nanos,
    start: Nanos,
    events: Seq<WindowEvent>,
    event: WindowEvent,
    topic: Seq<char>,
)
    requires
        in_order(events.push(event)),
        WindowModel::initial(window, start).never_overflows(events),
        WindowModel::initial(window, start).after_all(events).published(event).contains_key(topic),
    ensures
        WindowModel::initial(window, start).last_published(events, topic) matches Some(p)
            ==> event.now() - p.1 >= window,
{
    let all = events.push(event);
    assert(in_order(events)) by {
        assert forall|i: int, j: int| 0 <= i <= j < events.len() implies (
        #[trigger] events[i]).now() <= (#[trigger] events[j]).now() by {
            assert(all[i] == events[i] && all[j] == events[j]);
        }
    }
    trackers_hold_the_publish_times(window, start, events, topic);
    publications_lie_in_the_past(window, start, events, topic);
    if events.len() > 0 {
        assert(all[events.len() - 1].now() <= all[events.len() as int].now());
        assert(all[events.len() - 1] == events.last());
    }
}

proof fn publications_lie_in_the_past(
    window: Nanos,
    start: Nanos,
    events: Seq<WindowEvent>,
    topic: Seq<char>,
)
    requires
        in_order(events),
    ensures
        WindowModel::initial(window, start).last_published(events, topic) matches Some(p)
            ==> events.len() > 0 && p.1 <= events.last().now(),
    decreases events.len(),
{
    if events.len() > 0 {
        let before = events.drop_last();
        assert(in_order(before)) by {
            assert forall|i: int, j: int| 0 <= i <= j < before.len() implies (
            #[trigger] before[i]).now() <= (#[trigger] before[j]).now() by {
                assert(before[i] == events[i] && before[j] == events[j]);
            }
        }
        publications_lie_in_the_past(window, start, before, topic);
        if before.len() > 0 {
            assert(events[before.len() - 1].now() <= events[events.len() - 1].now());
            assert(before.last() == events[before.len() - 1]);
        }
    }
}

/// The topics of the records among the events.
pub open spec fn record_topics(events: Seq<WindowEvent>) -> Set<Seq<char>>
    decreases events.len(),
{
    if events.len() == 0 {
        Set::empty()
    } else {
        match events.last() {
            WindowEvent::Record { topic, .. } => record_topics(events.drop_last()).insert(topic),
            WindowEvent::Flush { .. } => record_topics(events.drop_last()),
        }
    }
}

proof fn only_recorded_topics_are_known(window: Nanos, start: Nanos, events: Seq<WindowEvent>)
    ensures
        record_topics(events).finite(),
        WindowModel::initial(window, start).after_all(events).last_sent.dom().subset_of(
            record_topics(events),
        ),
        WindowModel::initial(window, start).after_all(events).pending.dom().subset_of(
            record_topics(events),
        ),
    decreases events.len(),
{
    if events.len() > 0 {
        only_recorded_topics_are_known(window, start, events.drop_last());
    }
}

/// As long as there are fewer topics than can be tracked, the trackers are never
/// given up for want of room.
pub proof fn few_topics_never_overflow(window: Nanos, start: Nanos, events: Seq<WindowEvent>)
    requires
        record_topics(events).len() < MAX_ENTRIES,
    ensures
        WindowModel::initial(window, start).never_overflows(events),
    decreases events.len(),
{
    if events.len() > 0 {
        let before = events.drop_last();
        let state = WindowModel::initial(window, start).after_all(before);
        only_recorded_topics_are_known(window, start, before);
        only_recorded_topics_are_known(window, start, events);
        vstd::set_lib::lemma_len_subset(record_topics(before), record_topics(events));
        vstd::set_lib::lemma_len_subset(state.last_sent.dom(), record_topics(before));
        few_topics_never_overflow(window, start, before);
    }
}

/// The last publication to a topic is at least as late as any.
proof fn last_publication_is_latest(
    window: Nanos,
    start: Nanos,
    events: Seq<WindowEvent>,
    i: int,
    topic: Seq<char>,
)
    requires
        in_order(events),
        0 <= i < events.len(),
        WindowModel::initial(window, start).after_all(events.take(i)).published(
            events[i],
        ).contains_key(topic),
    ensures
        WindowModel::initial(window, start).last_published(events, topic) matches Some(p)
            && events[i].now() <= p.1,
    decreases events.len(),
{
    let before = events.drop_last();
    assert(events.take(events.len() - 1) == before);
    if i < before.len() {
        assert(in_order(before)) by {
            assert forall|j: int, k: int| 0 <= j <= k < before.len() implies (
            #[trigger] before[j]).now() <= (#[trigger] before[k]).now() by {
                assert(before[j] == events[j] && before[k] == events[k]);
            }
        }
        assert(before.take(i) == events.take(i));
        last_publication_is_latest(window, start, before, i, topic);
        assert(events[i].now() <= events[events.len() - 1].now());
    }
}

/// With fewer topics than can be tracked, any two publications to a topic, by a
/// record or at a batch boundary, lie at least a window apart.
pub proof fn publications_lie_a_window_apart(
    window: Nanos,
    start: Nanos,
    events: Seq<WindowEvent>,
    i: int,
    j: int,
    topic: Seq<char>,
)
    requires
        in_order(events),
        record_topics(events).len() < MAX_ENTRIES,
        0 <= i < j < events.len(),
        WindowModel::initial(window, start).after_all(events.take(i)).published(
            events[i],
        ).contains_key(topic),
        WindowModel::initial(window, start).after_all(events.take(j)).published(
            events[j],
        ).contains_key(topic),
    ensures
        events[j].now() - events[i].now() >= window,
{
    let before = events.take(j);
    let upto = before.push(events[j]);
    assert forall|a: int, b: int| 0 <= a <= b < upto.len() implies (#[trigger] upto[a]).now() <= (
    #[trigger] upto[b]).now() by {
        assert(upto[a] == events[a] && upto[b] == events[b]);
    }
    assert forall|a: int, b: int| 0 <= a <= b < before.len() implies (#[trigger] before[a]).now()
        <= (#[trigger] before[b]).now() by {
        assert(before[a] == events[a] && before[b] == events[b]);
    }
    fewer_events_have_fewer_topics(window, start, events, j);
    few_topics_never_overflow(window, start, before);
    at_most_one_publish_per_window(window, start, before, events[j], topic);
    assert(before.take(i) == events.take(i));
    last_publication_is_latest(window, start, before, i, topic);
}

proof fn fewer_events_have_fewer_topics(
    window: Nanos,
    start: Nanos,
    events: Seq<WindowEvent>,
    n: int,
)
    requires
        0 <= n <= events.len(),
    ensures
        record_topics(events.take(n)).len() <= record_topics(events).len(),
    decreases events.len(),
{
    if n < events.len() {
        let before = events.drop_last();
        assert(before.take(n) == events.take(n));
        fewer_events_have_fewer_topics(window, start, before, n);
        only_recorded_topics_are_known(window, start, events);
        vstd::set_lib::lemma_len_subset(record_topics(before), record_topics(events));
    } else {
        assert(events.take(n) == events);
    }
}

/// The events that concern `topic`: its own records, and what is taken at batch
/// boundaries.
pub open spec fn concerning(events: Seq<WindowEvent>, topic: Seq<char>) -> Seq<WindowEvent>
    decreases events.len(),
{
    if events.len() == 0 {
        Seq::empty()
    } else {
        let before = concerning(events.drop_last(), topic);
        match events.last() {
            WindowEvent::Record { topic: t, .. } if t != topic => before,
            event => before.push(event),
        }
    }
}

impl WindowModel {
    /// The two throttles treat `topic` alike from `now` on.
    pub open spec fn agrees_on(self, other: WindowModel, topic: Seq<char>, now: Nanos) -> bool {
        &&& self.pending.contains_key(topic) <==> other.pending.contains_key(topic)
        &&& self.pending.contains_key(topic) ==> self.pending[topic] == other.pending[topic]
        &&& forall|later: Nanos|
            later >= now ==> (#[trigger] self.inside(topic, later) <==> other.inside(topic, later))
    }
}

proof fn record_for_another_topic(
    state: WindowModel,
    alone: WindowModel,
    topic: Seq<char>,
    other: Seq<char>,
    payload: Seq<u8>,
    now: Nanos,
    earlier: Nanos,
)
    requires
        state.agrees_on(alone, topic, earlier),
        earlier <= now,
        other != topic,
        !state.overflows(now),
    ensures
        state.offered(other, payload, now).agrees_on(alone, topic, now),
{
    let after = state.offered(other, payload, now);
    assert forall|later: Nanos| later >= now implies (#[trigger] after.inside(topic, later)
        <==> alone.inside(topic, later)) by {
        assert(state.inside(topic, later) <==> alone.inside(topic, later));
        if !state.inside(other, now) && state.last_sent.len() >= MAX_ENTRIES {
            assert(after.last_sent == state.live(now).insert(other, now));
            assert(state.live(now).contains_key(topic) <==> state.inside(topic, now));
        }
    }
}

/// What happens to one topic does not depend on records for other topics, as long
/// as there is room to track the topics: it is published, and kept back, as if its
/// own records were the only ones.
pub proof fn topics_do_not_affect_each_other(
    window: Nanos,
    start: Nanos,
    events: Seq<WindowEvent>,
    event: WindowEvent,
    topic: Seq<char>,
)
    requires
        in_order(events.push(event)),
        WindowModel::initial(window, start).never_overflows(events),
    ensures
        ({
            let fresh = WindowModel::initial(window, start);
            let state = fresh.after_all(events);
            let alone = fresh.after_all(concerning(events, topic));
            &&& state.agrees_on(alone, topic, event.now())
            &&& if event matches WindowEvent::Record { topic: t, .. } && t != topic {
                !state.published(event).contains_key(topic)
            } else {
                &&& state.published(event).contains_key(topic) <==> alone.published(
                    event,
                ).contains_key(topic)
                &&& state.published(event).contains_key(topic) ==> state.published(event)[topic]
                    == alone.published(event)[topic]
            }
        }),
{
    let all = events.push(event);
    assert forall|i: int, j: int| 0 <= i <= j < events.len() implies (#[trigger] events[i]).now()
        <= (#[trigger] events[j]).now() by {
        assert(all[i] == events[i] && all[j] == events[j]);
    }
    if events.len() > 0 {
        assert(all[events.len() - 1].now() <= all[events.len() as int].now());
        assert(all[events.len() - 1] == events.last());
    }
    topics_agree(window, start, events, topic);
    let fresh = WindowModel::initial(window, start);
    let state = fresh.after_all(events);
    let alone = fresh.after_all(concerning(events, topic));
    assert(state.inside(topic, event.now()) <==> alone.inside(topic, event.now()));
}

proof fn topics_agree(window: Nanos, start: Nanos, events: Seq<WindowEvent>, topic: Seq<char>)
    requires
        in_order(events),
        WindowModel::initial(window, start).never_overflows(events),
    ensures
        WindowModel::initial(window, start).after_all(events).agrees_on(
            WindowModel::initial(window, start).after_all(concerning(events, topic)),
            topic,
            if events.len() > 0 {
                events.last().now()
            } else {
                0
            },
        ),
    decreases events.len(),
{
    if events.len() > 0 {
        let fresh = WindowModel::initial(window, start);
        let before = events.drop_last();
        let event = events.last();
        let now = event.now();
        let earlier: Nanos = if before.len() > 0 {
            before.last().now()
        } else {
            0
        };
        assert forall|i: int, j: int| 0 <= i <= j < before.len() implies (
        #[trigger] before[i]).now() <= (#[trigger] before[j]).now() by {
            assert(before[i] == events[i] && before[j] == events[j]);
        }
        if before.len() > 0 {
            assert(events[before.len() - 1].now() <= events[events.len() - 1].now());
            assert(before.last() == events[before.len() - 1]);
        }
        topics_agree(window, start, before, topic);
        let state = fresh.after_all(before);
        let own = concerning(before, topic);
        let alone = fresh.after_all(own);
        windows_stay(window, start, before);
        windows_stay(window, start, own);
        assert(own.push(event).drop_last() == own);
        assert(state.inside(topic, now) <==> alone.inside(topic, now));
        match event {
            WindowEvent::Record { topic: t, payload, now: _ } => {
                if t != topic {
                    record_for_another_topic(state, alone, topic, t, payload, now, earlier);
                } else {
                    let x = state.offered(topic, payload, now);
                    let y = alone.offered(topic, payload, now);
                    assert forall|later: Nanos| later >= now implies (#[trigger] x.inside(
                        topic,
                        later,
                    ) <==> y.inside(topic, later)) by {
                        assert(state.inside(topic, later) <==> alone.inside(topic, later));
                    }
                }
            },
            WindowEvent::Flush { now: _ } => {
                let x = state.flushed(now);
                let y = alone.flushed(now);
                assert forall|later: Nanos| later >= now implies (#[trigger] x.inside(topic, later)
                    <==> y.inside(topic, later)) by {
                    assert(state.inside(topic, later) <==> alone.inside(topic, later));
                }
            },
        }
    }
}

proof fn windows_stay(window: Nanos, start: Nanos, events: Seq<WindowEvent>)
    ensures
        WindowModel::initial(window, start).after_all(events).window == window,
    decreases events.len(),
{
    if events.len() > 0 {
        windows_stay(window, start, events.drop_last());
    }
}

/// Once what is due has been taken, nothing is due at that time, and every topic
/// that still waits is inside its window.
pub proof fn taking_leaves_nothing_due(state: WindowModel, now: Nanos)
    ensures
        state.flushed(now).due(now) == Map::<Seq<char>, Seq<u8>>::empty(),
{
    let after = state.flushed(now);
    assert forall|t: Seq<char>| !after.expired(t, now) by {
        if after.pending.contains_key(t) {
            assert(state.inside(t, now));
            assert(!state.expired(t, now));
            assert(after.last_sent.contains_key(t));
        }
    }
    assert(after.due(now) == Map::<Seq<char>, Seq<u8>>::empty());
}

/// A throttle that must give up its trackers keeps what it holds back, and all of
/// that is due at once but for the topic that is being published.
pub proof fn resetting_the_throttle_keeps_what_waits(
    state: WindowModel,
    topic: Seq<char>,
    payload: Seq<u8>,
    now: Nanos,
    other: Seq<char>,
)
    requires
        state.overflows(now),
        !state.inside(topic, now),
        other != topic,
        state.pending.contains_key(other),
    ensures
        state.offered(topic, payload, now).due(now).contains_key(other),
        state.offered(topic, payload, now).due(now)[other] == state.pending[other],
{
}

/// Messages to different topics stand for their payloads, each under its own topic.
pub proof fn messages_stand_for_their_payloads(messages: Seq<(String, Vec<u8>)>, topic: Seq<char>)
    requires
        topics_of(messages).no_duplicates(),
    ensures
        topics_of(messages).len() == messages.len(),
        forall|i: int|
            0 <= i < messages.len() ==> #[trigger] topics_of(messages)[i] == messages[i].0@,
        forall|i: int|
            0 <= i < messages.len() ==> payload_map(messages).contains_key(
                (#[trigger] messages[i]).0@,
            ) && payload_map(messages)[messages[i].0@] == messages[i].1@,
        payload_map(messages).contains_key(topic) ==> topics_of(messages).contains(topic),
{
    entry_map_holds_the_entries(messages);
}

} // verus!
