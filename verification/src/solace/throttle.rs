//! What the per-topic throttle promises: when a record is published, when it waits, and
//! what becomes of it.

use vstd::prelude::*;

use crate::clock::Nanos;
use crate::solace::window::in_order;
use crate::solace::window::newest;
use crate::solace::window::newest_value_is_never_lost;
use crate::solace::window::publications_lie_a_window_apart;
use crate::solace::window::record_topics;
use crate::solace::window::WindowEvent;
use crate::solace::window::WindowModel;

verus! {

/// Event `i` publishes something to `topic`, in a run that begins with an empty throttle.
pub open spec fn publishes_at(
    window: Nanos,
    start: Nanos,
    events: Seq<WindowEvent>,
    i: int,
    topic: Seq<char>,
) -> bool {
    0 <= i < events.len() && WindowModel::initial(window, start).after_all(
        events.take(i),
    ).published(events[i]).contains_key(topic)
}

/// What holds of the events up to one more holds of that one and of those before it.
proof fn one_more_event(
    window: Nanos,
    start: Nanos,
    events: Seq<WindowEvent>,
    event: WindowEvent,
    topic: Seq<char>,
)
    ensures
        forall|i: int|
            0 <= i < events.len() ==> (#[trigger] publishes_at(
                window,
                start,
                events.push(event),
                i,
                topic,
            ) <==> publishes_at(window, start, events, i, topic)),
        publishes_at(window, start, events.push(event), events.len() as int, topic)
            <==> WindowModel::initial(window, start).after_all(events).published(
            event,
        ).contains_key(topic),
        WindowModel::initial(window, start).after_all(events.push(event)) == WindowModel::initial(
            window,
            start,
        ).after_all(events).after(event),
{
    let more = events.push(event);
    assert(more.drop_last() == events);
    assert(more.take(events.len() as int) == events);
    assert forall|i: int| 0 <= i < events.len() implies (#[trigger] publishes_at(
        window,
        start,
        more,
        i,
        topic,
    ) <==> publishes_at(window, start, events, i, topic)) by {
        assert(more.take(i) == events.take(i));
    }
}

/// A tracker holds the time of a publication.
proof fn trackers_are_publications(
    window: Nanos,
    start: Nanos,
    events: Seq<WindowEvent>,
    topic: Seq<char>,
) -> (i: int)
    ensures
        ({
            let state = WindowModel::initial(window, start).after_all(events);
            state.last_sent.contains_key(topic) ==> publishes_at(window, start, events, i, topic)
                && events[i].now() == state.last_sent[topic]
        }),
        WindowModel::initial(window, start).after_all(events).window == window,
    decreases events.len(),
{
    if events.len() == 0 {
        0
    } else {
        let before = events.drop_last();
        let event = events.last();
        assert(before.push(event) == events);
        let i = trackers_are_publications(window, start, before, topic);
        one_more_event(window, start, before, event, topic);
        let state = WindowModel::initial(window, start).after_all(before);
        let after = state.after(event);
        if state.published(event).contains_key(topic) {
            before.len() as int
        } else {
            if after.last_sent.contains_key(topic) {
                assert(state.last_sent.contains_key(topic));
                assert(publishes_at(window, start, before, i, topic));
                assert(publishes_at(window, start, events, i, topic));
                assert(events[i] == before[i]);
            }
            i
        }
    }
}

/// A topic is inside its window exactly if something was published to it less than a
/// window ago.
proof fn inside_is_published_lately(
    window: Nanos,
    start: Nanos,
    events: Seq<WindowEvent>,
    event: WindowEvent,
    topic: Seq<char>,
)
    requires
        in_order(events.push(event)),
        record_topics(events.push(event)).len() < 100_000,
        event matches WindowEvent::Record { topic: t, .. } ==> t == topic,
    ensures
        WindowModel::initial(window, start).after_all(events).inside(topic, event.now())
            <==> exists|i: int| #[trigger]
            publishes_at(window, start, events, i, topic) && event.now() - events[i].now()
                < window,
{
    let all = events.push(event);
    let state = WindowModel::initial(window, start).after_all(events);
    let now = event.now();
    one_more_event(window, start, events, event, topic);
    if state.inside(topic, now) {
        let i = trackers_are_publications(window, start, events, topic);
        assert(all[i] == events[i]);
        assert(all[events.len() as int] == event);
        assert(all[i].now() <= all[events.len() as int].now());
        assert(publishes_at(window, start, events, i, topic));
    } else {
        assert forall|i: int| #[trigger]
            publishes_at(window, start, events, i, topic) implies event.now() - events[i].now()
            >= window by {
            // A record published here and now would lie a window behind it.
            let probe = WindowEvent::Record { topic, payload: Seq::empty(), now };
            let with = events.push(probe);
            assert forall|a: int, b: int| 0 <= a <= b < with.len() implies (
            #[trigger] with[a]).now() <= (#[trigger] with[b]).now() by {
                assert(with[a].now() == all[a].now() && with[b].now() == all[b].now());
            }
            one_more_event(window, start, events, probe, topic);
            assert(with.drop_last() == events && all.drop_last() == events);
            known_topics_stay_few(events, event, topic, i, window, start);
            assert(publishes_at(window, start, with, i, topic));
            assert(publishes_at(window, start, with, events.len() as int, topic));
            publications_lie_a_window_apart(window, start, with, i, events.len() as int, topic);
        }
    }
}

/// A topic that something was published to is a topic of a record.
proof fn known_topics_stay_few(
    events: Seq<WindowEvent>,
    event: WindowEvent,
    topic: Seq<char>,
    i: int,
    window: Nanos,
    start: Nanos,
)
    requires
        record_topics(events.push(event)).len() < 100_000,
        publishes_at(window, start, events, i, topic),
    ensures
        record_topics(
            events.push(WindowEvent::Record { topic, payload: Seq::empty(), now: event.now() }),
        ).len() < 100_000,
{
    let probe = WindowEvent::Record { topic, payload: Seq::empty(), now: event.now() };
    assert(events.push(probe).drop_last() == events);
    assert(events.push(event).drop_last() == events);
    published_topics_are_recorded(window, start, events, topic, i);
    assert(record_topics(events).insert(topic) == record_topics(events));
    recorded_topics_are_finite(events);
    recorded_topics_are_finite(events.push(event));
    vstd::set_lib::lemma_len_subset(record_topics(events), record_topics(events.push(event)));
}

proof fn recorded_topics_are_finite(events: Seq<WindowEvent>)
    ensures
        record_topics(events).finite(),
    decreases events.len(),
{
    if events.len() > 0 {
        recorded_topics_are_finite(events.drop_last());
    }
}

proof fn waiting_topics_are_recorded(
    window: Nanos,
    start: Nanos,
    events: Seq<WindowEvent>,
    topic: Seq<char>,
)
    ensures
        WindowModel::initial(window, start).after_all(events).pending.contains_key(topic)
            ==> record_topics(events).contains(topic),
    decreases events.len(),
{
    if events.len() > 0 {
        waiting_topics_are_recorded(window, start, events.drop_last(), topic);
    }
}

proof fn published_topics_are_recorded(
    window: Nanos,
    start: Nanos,
    events: Seq<WindowEvent>,
    topic: Seq<char>,
    i: int,
)
    requires
        publishes_at(window, start, events, i, topic),
    ensures
        record_topics(events).contains(topic),
    decreases events.len(),
{
    let before = events.drop_last();
    assert(before.push(events.last()) == events);
    one_more_event(window, start, before, events.last(), topic);
    if i < before.len() {
        assert(publishes_at(window, start, before, i, topic));
        published_topics_are_recorded(window, start, before, topic, i);
    } else {
        waiting_topics_are_recorded(window, start, before, topic);
    }
}

/// A record is published, with its own payload and to its own topic alone, exactly if
/// everything that was published to that topic lies at least a window back. Otherwise
/// nothing is published. This holds as long as there are fewer than 100,000 topics.
pub proof fn records_wait_exactly_within_the_window(
    window: Nanos,
    start: Nanos,
    events: Seq<WindowEvent>,
    topic: Seq<char>,
    payload: Seq<u8>,
    now: Nanos,
)
    requires
        in_order(events.push(WindowEvent::Record { topic, payload, now })),
        record_topics(events.push(WindowEvent::Record { topic, payload, now })).len() < 100_000,
    ensures
        WindowModel::initial(window, start).after_all(events).published(
            WindowEvent::Record { topic, payload, now },
        ) == if forall|i: int| #[trigger]
            publishes_at(window, start, events, i, topic) ==> now - events[i].now() >= window {
            Map::<Seq<char>, Seq<u8>>::empty().insert(topic, payload)
        } else {
            Map::<Seq<char>, Seq<u8>>::empty()
        },
{
    inside_is_published_lately(
        window,
        start,
        events,
        WindowEvent::Record { topic, payload, now },
        topic,
    );
}

/// Event `k` is a record for `topic` that was not published, and nothing has been
/// published to the topic since.
pub open spec fn waits_since(
    window: Nanos,
    start: Nanos,
    events: Seq<WindowEvent>,
    k: int,
    topic: Seq<char>,
) -> bool {
    &&& 0 <= k < events.len()
    &&& events[k] matches WindowEvent::Record { topic: t, .. } && t == topic
    &&& forall|i: int| k <= i < events.len() ==> !#[trigger] publishes_at(
        window,
        start,
        events,
        i,
        topic,
    )
}

/// A payload waits exactly if a record came that was not published, nor anything since.
proof fn waiting_payloads_were_held(
    window: Nanos,
    start: Nanos,
    events: Seq<WindowEvent>,
    topic: Seq<char>,
)
    ensures
        WindowModel::initial(window, start).after_all(events).pending.contains_key(topic)
            <==> exists|k: int| #[trigger] waits_since(window, start, events, k, topic),
    decreases events.len(),
{
    if events.len() > 0 {
        let before = events.drop_last();
        let event = events.last();
        let n = before.len() as int;
        assert(before.push(event) == events);
        waiting_payloads_were_held(window, start, before, topic);
        one_more_event(window, start, before, event, topic);
        let state = WindowModel::initial(window, start).after_all(before);
        if state.after(event).pending.contains_key(topic) {
            assert(!publishes_at(window, start, events, n, topic));
            if state.pending.contains_key(topic) {
                let k = choose|k: int| #[trigger] waits_since(window, start, before, k, topic);
                assert(events[k] == before[k]);
                assert(waits_since(window, start, events, k, topic)) by {
                    assert forall|i: int| k <= i < events.len() implies !#[trigger] publishes_at(
                        window,
                        start,
                        events,
                        i,
                        topic,
                    ) by {
                        if i < n {
                            assert(!publishes_at(window, start, before, i, topic));
                        }
                    }
                }
            } else {
                assert(events[n] == event);
                assert(waits_since(window, start, events, n, topic));
            }
        }
        if exists|k: int| #[trigger] waits_since(window, start, events, k, topic) {
            let k = choose|k: int| #[trigger] waits_since(window, start, events, k, topic);
            assert(!publishes_at(window, start, events, n, topic));
            if k < n {
                assert(events[k] == before[k]);
                assert(waits_since(window, start, before, k, topic)) by {
                    assert forall|i: int| k <= i < before.len() implies !#[trigger] publishes_at(
                        window,
                        start,
                        before,
                        i,
                        topic,
                    ) by {
                        assert(!publishes_at(window, start, events, i, topic));
                    }
                }
                assert(state.pending.contains_key(topic));
            } else {
                assert(events[n] == event);
            }
        }
    }
}

/// At a batch boundary exactly those topics are published to for which a record waits and
/// of which everything published lies at least a window back. What is published is the
/// payload of the newest record for the topic. This holds as long as there are fewer than
/// 100,000 topics.
pub proof fn boundaries_publish_what_waits_beyond_the_window(
    window: Nanos,
    start: Nanos,
    events: Seq<WindowEvent>,
    now: Nanos,
    topic: Seq<char>,
)
    requires
        in_order(events.push(WindowEvent::Flush { now })),
        record_topics(events).len() < 100_000,
    ensures
        ({
            let state = WindowModel::initial(window, start).after_all(events);
            let published = state.published(WindowEvent::Flush { now });
            &&& published.contains_key(topic) <==> (exists|k: int| #[trigger]
                waits_since(window, start, events, k, topic)) && (forall|i: int| #[trigger]
                publishes_at(window, start, events, i, topic) ==> now - events[i].now() >= window)
            &&& published.contains_key(topic) ==> newest(events, topic) == Some(published[topic])
        }),
{
    let flush = WindowEvent::Flush { now };
    assert(events.push(flush).drop_last() == events);
    inside_is_published_lately(window, start, events, flush, topic);
    waiting_payloads_were_held(window, start, events, topic);
    newest_value_is_never_lost(window, start, events, topic);
}

/// A topic is inside its window exactly if its tracker is younger than the window. A
/// tracker that lies ahead of the clock has no age.
pub proof fn trackers_tell_who_is_inside(state: WindowModel, topic: Seq<char>, now: Nanos)
    ensures
        state.inside(topic, now) <==> state.last_sent.contains_key(topic) && if now
            >= state.last_sent[topic] {
            now < state.last_sent[topic] + state.window
        } else {
            state.window > 0
        },
{
}

/// A record inside the window takes the place of what waits for its topic and is counted
/// as conflated; nothing else about the topics changes. The count is reported once at
/// least 60 seconds have passed since the last report, and then starts again. A record
/// outside the window changes neither the count nor the report.
pub proof fn conflated_records_are_counted(
    state: WindowModel,
    topic: Seq<char>,
    payload: Seq<u8>,
    now: Nanos,
)
    requires
        state.conflated < u64::MAX,
    ensures
        ({
            let after = state.offered(topic, payload, now);
            let due = now >= state.last_log + 60_000_000_000;
            &&& after.window == state.window
            &&& state.inside(topic, now) ==> {
                &&& after.pending == state.pending.insert(topic, payload)
                &&& after.last_sent == state.last_sent
                &&& due ==> after.conflated == 0 && after.last_log == now && after.report == Some(
                    ((state.conflated + 1) as u64, (now - state.last_log) as u128),
                )
                &&& !due ==> after.conflated == state.conflated + 1 && after.last_log
                    == state.last_log && after.report == state.report
            }
            &&& !state.inside(topic, now) ==> {
                &&& after.pending == state.pending.remove(topic)
                &&& after.last_sent.contains_key(topic)
                &&& after.last_sent[topic] == now
                &&& after.conflated == state.conflated
                &&& after.last_log == state.last_log
                &&& after.report == state.report
            }
        }),
{
}

/// A record that is published is tracked. For that, trackers of other topics are given up
/// only when 100,000 topics are tracked: then those that are outside their window, and all
/// of them if 100,000 are inside. So there are never more than 100,000 trackers after it.
pub proof fn trackers_are_given_up_only_for_want_of_room(
    state: WindowModel,
    topic: Seq<char>,
    payload: Seq<u8>,
    now: Nanos,
    other: Seq<char>,
)
    requires
        state.last_sent.dom().finite(),
        !state.inside(topic, now),
        other != topic,
    ensures
        ({
            let after = state.offered(topic, payload, now).last_sent;
            let inside = state.last_sent.dom().filter(|t: Seq<char>| state.inside(t, now)).len();
            &&& after.contains_key(other) <==> state.last_sent.contains_key(other) && (
            state.last_sent.dom().len() < 100_000 || (inside < 100_000 && state.inside(
                other,
                now,
            )))
            &&& after.contains_key(other) ==> after[other] == state.last_sent[other]
            &&& after.dom().len() <= 100_000
        }),
{
    let kept = state.last_sent.dom().filter(|t: Seq<char>| state.inside(t, now));
    assert(state.live(now).dom() == kept);
    state.last_sent.dom().lemma_len_filter(|t: Seq<char>| state.inside(t, now));
    let capped = state.capped(now);
    assert(capped.dom().finite());
    assert(capped.dom().len() < 100_000);
    assert(capped.insert(topic, now).dom() == capped.dom().insert(topic));
}

/// At a batch boundary exactly those payloads are taken that wait outside their window;
/// these topics are tracked as of now. All other payloads go on waiting, all other
/// trackers stay, and nothing is counted.
pub proof fn boundaries_take_exactly_what_is_due(
    state: WindowModel,
    now: Nanos,
    topic: Seq<char>,
)
    ensures
        ({
            let taken = state.due(now);
            let after = state.flushed(now);
            let due = state.pending.contains_key(topic) && !state.inside(topic, now);
            &&& taken.contains_key(topic) <==> due
            &&& due ==> taken[topic] == state.pending[topic]
            &&& after.pending.contains_key(topic) <==> state.pending.contains_key(topic) && !due
            &&& after.pending.contains_key(topic) ==> after.pending[topic] == state.pending[topic]
            &&& after.last_sent.contains_key(topic) <==> state.last_sent.contains_key(topic) || due
            &&& due ==> after.last_sent[topic] == now
            &&& state.last_sent.contains_key(topic) && !due ==> after.last_sent[topic]
                == state.last_sent[topic]
            &&& after.window == state.window
            &&& after.conflated == state.conflated
            &&& after.last_log == state.last_log
            &&& after.report == state.report
        }),
{
}

} // verus!
