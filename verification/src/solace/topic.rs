//! Decomposition of destination topics into named captures.

use vstd::prelude::*;
use vstd::string::*;

use crate::text::chars_of;
use crate::text::slice_text;
use crate::text::split;
use crate::text::split_text;
use crate::text::texts;

verus! {

/// The name that the pattern segment captures: what stands between the braces
/// of `{name}`. A segment without braces, or with nothing between them,
/// captures nothing.
pub open spec fn capture_name(segment: Seq<char>) -> Option<Seq<char>> {
    if segment.len() > 2 && segment[0] == '{' && segment.last() == '}' {
        Some(segment.subrange(1, segment.len() - 1))
    } else {
        None
    }
}

/// The captures of the first `n` pattern segments, in order.
pub open spec fn captures_of(
    segments: Seq<Seq<char>>,
    levels: Seq<Seq<char>>,
    n: nat,
) -> Seq<(Seq<char>, Seq<char>)>
    decreases n,
{
    if n == 0 {
        Seq::empty()
    } else {
        let before = captures_of(segments, levels, (n - 1) as nat);
        match capture_name(segments[n - 1]) {
            Some(name) => before.push((name, levels[n - 1])),
            None => before,
        }
    }
}

/// The captures of `topic` under `pattern`: each `{name}` segment of the pattern
/// captures the topic level at the same place. Levels beyond the shorter of the
/// two are ignored.
pub open spec fn topic_captures(pattern: Seq<char>, topic: Seq<char>) -> Seq<
    (Seq<char>, Seq<char>),
> {
    let segments = split(pattern, '/');
    let levels = split(topic, '/');
    captures_of(
        segments,
        levels,
        if segments.len() <= levels.len() {
            segments.len()
        } else {
            levels.len()
        },
    )
}

/// The texts of a list of pairs of strings.
pub open spec fn text_pairs(v: Seq<(String, String)>) -> Seq<(Seq<char>, Seq<char>)> {
    Seq::new(v.len(), |i: int| (v[i].0@, v[i].1@))
}

fn segment_name(segment: &str) -> (name: Option<String>)
    ensures
        match name {
            Some(s) => capture_name(segment@) == Some(s@),
            None => capture_name(segment@) is None,
        },
{
    let chars = chars_of(segment);
    if chars.len() > 2 && chars[0] == '{' && chars[chars.len() - 1] == '}' {
        Some(slice_text(&chars, 1, chars.len() - 1))
    } else {
        None
    }
}

/// Extracts named captures from a Solace destination topic using a pattern.
///
/// The pattern `demo/events/{region}/{event_type}` captures from the topic
/// `demo/events/us-east/order` the pairs `("region", "us-east")` and
/// `("event_type", "order")`. Segments without braces are static and produce no
/// captures.
pub fn parse_topic_fields(pattern: &str, topic: &str) -> (fields: Vec<(String, String)>)
    ensures
        text_pairs(fields@) == topic_captures(pattern@, topic@),
{
    let segments = split_text(pattern, '/');
    let levels = split_text(topic, '/');
    let mut fields: Vec<(String, String)> = Vec::new();
    let mut i: usize = 0;
    while i < segments.len() && i < levels.len()
        invariant
            i <= segments.len(),
            i <= levels.len(),
            text_pairs(fields@) == captures_of(texts(segments@), texts(levels@), i as nat),
        decreases segments.len() - i,
    {
        let name = segment_name(segments[i].as_str());
        assert(texts(segments@)[i as int] == segments@[i as int]@);
        assert(texts(levels@)[i as int] == levels@[i as int]@);
        let ghost before = text_pairs(fields@);
        if let Some(name) = name {
            fields.push((name, levels[i].clone()));
            assert(text_pairs(fields@) == before.push((name@, levels@[i as int]@)));
        }
        i += 1;
    }
    fields
}

/// A static pattern captures nothing.
pub proof fn static_patterns_capture_nothing(pattern: Seq<char>, topic: Seq<char>)
    requires
        !pattern.contains('{'),
    ensures
        topic_captures(pattern, topic) == Seq::<(Seq<char>, Seq<char>)>::empty(),
{
    let segments = split(pattern, '/');
    let levels = split(topic, '/');
    let n = if segments.len() <= levels.len() {
        segments.len()
    } else {
        levels.len()
    };
    assert forall|i: int, j: int|
        0 <= i < segments.len() && 0 <= j < segments[i].len() implies #[trigger] segments[i][j]
        != '{' by {
        split_keeps_characters(pattern, '/', i, j);
    }
    nothing_captured(segments, levels, n);
}

/// Every character of a piece is a character of the text.
proof fn split_keeps_characters(s: Seq<char>, sep: char, i: int, j: int)
    requires
        0 <= i < split(s, sep).len(),
        0 <= j < split(s, sep)[i].len(),
    ensures
        s.contains(split(s, sep)[i][j]),
    decreases s.len(),
{
    if s.len() > 0 {
        let shorter = s.drop_last();
        let before = split(shorter, sep);
        let c = split(s, sep)[i][j];
        crate::text::split_is_not_empty(shorter, sep);
        if s.last() != sep && i == before.len() - 1 && j == before.last().len() {
            assert(s[s.len() - 1] == c);
        } else {
            split_keeps_characters(shorter, sep, i, j);
            let k = choose|k: int| 0 <= k < shorter.len() && shorter[k] == c;
            assert(s[k] == c);
        }
    }
}

proof fn nothing_captured(segments: Seq<Seq<char>>, levels: Seq<Seq<char>>, n: nat)
    requires
        n <= segments.len(),
        forall|i: int, j: int|
            0 <= i < segments.len() && 0 <= j < segments[i].len() ==> #[trigger] segments[i][j]
                != '{',
    ensures
        captures_of(segments, levels, n) == Seq::<(Seq<char>, Seq<char>)>::empty(),
    decreases n,
{
    if n > 0 {
        nothing_captured(segments, levels, (n - 1) as nat);
        assert(capture_name(segments[n - 1]) is None);
    }
}

/// A pattern segment captures under a name exactly if it is that name, which is not
/// empty, in braces.
pub proof fn captures_are_names_in_braces(segment: Seq<char>, name: Seq<char>)
    ensures
        capture_name(segment) == Some(name) <==> name.len() > 0 && segment == seq!['{'] + name
            + seq!['}'],
{
    if capture_name(segment) == Some(name) {
        assert(segment == seq!['{'] + name + seq!['}']);
    }
    if name.len() > 0 && segment == seq!['{'] + name + seq!['}'] {
        assert(segment[0] == '{');
        assert(segment.last() == '}');
        assert(segment.subrange(1, segment.len() - 1) == name);
    }
}

/// Segment `i` of the pattern is a name in braces, and the topic has a level there.
spec fn captures_at(segments: Seq<Seq<char>>, levels: Seq<Seq<char>>, i: int) -> bool {
    &&& 0 <= i < segments.len()
    &&& i < levels.len()
    &&& segments[i].len() > 2
    &&& segments[i][0] == '{'
    &&& segments[i].last() == '}'
}

proof fn captures_by_place(segments: Seq<Seq<char>>, levels: Seq<Seq<char>>, n: nat) -> (places:
    Seq<int>)
    requires
        n <= segments.len(),
        n <= levels.len(),
    ensures
        captures_of(segments, levels, n).len() == places.len(),
        forall|k: int|
            0 <= k < places.len() ==> {
                &&& captures_at(segments, levels, #[trigger] places[k])
                &&& places[k] < n
                &&& captures_of(segments, levels, n)[k] == (
                    segments[places[k]].subrange(1, segments[places[k]].len() - 1),
                    levels[places[k]],
                )
            },
        forall|k: int, l: int| 0 <= k < l < places.len() ==> places[k] < places[l],
        forall|i: int|
            0 <= i < n && #[trigger] captures_at(segments, levels, i) ==> places.contains(i),
    decreases n,
{
    if n == 0 {
        Seq::empty()
    } else {
        let before = captures_by_place(segments, levels, (n - 1) as nat);
        let here = n - 1;
        if captures_at(segments, levels, here) {
            let places = before.push(here);
            assert(places[before.len() as int] == here);
            assert forall|i: int|
                0 <= i < n && #[trigger] captures_at(
                    segments,
                    levels,
                    i,
                ) implies places.contains(i) by {
                if i < here {
                    let k = choose|k: int| 0 <= k < before.len() && before[k] == i;
                    assert(places[k] == i);
                }
            }
            places
        } else {
            before
        }
    }
}

/// The captures of a topic are exactly the levels that stand where the pattern has a
/// name in braces, each under that name, in the order of their places: none is left
/// out, and there are no others. Returns the places.
pub proof fn every_named_level_is_captured(pattern: Seq<char>, topic: Seq<char>) -> (places: Seq<
    int,
>)
    ensures
        ({
            let segments = split(pattern, '/');
            let levels = split(topic, '/');
            let captures = topic_captures(pattern, topic);
            &&& captures.len() == places.len()
            &&& forall|k: int|
                0 <= k < places.len() ==> {
                    &&& 0 <= #[trigger] places[k] < segments.len()
                    &&& places[k] < levels.len()
                    &&& captures[k].0.len() > 0
                    &&& segments[places[k]] == seq!['{'] + captures[k].0 + seq!['}']
                    &&& levels[places[k]] == captures[k].1
                }
            &&& forall|k: int, l: int| 0 <= k < l < places.len() ==> places[k] < places[l]
            &&& forall|i: int, name: Seq<char>|
                0 <= i < segments.len() && i < levels.len() && name.len() > 0 && segments[i]
                    == #[trigger] (seq!['{'] + name + seq!['}']) ==> #[trigger] places.contains(i)
        }),
{
    let segments = split(pattern, '/');
    let levels = split(topic, '/');
    let n = if segments.len() <= levels.len() {
        segments.len()
    } else {
        levels.len()
    };
    let places = captures_by_place(segments, levels, n);
    let captures = topic_captures(pattern, topic);
    assert forall|k: int| 0 <= k < places.len() implies captures_at(
        segments,
        levels,
        #[trigger] places[k],
    ) && captures[k].0.len() > 0 && segments[places[k]] == seq!['{'] + captures[k].0 + seq!['}']
        && levels[places[k]] == captures[k].1 by {
        let segment = segments[places[k]];
        assert(seq!['{'] + segment.subrange(1, segment.len() - 1) + seq!['}'] == segment);
    }
    assert forall|i: int, name: Seq<char>|
        0 <= i < segments.len() && i < levels.len() && name.len() > 0 && segments[i]
            == #[trigger] (seq!['{'] + name + seq!['}']) implies #[trigger] places.contains(i) by {
        captures_are_names_in_braces(segments[i], name);
        assert(captures_at(segments, levels, i));
    }
    places
}

/// The texts of a list of pairs are those of its strings, one for one.
pub proof fn text_pairs_stand_for_their_strings(v: Seq<(String, String)>)
    ensures
        text_pairs(v).len() == v.len(),
        forall|i: int|
            0 <= i < v.len() ==> #[trigger] text_pairs(v)[i].0 == v[i].0@ && text_pairs(v)[i].1
                == v[i].1@,
{
}

} // verus!
