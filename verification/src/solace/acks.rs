//! Deferred acknowledgment: broker message IDs that wait for the circuit step
//! that ingested them.

use std::collections::VecDeque;
use vstd::prelude::*;

verus! {

/// Message acknowledgments awaiting circuit-step completion.
///
/// Each entry is `(step, msg_ids)`: the broker message IDs handed to the
/// circuit in step `step`.
pub type PendingAcks = VecDeque<(u64, Vec<u64>)>;

/// The message IDs of all entries, in order.
pub open spec fn all_ids(pending: Seq<(u64, Vec<u64>)>) -> Seq<u64>
    decreases pending.len(),
{
    if pending.len() == 0 {
        Seq::empty()
    } else {
        all_ids(pending.drop_last()) + pending.last().1@
    }
}

/// How many entries at the front belong to steps that `completed` covers. A
/// record ingested in step `s` is fully processed once the completion count
/// exceeds `s`.
pub open spec fn ready_len(pending: Seq<(u64, Vec<u64>)>, completed: u64) -> nat
    decreases pending.len(),
{
    if pending.len() == 0 || pending[0].0 >= completed {
        0
    } else {
        1 + ready_len(pending.drop_first(), completed)
    }
}

/// The message IDs that `completed` releases.
pub open spec fn released(pending: Seq<(u64, Vec<u64>)>, completed: u64) -> Seq<u64> {
    all_ids(pending.take(ready_len(pending, completed) as int))
}

/// The entries that stay pending at `completed`.
pub open spec fn withheld(pending: Seq<(u64, Vec<u64>)>, completed: u64) -> Seq<(u64, Vec<u64>)> {
    pending.skip(ready_len(pending, completed) as int)
}

/// The entries are ordered by step.
pub open spec fn ordered(pending: Seq<(u64, Vec<u64>)>) -> bool {
    forall|i: int, j: int| 0 <= i <= j < pending.len() ==> pending[i].0 <= pending[j].0
}

/// What `completed` releases is a run of entries from the front, each of a
/// complete step; the first entry that stays belongs to a step that is not
/// complete.
pub proof fn only_a_complete_prefix_is_released(pending: Seq<(u64, Vec<u64>)>, completed: u64)
    ensures
        ready_len(pending, completed) <= pending.len(),
        forall|i: int|
            0 <= i < ready_len(pending, completed) ==> (#[trigger] pending[i]).0 < completed,
        ready_len(pending, completed) < pending.len() ==> pending[ready_len(
            pending,
            completed,
        ) as int].0 >= completed,
    decreases pending.len(),
{
    if pending.len() > 0 && pending[0].0 < completed {
        let rest = pending.drop_first();
        only_a_complete_prefix_is_released(rest, completed);
        let n = ready_len(pending, completed);
        assert forall|i: int| 0 <= i < n implies (#[trigger] pending[i]).0 < completed by {
            if i > 0 {
                assert(rest[i - 1] == pending[i]);
            }
        }
        if n < pending.len() {
            assert(rest[n - 1] == pending[n as int]);
        }
    }
}

proof fn ready_len_is(pending: Seq<(u64, Vec<u64>)>, completed: u64, n: nat)
    requires
        n <= pending.len(),
        forall|i: int| 0 <= i < n ==> (#[trigger] pending[i]).0 < completed,
        n < pending.len() ==> pending[n as int].0 >= completed,
    ensures
        ready_len(pending, completed) == n,
    decreases pending.len(),
{
    if n > 0 {
        let rest = pending.drop_first();
        assert forall|i: int| 0 <= i < n - 1 implies (#[trigger] rest[i]).0 < completed by {
            assert(rest[i] == pending[i + 1]);
        }
        assert(pending[0].0 < completed);
        ready_len_is(rest, completed, (n - 1) as nat);
    }
}

/// The message IDs of two lists of entries, one after the other.
pub proof fn all_ids_concat(a: Seq<(u64, Vec<u64>)>, b: Seq<(u64, Vec<u64>)>)
    ensures
        all_ids(a + b) == all_ids(a) + all_ids(b),
    decreases b.len(),
{
    if b.len() == 0 {
        assert(a + b == a);
        assert(all_ids(a) + all_ids(b) == all_ids(a));
    } else {
        all_ids_concat(a, b.drop_last());
        assert((a + b).drop_last() == a + b.drop_last());
        assert((a + b).last() == b.last());
        assert(all_ids(a) + all_ids(b.drop_last()) + b.last().1@ == all_ids(a) + (all_ids(
            b.drop_last(),
        ) + b.last().1@));
    }
}

/// Removes and returns the message IDs whose ingesting step is now complete.
pub fn acks_ready(pending: &mut PendingAcks, completed: u64) -> (ready: Vec<u64>)
    ensures
        ready@ == released(old(pending)@, completed),
        final(pending)@ == withheld(old(pending)@, completed),
{
    let ghost all = pending@;
    let mut ready: Vec<u64> = Vec::new();
    let ghost mut n: int = 0;
    while pending.len() > 0 && pending[0].0 < completed
        invariant
            0 <= n <= all.len(),
            pending@ == all.skip(n),
            ready@ == all_ids(all.take(n)),
            forall|i: int| 0 <= i < n ==> (#[trigger] all[i]).0 < completed,
        decreases pending.len(),
    {
        if let Some(entry) = pending.pop_front() {
            let mut ids = entry.1;
            ready.append(&mut ids);
            proof {
                assert(all.take(n + 1).drop_last() == all.take(n));
                assert(all.take(n + 1).last() == all[n]);
                n = n + 1;
            }
        }
    }
    proof {
        if n < all.len() {
            assert(pending@[0] == all[n]);
        }
        ready_len_is(all, completed, n as nat);
    }
    ready
}

/// Removes and returns every pending message ID, whatever its step.
pub fn take_all_acks(pending: &mut PendingAcks) -> (ids: Vec<u64>)
    ensures
        ids@ == all_ids(old(pending)@),
        final(pending)@ == Seq::<(u64, Vec<u64>)>::empty(),
{
    let ghost all = pending@;
    let mut taken: Vec<u64> = Vec::new();
    let ghost mut n: int = 0;
    while pending.len() > 0
        invariant
            0 <= n <= all.len(),
            pending@ == all.skip(n),
            taken@ == all_ids(all.take(n)),
        decreases pending.len(),
    {
        if let Some(entry) = pending.pop_front() {
            let mut ids = entry.1;
            taken.append(&mut ids);
            proof {
                assert(all.take(n + 1).drop_last() == all.take(n));
                assert(all.take(n + 1).last() == all[n]);
                n = n + 1;
            }
        }
    }
    assert(all.take(n) == all);
    taken
}

/// No acknowledgment is lost and none is sent twice: what is released, followed
/// by what stays pending, is what was pending.
pub proof fn release_loses_nothing(pending: Seq<(u64, Vec<u64>)>, completed: u64)
    ensures
        released(pending, completed) + all_ids(withheld(pending, completed)) == all_ids(pending),
{
    only_a_complete_prefix_is_released(pending, completed);
    let n = ready_len(pending, completed) as int;
    all_ids_concat(pending.take(n), pending.skip(n));
    assert(pending.take(n) + pending.skip(n) == pending);
}

/// With entries ordered by step, exactly those of the steps that `completed`
/// covers are released, and those of all other steps stay pending.
pub proof fn only_completed_steps_are_released(pending: Seq<(u64, Vec<u64>)>, completed: u64)
    requires
        ordered(pending),
    ensures
        ready_len(pending, completed) <= pending.len(),
        forall|i: int|
            0 <= i < pending.len() ==> ((#[trigger] pending[i]).0 < completed <==> i < ready_len(
                pending,
                completed,
            )),
        ordered(withheld(pending, completed)),
        forall|i: int|
            0 <= i < withheld(pending, completed).len() ==> (#[trigger] withheld(
                pending,
                completed,
            )[i]).0 >= completed,
{
    only_a_complete_prefix_is_released(pending, completed);
    let n = ready_len(pending, completed);
    assert forall|i: int| n <= i < pending.len() implies (#[trigger] pending[i]).0 >= completed by {
        assert(pending[n as int].0 <= pending[i].0);
    }
    let rest = withheld(pending, completed);
    assert forall|i: int, j: int| 0 <= i <= j < rest.len() implies rest[i].0 <= rest[j].0 by {
        assert(rest[i] == pending[i + n] && rest[j] == pending[j + n]);
    }
    assert forall|i: int| 0 <= i < rest.len() implies (#[trigger] rest[i]).0 >= completed by {
        assert(rest[i] == pending[i + n]);
    }
}

/// Releasing at one completion count and then at a later one acknowledges the
/// same messages, in the same order, as releasing at the later one alone.
pub proof fn release_is_monotonic(pending: Seq<(u64, Vec<u64>)>, earlier: u64, later: u64)
    requires
        earlier <= later,
    ensures
        released(pending, earlier) + released(withheld(pending, earlier), later) == released(
            pending,
            later,
        ),
        withheld(withheld(pending, earlier), later) == withheld(pending, later),
{
    only_a_complete_prefix_is_released(pending, earlier);
    only_a_complete_prefix_is_released(pending, later);
    let n = ready_len(pending, earlier);
    let m = ready_len(pending, later);
    assert(n <= m) by {
        if m < n {
            assert(pending[m as int].0 < earlier);
        }
    }
    let rest = pending.skip(n as int);
    assert forall|i: int| 0 <= i < m - n implies (#[trigger] rest[i]).0 < later by {
        assert(rest[i] == pending[i + n]);
    }
    ready_len_is(rest, later, (m - n) as nat);
    assert(pending.take(n as int) + rest.take(m - n) == pending.take(m as int));
    all_ids_concat(pending.take(n as int), rest.take(m - n));
    assert(rest.skip(m - n) == pending.skip(m as int));
}

/// The message IDs of one entry are those that it holds, in the same order; no entries
/// hold none.
pub proof fn entries_hold_their_ids(entry: (u64, Vec<u64>))
    ensures
        all_ids(Seq::empty()) == Seq::<u64>::empty(),
        all_ids(seq![entry]) == entry.1@,
{
    reveal_with_fuel(all_ids, 2);
    assert(seq![entry].drop_last() == Seq::<(u64, Vec<u64>)>::empty());
    assert(Seq::<u64>::empty() + entry.1@ == entry.1@);
}

/// A count cuts the entries in two, and neither part is changed: those at the front whose
/// steps lie below it are released with all their IDs, and from the first other entry on
/// they stay.
pub proof fn a_count_cuts_the_entries_in_two(
    front: Seq<(u64, Vec<u64>)>,
    back: Seq<(u64, Vec<u64>)>,
    completed: u64,
)
    requires
        forall|i: int| 0 <= i < front.len() ==> (#[trigger] front[i]).0 < completed,
        back.len() > 0 ==> back[0].0 >= completed,
    ensures
        released(front + back, completed) == all_ids(front),
        withheld(front + back, completed) == back,
{
    let both = front + back;
    assert forall|i: int| 0 <= i < front.len() implies (#[trigger] both[i]).0 < completed by {
        assert(both[i] == front[i]);
    }
    ready_len_is(both, completed, front.len());
    assert(both.take(front.len() as int) == front);
    assert(both.skip(front.len() as int) == back);
}

} // verus!
