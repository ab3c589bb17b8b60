//! Retries of the writes of one chunk.

use vstd::prelude::*;
use vstd::string::*;

use crate::dynamodb::stats::counted;
use crate::dynamodb::stats::is_throttle_error;
use crate::dynamodb::stats::tells_throttle;
use crate::dynamodb::stats::DynamoDBBenchStats;
use crate::dynamodb::stats::Progress;
use crate::text::decimal;
use crate::text::decimal_text;

verus! {

/// Two to the power of `n`.
pub open spec fn power_of_two(n: nat) -> nat
    decreases n,
{
    if n == 0 {
        1
    } else {
        2 * power_of_two((n - 1) as nat)
    }
}

/// How long to wait before the given retry, in milliseconds: twice as long as
/// before the one ahead of it, up to the eighth.
pub open spec fn backoff_millis(retry: nat) -> nat {
    50 * power_of_two(
        if retry <= 8 {
            retry
        } else {
            8
        },
    )
}

/// How long to wait before the given retry, in milliseconds.
pub fn backoff_delay(retry: usize) -> (millis: u64)
    ensures
        millis == backoff_millis(retry as nat),
{
    proof {
        reveal_with_fuel(power_of_two, 9);
    }
    let exponent: usize = if retry <= 8 {
        retry
    } else {
        8
    };
    match exponent {
        0 => 50,
        1 => 100,
        2 => 200,
        3 => 400,
        4 => 800,
        5 => 1_600,
        6 => 3_200,
        7 => 6_400,
        _ => 12_800,
    }
}

/// The wait grows with each retry and never exceeds 12.8 seconds.
pub proof fn backoff_grows_up_to_its_limit(one: nat, other: nat)
    requires
        one <= other,
    ensures
        50 <= backoff_millis(one) <= backoff_millis(other) <= 12_800,
{
    reveal_with_fuel(power_of_two, 9);
}

/// A failure of a request.
#[derive(Debug)]
pub struct RequestFailure {
    /// The text of the error.
    pub shown: String,
    /// The text of the error and of all that caused it.
    pub chain: String,
}

/// What follows an attempt to write a chunk.
#[derive(Debug)]
pub enum RetryStep {
    /// Everything is written.
    Done,
    /// The write fails for good.
    Fail(String),
    /// Send the same items again after this many milliseconds.
    RetryAll(u64),
    /// Send the items that were not processed after this many milliseconds.
    RetryUnprocessed(u64),
}

/// The retries of one chunk.
#[derive(Debug)]
pub struct ChunkRetry {
    endpoint_name: String,
    max_retries: usize,
    retry: usize,
}

/// What the retries of a chunk know.
pub struct RetryModel {
    pub endpoint_name: Seq<char>,
    pub max_retries: usize,
    /// How many retries there were.
    pub retry: usize,
}

impl RetryModel {
    pub open spec fn wf(self) -> bool {
        self.retry <= self.max_retries
    }

    /// No retry is left.
    pub open spec fn exhausted(self) -> bool {
        self.retry >= self.max_retries
    }

    /// One more retry.
    pub open spec fn next(self) -> RetryModel {
        RetryModel { retry: (self.retry + 1) as usize, ..self }
    }

    /// The beginning of every error text.
    pub open spec fn prefix(self) -> Seq<char> {
        "dynamodb output connector '"@ + self.endpoint_name + "' "@
    }

    /// The end of every error text.
    pub open spec fn suffix(self) -> Seq<char> {
        " after "@ + decimal(self.max_retries as nat) + " retries"@
    }

    /// What is reported when a request failed too often to do `what`.
    pub open spec fn failure(self, what: Seq<char>, chain: Seq<char>) -> Seq<char> {
        self.prefix() + "failed to "@ + what + self.suffix() + ": "@ + chain
    }

    /// What is reported when items were left unprocessed too often.
    pub open spec fn leftover(self, count: nat) -> Seq<char> {
        self.prefix() + "failed to write "@ + decimal(count) + " unprocessed item(s)"@
            + self.suffix()
    }
}

impl View for ChunkRetry {
    type V = RetryModel;

    closed spec fn view(&self) -> RetryModel {
        RetryModel {
            endpoint_name: self.endpoint_name@,
            max_retries: self.max_retries,
            retry: self.retry,
        }
    }
}

/// The sum of the numbers.
pub open spec fn total(counts: Seq<usize>) -> nat
    decreases counts.len(),
{
    if counts.len() == 0 {
        0
    } else {
        total(counts.drop_last()) + counts.last() as nat
    }
}

proof fn total_grows(counts: Seq<usize>, n: int)
    requires
        0 <= n <= counts.len(),
    ensures
        total(counts.take(n)) <= total(counts),
    decreases counts.len() - n,
{
    if n < counts.len() {
        total_grows(counts, n + 1);
        assert(counts.take(n + 1).drop_last() == counts.take(n));
    } else {
        assert(counts.take(n) == counts);
    }
}

fn add_up(counts: &Vec<usize>) -> (n: usize)
    requires
        total(counts@) <= usize::MAX,
    ensures
        n == total(counts@),
{
    let mut n: usize = 0;
    let mut i: usize = 0;
    while i < counts.len()
        invariant
            i <= counts.len(),
            n == total(counts@.take(i as int)),
            total(counts@) <= usize::MAX,
        decreases counts.len() - i,
    {
        proof {
            assert(counts@.take(i + 1).drop_last() == counts@.take(i as int));
            total_grows(counts@, i + 1);
        }
        n = n + counts[i];
        i += 1;
    }
    assert(counts@.take(i as int) == counts@);
    n
}

impl ChunkRetry {
    /// The state before the first attempt to write a chunk of `items` items,
    /// which are counted.
    pub fn begin(
        endpoint_name: &str,
        max_retries: usize,
        items: usize,
        stats: &mut DynamoDBBenchStats,
    ) -> (chunk: Self)
        ensures
            chunk@ == (RetryModel { endpoint_name: endpoint_name@, max_retries, retry: 0 }),
            chunk@.wf(),
            final(stats)@ == old(stats)@.requested(items as nat),
    {
        stats.add_requested(items);
        ChunkRetry { endpoint_name: endpoint_name.to_owned(), max_retries, retry: 0 }
    }

    fn begin_message(&self) -> (message: String)
        ensures
            message@ == self@.prefix(),
    {
        let mut message = "dynamodb output connector '".to_owned();
        message.append(self.endpoint_name.as_str());
        message.append("' ");
        message
    }

    fn end_message(&self, message: &mut String)
        ensures
            final(message)@ == old(message)@ + self@.suffix(),
    {
        let ghost start = message@;
        message.append(" after ");
        message.append(decimal_text(self.max_retries as u64).as_str());
        message.append(" retries");
        assert(message@ == start + self@.suffix());
    }

    fn failure_text(&self, what: &str, chain: &str) -> (message: String)
        ensures
            message@ == self@.failure(what@, chain@),
    {
        let mut message = self.begin_message();
        message.append("failed to ");
        message.append(what);
        self.end_message(&mut message);
        message.append(": ");
        message.append(chain);
        message
    }

    fn fail_or_retry(
        &mut self,
        what: &str,
        failure: &RequestFailure,
        progress: &mut Progress,
        stats: &mut DynamoDBBenchStats,
    ) -> (step: RetryStep)
        requires
            old(self)@.wf(),
        ensures
            final(self)@.wf(),
            if old(self)@.exhausted() {
                &&& step matches RetryStep::Fail(message)
                &&& message@ == old(self)@.failure(what@, failure.chain@)
                &&& final(self)@ == old(self)@
                &&& *final(progress) == *old(progress)
                &&& final(stats)@ == old(stats)@
            } else {
                &&& step matches RetryStep::RetryAll(millis)
                &&& final(self)@ == old(self)@.next()
                &&& millis == backoff_millis(final(self)@.retry as nat)
                &&& *final(progress) == (Progress {
                    retries: counted(old(progress).retries, 1),
                    ..*old(progress)
                })
                &&& final(stats)@ == old(stats)@.failed(tells_throttle(failure.shown@))
            },
    {
        if self.retry >= self.max_retries {
            return RetryStep::Fail(self.failure_text(what, failure.chain.as_str()));
        }
        stats.add_failed(is_throttle_error(failure.shown.as_str()));
        self.retry = self.retry + 1;
        progress.add_retry();
        RetryStep::RetryAll(backoff_delay(self.retry))
    }

    /// Decides what follows an attempt to commit a transaction: a failed one is
    /// retried as long as retries are left.
    pub fn write_transact_chunk(
        &mut self,
        result: Result<(), RequestFailure>,
        progress: &mut Progress,
        stats: &mut DynamoDBBenchStats,
    ) -> (step: RetryStep)
        requires
            old(self)@.wf(),
        ensures
            final(self)@.wf(),
            match result {
                Ok(_) => {
                    &&& step is Done
                    &&& final(self)@ == old(self)@
                    &&& *final(progress) == *old(progress)
                    &&& final(stats)@ == old(stats)@
                },
                Err(failure) => if old(self)@.exhausted() {
                    &&& step matches RetryStep::Fail(message)
                    &&& message@ == old(self)@.failure("commit transaction chunk"@, failure.chain@)
                    &&& final(self)@ == old(self)@
                    &&& *final(progress) == *old(progress)
                    &&& final(stats)@ == old(stats)@
                } else {
                    &&& step matches RetryStep::RetryAll(millis)
                    &&& final(self)@ == old(self)@.next()
                    &&& millis == backoff_millis(final(self)@.retry as nat)
                    &&& *final(progress) == (Progress {
                        retries: counted(old(progress).retries, 1),
                        ..*old(progress)
                    })
                    &&& final(stats)@ == old(stats)@.failed(tells_throttle(failure.shown@))
                },
            },
    {
        match result {
            Ok(_) => RetryStep::Done,
            Err(failure) => self.fail_or_retry(
                "commit transaction chunk",
                &failure,
                progress,
                stats,
            ),
        }
    }

    /// Decides what follows an attempt to write a batch. The items that were not
    /// processed are given as their number per table; they, or all items of a
    /// failed request, are retried as long as retries are left.
    pub fn write_batch_chunk(
        &mut self,
        result: Result<Vec<usize>, RequestFailure>,
        progress: &mut Progress,
        stats: &mut DynamoDBBenchStats,
    ) -> (step: RetryStep)
        requires
            old(self)@.wf(),
            result matches Ok(unprocessed) ==> total(unprocessed@) <= usize::MAX,
        ensures
            final(self)@.wf(),
            match result {
                Ok(unprocessed) => if unprocessed@.len() == 0 {
                    &&& step is Done
                    &&& final(self)@ == old(self)@
                    &&& *final(progress) == *old(progress)
                    &&& final(stats)@ == old(stats)@
                } else if old(self)@.exhausted() {
                    &&& step matches RetryStep::Fail(message)
                    &&& message@ == old(self)@.leftover(total(unprocessed@))
                    &&& final(self)@ == old(self)@
                    &&& *final(progress) == *old(progress)
                    &&& final(stats)@ == old(stats)@
                } else {
                    &&& step matches RetryStep::RetryUnprocessed(millis)
                    &&& final(self)@ == old(self)@.next()
                    &&& millis == backoff_millis(final(self)@.retry as nat)
                    &&& *final(progress) == (Progress {
                        retries: counted(old(progress).retries, 1),
                        ..*old(progress)
                    })
                    &&& final(stats)@ == old(stats)@.unprocessed(total(unprocessed@))
                },
                Err(failure) => if old(self)@.exhausted() {
                    &&& step matches RetryStep::Fail(message)
                    &&& message@ == old(self)@.failure("write batch chunk"@, failure.chain@)
                    &&& final(self)@ == old(self)@
                    &&& *final(progress) == *old(progress)
                    &&& final(stats)@ == old(stats)@
                } else {
                    &&& step matches RetryStep::RetryAll(millis)
                    &&& final(self)@ == old(self)@.next()
                    &&& millis == backoff_millis(final(self)@.retry as nat)
                    &&& *final(progress) == (Progress {
                        retries: counted(old(progress).retries, 1),
                        ..*old(progress)
                    })
                    &&& final(stats)@ == old(stats)@.failed(tells_throttle(failure.shown@))
                },
            },
    {
        let unprocessed = match result {
            Ok(unprocessed) => unprocessed,
            Err(failure) => {
                return self.fail_or_retry("write batch chunk", &failure, progress, stats);
            },
        };
        if unprocessed.len() == 0 {
            return RetryStep::Done;
        }
        let count: usize = add_up(&unprocessed);
        if self.retry >= self.max_retries {
            let mut message = self.begin_message();
            message.append("failed to write ");
            message.append(decimal_text(count as u64).as_str());
            message.append(" unprocessed item(s)");
            self.end_message(&mut message);
            return RetryStep::Fail(message);
        }
        stats.add_unprocessed(count);
        progress.add_retry();
        self.retry = self.retry + 1;
        RetryStep::RetryUnprocessed(backoff_delay(self.retry))
    }
}

/// How the sending of a chunk went.
pub struct RunModel {
    /// How often the chunk, or what was left of it, was sent.
    pub requests: nat,
    /// How many of these were retries.
    pub retries: nat,
    /// Everything was written, or the write failed for good. None of the two is so
    /// as long as a reply is awaited.
    pub outcome: Option<bool>,
}

/// The sending of a chunk to which the service gives the replies `written`, each of
/// which says whether everything was written. A reply that does not is followed by
/// a retry while one is left.
pub open spec fn run(chunk: RetryModel, written: Seq<bool>) -> RunModel
    decreases written.len(),
{
    if written.len() == 0 {
        RunModel { requests: 0, retries: 0, outcome: None }
    } else if written[0] {
        RunModel { requests: 1, retries: 0, outcome: Some(true) }
    } else if chunk.exhausted() {
        RunModel { requests: 1, retries: 0, outcome: Some(false) }
    } else {
        let rest = run(chunk.next(), written.drop_first());
        RunModel {
            requests: rest.requests + 1,
            retries: rest.retries + 1,
            outcome: rest.outcome,
        }
    }
}

/// How often a chunk is attempted when the replies are `written`.
pub open spec fn attempts(chunk: RetryModel, written: Seq<bool>) -> nat {
    run(chunk, written).requests
}

/// A chunk is attempted at most once more than it may be retried, whatever the
/// service answers.
pub proof fn attempts_are_bounded(chunk: RetryModel, written: Seq<bool>)
    requires
        chunk.wf(),
    ensures
        attempts(chunk, written) <= chunk.max_retries - chunk.retry + 1,
    decreases written.len(),
{
    if written.len() > 0 && !written[0] && !chunk.exhausted() {
        attempts_are_bounded(chunk.next(), written.drop_first());
    }
}

/// A chunk is written exactly if one of the replies to its first request and to the
/// retries that are left says so; it fails for good exactly if none of them does.
/// Either way each request but the first is a retry.
pub proof fn chunks_are_written_within_their_retries(chunk: RetryModel, written: Seq<bool>)
    requires
        chunk.wf(),
    ensures
        ({
            let r = run(chunk, written);
            let left = chunk.max_retries - chunk.retry;
            &&& r.outcome == Some(true) <==> exists|i: int|
                0 <= i < written.len() && i <= left && #[trigger] written[i]
            &&& r.outcome == Some(false) <==> written.len() > left && forall|i: int|
                0 <= i <= left ==> !#[trigger] written[i]
            &&& r.outcome is Some ==> r.retries == r.requests - 1
        }),
    decreases written.len(),
{
    if written.len() > 0 {
        let rest = written.drop_first();
        let left = chunk.max_retries - chunk.retry;
        if written[0] {
        } else if chunk.exhausted() {
            assert(left == 0);
        } else {
            chunks_are_written_within_their_retries(chunk.next(), rest);
            assert(forall|i: int| 0 < i < written.len() ==> rest[i - 1] == #[trigger] written[i]);
            assert(forall|i: int| 0 <= i < rest.len() ==> #[trigger] rest[i] == written[i + 1]);
            if run(chunk.next(), rest).outcome == Some(false) {
                assert forall|i: int| 0 <= i <= left implies !#[trigger] written[i] by {
                    if i > 0 {
                        assert(!rest[i - 1]);
                    }
                }
            }
        }
    }
}

/// The wait doubles with each retry, from 50 milliseconds at number zero up to number
/// eight; all later ones are as long as that.
pub proof fn backoff_doubles_eight_times(retry: nat)
    ensures
        backoff_millis(0) == 50,
        retry < 8 ==> backoff_millis(retry + 1) == 2 * backoff_millis(retry),
        retry >= 8 ==> backoff_millis(retry) == 12_800,
{
    reveal_with_fuel(power_of_two, 10);
}

/// A chunk may be retried as often as the setting says, counted from zero. Every retry
/// counts as one.
pub proof fn retries_are_counted(chunk: RetryModel)
    requires
        chunk.retry < usize::MAX,
    ensures
        chunk.exhausted() <==> chunk.retry >= chunk.max_retries,
        chunk.next().retry == chunk.retry + 1,
        chunk.next().max_retries == chunk.max_retries,
        chunk.next().endpoint_name == chunk.endpoint_name,
{
}

/// What is reported names the connector, what failed, the number of retries, and the
/// cause where there is one.
pub proof fn failures_name_their_connector(
    chunk: RetryModel,
    what: Seq<char>,
    chain: Seq<char>,
    count: nat,
)
    ensures
        chunk.failure(what, chain) == "dynamodb output connector '"@ + chunk.endpoint_name
            + "' failed to "@ + what + " after "@ + decimal(chunk.max_retries as nat)
            + " retries: "@ + chain,
        chunk.leftover(count) == "dynamodb output connector '"@ + chunk.endpoint_name
            + "' failed to write "@ + decimal(count) + " unprocessed item(s) after "@ + decimal(
            chunk.max_retries as nat,
        ) + " retries"@,
{
    reveal_strlit("' ");
    reveal_strlit("failed to ");
    reveal_strlit("' failed to ");
    reveal_strlit("failed to write ");
    reveal_strlit("' failed to write ");
    reveal_strlit(" after ");
    reveal_strlit(" unprocessed item(s)");
    reveal_strlit(" unprocessed item(s) after ");
    reveal_strlit(" retries");
    reveal_strlit(" retries: ");
    reveal_strlit(": ");
    assert("' "@ + "failed to "@ == "' failed to "@);
    assert("' "@ + "failed to write "@ == "' failed to write "@);
    assert(" retries"@ + ": "@ == " retries: "@);
    assert(" unprocessed item(s)"@ + " after "@ == " unprocessed item(s) after "@);
    let name = "dynamodb output connector '"@ + chunk.endpoint_name;
    let n = decimal(chunk.max_retries as nat);
    assert(chunk.failure(what, chain) == name + ("' "@ + "failed to "@) + what + " after "@ + n + (
    " retries"@ + ": "@) + chain);
    assert(chunk.leftover(count) == name + ("' "@ + "failed to write "@) + decimal(count) + (
    " unprocessed item(s)"@ + " after "@) + n + " retries"@);
}

/// The items that were left unprocessed add up over the tables.
pub proof fn unprocessed_items_add_up(a: Seq<usize>, b: Seq<usize>, n: usize)
    ensures
        total(Seq::empty()) == 0,
        total(seq![n]) == n,
        total(a + b) == total(a) + total(b),
    decreases b.len(),
{
    reveal_with_fuel(total, 2);
    assert(seq![n].drop_last() == Seq::<usize>::empty());
    if b.len() == 0 {
        assert(a + b == a);
    } else {
        unprocessed_items_add_up(a, b.drop_last(), n);
        assert((a + b).drop_last() == a + b.drop_last());
        assert((a + b).last() == b.last());
    }
}

} // verus!
