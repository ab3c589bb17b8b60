//! Counters of the connector.

use vstd::prelude::*;
use vstd::string::*;

use crate::text::contained_texts_are_parts;
use crate::text::contains;
use crate::text::contains_text;

verus! {

/// `n` more than `count`, modulo 2^64.
pub open spec fn counted(count: u64, n: nat) -> u64 {
    ((count + n) % 0x1_0000_0000_0000_0000) as u64
}

/// Statistics of a benchmark run. The counters wrap around.
#[derive(Debug, Clone, PartialEq, Eq)]
pub struct DynamoDBBenchStats {
    pub requested_items: u64,
    /// Consumed write capacity, in thousandths of a capacity unit.
    pub consumed_capacity_millis: u64,
    pub unprocessed_items: u64,
    pub retries: u64,
    pub throttled_requests: u64,
    /// Retries caused by non-throttle errors (e.g. transient service errors).
    pub error_retries: u64,
    /// Per-flush durations in microseconds, one entry per end of a batch.
    pub flush_durations_us: Vec<u64>,
}

/// Statistics of a benchmark run, as plain data.
pub struct StatsModel {
    pub requested_items: u64,
    pub consumed_capacity_millis: u64,
    pub unprocessed_items: u64,
    pub retries: u64,
    pub throttled_requests: u64,
    pub error_retries: u64,
    pub flush_durations_us: Seq<u64>,
}

impl StatsModel {
    /// Nothing has been counted.
    pub open spec fn zero() -> StatsModel {
        StatsModel {
            requested_items: 0,
            consumed_capacity_millis: 0,
            unprocessed_items: 0,
            retries: 0,
            throttled_requests: 0,
            error_retries: 0,
            flush_durations_us: Seq::empty(),
        }
    }

    /// The statistics once `n` items have been requested.
    pub open spec fn requested(self, n: nat) -> StatsModel {
        StatsModel { requested_items: counted(self.requested_items, n), ..self }
    }

    /// The statistics once a failed request is retried.
    pub open spec fn failed(self, throttled: bool) -> StatsModel {
        if throttled {
            StatsModel {
                throttled_requests: counted(self.throttled_requests, 1),
                retries: counted(self.retries, 1),
                ..self
            }
        } else {
            StatsModel {
                error_retries: counted(self.error_retries, 1),
                retries: counted(self.retries, 1),
                ..self
            }
        }
    }

    /// The statistics once `n` unprocessed items are retried, each of which counts
    /// as throttled.
    pub open spec fn unprocessed(self, n: nat) -> StatsModel {
        StatsModel {
            unprocessed_items: counted(self.unprocessed_items, n),
            throttled_requests: counted(self.throttled_requests, n),
            retries: counted(self.retries, 1),
            ..self
        }
    }
}

impl View for DynamoDBBenchStats {
    type V = StatsModel;

    open spec fn view(&self) -> StatsModel {
        StatsModel {
            requested_items: self.requested_items,
            consumed_capacity_millis: self.consumed_capacity_millis,
            unprocessed_items: self.unprocessed_items,
            retries: self.retries,
            throttled_requests: self.throttled_requests,
            error_retries: self.error_retries,
            flush_durations_us: self.flush_durations_us@,
        }
    }
}

impl Default for DynamoDBBenchStats {
    fn default() -> (stats: Self)
        ensures
            stats@ == StatsModel::zero(),
    {
        DynamoDBBenchStats {
            requested_items: 0,
            consumed_capacity_millis: 0,
            unprocessed_items: 0,
            retries: 0,
            throttled_requests: 0,
            error_retries: 0,
            flush_durations_us: Vec::new(),
        }
    }
}

/// Sets all counters to zero and forgets the durations.
pub fn reset_dynamodb_bench_stats(stats: &mut DynamoDBBenchStats)
    ensures
        final(stats)@ == StatsModel::zero(),
{
    stats.requested_items = 0;
    stats.consumed_capacity_millis = 0;
    stats.unprocessed_items = 0;
    stats.retries = 0;
    stats.throttled_requests = 0;
    stats.error_retries = 0;
    stats.flush_durations_us.clear();
}

/// A copy of the statistics as they stand.
pub fn dynamodb_bench_stats(stats: &DynamoDBBenchStats) -> (copy: DynamoDBBenchStats)
    ensures
        copy@ == stats@,
{
    let mut flush_durations_us: Vec<u64> = Vec::new();
    flush_durations_us.extend_from_slice(stats.flush_durations_us.as_slice());
    assert(flush_durations_us@ == stats.flush_durations_us@);
    DynamoDBBenchStats {
        requested_items: stats.requested_items,
        consumed_capacity_millis: stats.consumed_capacity_millis,
        unprocessed_items: stats.unprocessed_items,
        retries: stats.retries,
        throttled_requests: stats.throttled_requests,
        error_retries: stats.error_retries,
        flush_durations_us,
    }
}

impl DynamoDBBenchStats {
    /// Counts `n` requested items.
    pub fn add_requested(&mut self, n: usize)
        ensures
            final(self)@ == old(self)@.requested(n as nat),
    {
        self.requested_items = self.requested_items.wrapping_add(n as u64);
    }

    /// Counts consumed capacity.
    pub fn add_consumed_capacity(&mut self, millis: u64)
        ensures
            final(self)@ == (StatsModel {
                consumed_capacity_millis: counted(
                    old(self)@.consumed_capacity_millis,
                    millis as nat,
                ),
                ..old(self)@
            }),
    {
        self.consumed_capacity_millis = self.consumed_capacity_millis.wrapping_add(millis);
    }

    /// Counts the retry of a failed request.
    pub fn add_failed(&mut self, throttled: bool)
        ensures
            final(self)@ == old(self)@.failed(throttled),
    {
        if throttled {
            self.throttled_requests = self.throttled_requests.wrapping_add(1);
        } else {
            self.error_retries = self.error_retries.wrapping_add(1);
        }
        self.retries = self.retries.wrapping_add(1);
    }

    /// Counts the retry of `n` unprocessed items.
    pub fn add_unprocessed(&mut self, n: usize)
        ensures
            final(self)@ == old(self)@.unprocessed(n as nat),
    {
        self.unprocessed_items = self.unprocessed_items.wrapping_add(n as u64);
        self.throttled_requests = self.throttled_requests.wrapping_add(n as u64);
        self.retries = self.retries.wrapping_add(1);
    }

    /// Notes how long the end of a batch took.
    pub fn add_flush_duration(&mut self, micros: u64)
        ensures
            final(self)@ == (StatsModel {
                flush_durations_us: old(self)@.flush_durations_us.push(micros),
                ..old(self)@
            }),
    {
        self.flush_durations_us.push(micros);
    }
}

/// An error text that tells of throttling.
pub open spec fn tells_throttle(error: Seq<char>) -> bool {
    ||| contains_text(error, "ProvisionedThroughputExceededException"@)
    ||| contains_text(error, "RequestLimitExceeded"@)
    ||| contains_text(error, "ThrottlingException"@)
}

/// Returns true when an SDK error is a DynamoDB throttle (provisioned throughput
/// exceeded, account request-rate limit, or general throttling).
pub fn is_throttle_error(error: &str) -> (throttle: bool)
    ensures
        throttle == tells_throttle(error@),
        throttle <==> contains_text(error@, "ProvisionedThroughputExceededException"@)
            || contains_text(error@, "RequestLimitExceeded"@) || contains_text(
            error@,
            "ThrottlingException"@,
        ),
{
    contains(error, "ProvisionedThroughputExceededException") || contains(
        error,
        "RequestLimitExceeded",
    ) || contains(error, "ThrottlingException")
}

/// Counters that the workers and the endpoint share. They wrap around.
#[derive(Debug, Clone, Copy, PartialEq, Eq, Structural)]
pub struct Progress {
    /// Rows handed over for writing in the current batch.
    pub records_written: u64,
    /// Retries since the end of the last batch that succeeded.
    pub retries: u64,
}

impl Progress {
    pub fn new() -> (progress: Self)
        ensures
            progress == (Progress { records_written: 0, retries: 0 }),
    {
        Progress { records_written: 0, retries: 0 }
    }

    /// Counts rows that were handed over for writing.
    pub fn add_rows(&mut self, rows: usize)
        ensures
            *final(self) == (Progress {
                records_written: counted(old(self).records_written, rows as nat),
                ..*old(self)
            }),
    {
        self.records_written = self.records_written.wrapping_add(rows as u64);
    }

    /// Counts a retry.
    pub fn add_retry(&mut self)
        ensures
            *final(self) == (Progress { retries: counted(old(self).retries, 1), ..*old(self) }),
    {
        self.retries = self.retries.wrapping_add(1);
    }
}

/// A counter counts one by one and starts again at zero after 2^64 - 1.
pub proof fn counters_wrap_around(count: u64, n: nat)
    ensures
        count + n <= 0xffff_ffff_ffff_ffff ==> counted(count, n) == count + n,
        counted(count, n + 0x1_0000_0000_0000_0000) == counted(count, n),
{
}

/// Requested items count for what was asked; nothing else changes with them. A failed
/// request is one more retry, which counts as throttled or as an error, and not as both.
/// Unprocessed items count each as throttled, and together as one more retry.
pub proof fn retries_are_counted_by_their_cause(stats: StatsModel, n: nat)
    ensures
        stats.requested(n) == (StatsModel {
            requested_items: counted(stats.requested_items, n),
            consumed_capacity_millis: stats.consumed_capacity_millis,
            unprocessed_items: stats.unprocessed_items,
            retries: stats.retries,
            throttled_requests: stats.throttled_requests,
            error_retries: stats.error_retries,
            flush_durations_us: stats.flush_durations_us,
        }),
        forall|throttled: bool|
            #![trigger stats.failed(throttled)]
            {
                let after = stats.failed(throttled);
                &&& after.requested_items == stats.requested_items
                &&& after.consumed_capacity_millis == stats.consumed_capacity_millis
                &&& after.unprocessed_items == stats.unprocessed_items
                &&& after.retries == counted(stats.retries, 1)
                &&& after.throttled_requests == counted(
                    stats.throttled_requests,
                    if throttled {
                        1
                    } else {
                        0
                    },
                )
                &&& after.error_retries == counted(
                    stats.error_retries,
                    if throttled {
                        0
                    } else {
                        1
                    },
                )
                &&& after.flush_durations_us == stats.flush_durations_us
            },
        stats.unprocessed(n) == (StatsModel {
            requested_items: stats.requested_items,
            consumed_capacity_millis: stats.consumed_capacity_millis,
            unprocessed_items: counted(stats.unprocessed_items, n),
            retries: counted(stats.retries, 1),
            throttled_requests: counted(stats.throttled_requests, n),
            error_retries: stats.error_retries,
            flush_durations_us: stats.flush_durations_us,
        }),
{
}

/// An error tells of throttling exactly if its text holds one of three names:
/// `ProvisionedThroughputExceededException`, `RequestLimitExceeded` and
/// `ThrottlingException`.
pub proof fn only_three_names_tell_of_throttling(error: Seq<char>)
    ensures
        tells_throttle(error) <==> ({
            ||| exists|a: Seq<char>, b: Seq<char>|
                error == #[trigger] (a + "ProvisionedThroughputExceededException"@ + b)
            ||| exists|a: Seq<char>, b: Seq<char>|
                error == #[trigger] (a + "RequestLimitExceeded"@ + b)
            ||| exists|a: Seq<char>, b: Seq<char>|
                error == #[trigger] (a + "ThrottlingException"@ + b)
        }),
{
    contained_texts_are_parts(error, "ProvisionedThroughputExceededException"@);
    contained_texts_are_parts(error, "RequestLimitExceeded"@);
    contained_texts_are_parts(error, "ThrottlingException"@);
}

/// At first, and after a reset, every counter is zero and no duration is known.
pub proof fn counting_starts_at_zero()
    ensures
        StatsModel::zero().requested_items == 0,
        StatsModel::zero().consumed_capacity_millis == 0,
        StatsModel::zero().unprocessed_items == 0,
        StatsModel::zero().retries == 0,
        StatsModel::zero().throttled_requests == 0,
        StatsModel::zero().error_retries == 0,
        StatsModel::zero().flush_durations_us.len() == 0,
{
}

/// The statistics stand for their counters and durations.
pub proof fn statistics_stand_for_their_counters(stats: DynamoDBBenchStats)
    ensures
        stats@.requested_items == stats.requested_items,
        stats@.consumed_capacity_millis == stats.consumed_capacity_millis,
        stats@.unprocessed_items == stats.unprocessed_items,
        stats@.retries == stats.retries,
        stats@.throttled_requests == stats.throttled_requests,
        stats@.error_retries == stats.error_retries,
        stats@.flush_durations_us == stats.flush_durations_us@,
{
}

} // verus!
