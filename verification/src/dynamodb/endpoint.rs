//! The endpoint: it spreads a batch over its workers and accounts for what they
//! did.

use vstd::prelude::*;
use vstd::string::*;

use crate::clock::elapsed;
use crate::clock::time_since;
use crate::clock::Nanos;
use crate::dynamodb::stats::DynamoDBBenchStats;
use crate::dynamodb::stats::Progress;
use crate::dynamodb::stats::StatsModel;
use crate::dynamodb::worker::DynamoDBWriterConfig;
use crate::text::decimal;
use crate::text::decimal_text;
use crate::text::join;
use crate::text::join_texts;
use crate::text::texts;

verus! {

/// Minimum interval between throughput reports: 60 seconds.
pub const THROUGHPUT_LOG_INTERVAL: Nanos = 60_000_000_000;

/// Why an endpoint could not be made.
#[derive(Debug, PartialEq, Eq)]
pub enum EndpointError {
    InvalidTransportConfiguration { endpoint_name: String, error: String },
    NotSupported(String),
    /// The transport failed, which stops the endpoint.
    OutputTransport { endpoint_name: String, error: String },
}

/// What a worker answered to a command.
#[derive(Debug)]
pub enum WorkerResult {
    Success { num_bytes: usize, num_rows: usize },
    Failure(String),
    /// The worker is gone.
    Disconnected,
}

/// The errors among the results, in order.
pub open spec fn worker_errors(results: Seq<WorkerResult>) -> Seq<Seq<char>>
    decreases results.len(),
{
    if results.len() == 0 {
        Seq::empty()
    } else {
        let before = worker_errors(results.drop_last());
        match results.last() {
            WorkerResult::Success { .. } => before,
            WorkerResult::Failure(e) => before.push(e@),
            WorkerResult::Disconnected => before.push("worker thread disconnected"@),
        }
    }
}

/// The bytes that the results account for.
pub open spec fn worker_bytes(results: Seq<WorkerResult>) -> nat
    decreases results.len(),
{
    if results.len() == 0 {
        0
    } else {
        worker_bytes(results.drop_last()) + match results.last() {
            WorkerResult::Success { num_bytes, .. } => num_bytes as nat,
            _ => 0,
        }
    }
}

/// The rows that the results account for.
pub open spec fn worker_rows(results: Seq<WorkerResult>) -> nat
    decreases results.len(),
{
    if results.len() == 0 {
        0
    } else {
        worker_rows(results.drop_last()) + match results.last() {
            WorkerResult::Success { num_rows, .. } => num_rows as nat,
            _ => 0,
        }
    }
}

/// What is reported for the errors of workers, if there are any.
pub open spec fn workers_problem(results: Seq<WorkerResult>) -> Option<Seq<char>> {
    let errors = worker_errors(results);
    if errors.len() > 0 {
        Some(decimal(errors.len()) + " DynamoDB worker(s) failed: "@ + join(errors, "; "@))
    } else {
        None
    }
}

proof fn totals_grow(results: Seq<WorkerResult>, n: int)
    requires
        0 <= n <= results.len(),
    ensures
        worker_bytes(results.take(n)) <= worker_bytes(results),
        worker_rows(results.take(n)) <= worker_rows(results),
    decreases results.len() - n,
{
    if n < results.len() {
        totals_grow(results, n + 1);
        assert(results.take(n + 1).drop_last() == results.take(n));
    } else {
        assert(results.take(n) == results);
    }
}

/// What the results of a command come to: the bytes and rows that they account
/// for, and what is reported for the errors among them.
pub fn collect_results(results: &Vec<WorkerResult>) -> (collected: (usize, usize, Option<String>))
    requires
        worker_bytes(results@) <= usize::MAX,
        worker_rows(results@) <= usize::MAX,
    ensures
        collected.0 == worker_bytes(results@),
        collected.1 == worker_rows(results@),
        match collected.2 {
            Some(message) => workers_problem(results@) == Some(message@),
            None => workers_problem(results@) is None,
        },
{
    let mut num_bytes: usize = 0;
    let mut num_rows: usize = 0;
    let mut errors: Vec<String> = Vec::new();
    let mut i: usize = 0;
    assert(texts(errors@) == Seq::<Seq<char>>::empty());
    while i < results.len()
        invariant
            i <= results.len(),
            worker_bytes(results@) <= usize::MAX,
            worker_rows(results@) <= usize::MAX,
            num_bytes == worker_bytes(results@.take(i as int)),
            num_rows == worker_rows(results@.take(i as int)),
            texts(errors@) == worker_errors(results@.take(i as int)),
        decreases results.len() - i,
    {
        proof {
            assert(results@.take(i + 1).drop_last() == results@.take(i as int));
            totals_grow(results@, i + 1);
        }
        let ghost before = texts(errors@);
        match &results[i] {
            WorkerResult::Success { num_bytes: bytes, num_rows: rows } => {
                num_bytes = num_bytes + *bytes;
                num_rows = num_rows + *rows;
            },
            WorkerResult::Failure(e) => {
                errors.push(e.clone());
                assert(texts(errors@) == before.push(e@));
            },
            WorkerResult::Disconnected => {
                let e = worker_disconnected();
                let ghost shown = e@;
                errors.push(e);
                assert(texts(errors@) == before.push(shown));
            },
        }
        i += 1;
    }
    assert(results@.take(i as int) == results@);
    assert(texts(errors@).len() == errors@.len());
    if errors.len() > 0 {
        let mut message = decimal_text(errors.len() as u64);
        message.append(" DynamoDB worker(s) failed: ");
        message.append(join_texts(&errors, "; ").as_str());
        return (num_bytes, num_rows, Some(message));
    }
    (num_bytes, num_rows, None)
}

/// The bytes and rows that the results account for, unless one of them is too
/// large a number.
fn checked_totals(results: &Vec<WorkerResult>) -> (totals: Option<(usize, usize)>)
    ensures
        match totals {
            Some((num_bytes, num_rows)) => num_bytes == worker_bytes(results@) && num_rows
                == worker_rows(results@),
            None => worker_bytes(results@) > usize::MAX || worker_rows(results@) > usize::MAX,
        },
{
    let mut num_bytes: usize = 0;
    let mut num_rows: usize = 0;
    let mut i: usize = 0;
    while i < results.len()
        invariant
            i <= results.len(),
            num_bytes == worker_bytes(results@.take(i as int)),
            num_rows == worker_rows(results@.take(i as int)),
        decreases results.len() - i,
    {
        proof {
            assert(results@.take(i + 1).drop_last() == results@.take(i as int));
            totals_grow(results@, i + 1);
        }
        if let WorkerResult::Success { num_bytes: bytes, num_rows: rows } = &results[i] {
            match (num_bytes.checked_add(*bytes), num_rows.checked_add(*rows)) {
                (Some(b), Some(r)) => {
                    num_bytes = b;
                    num_rows = r;
                },
                _ => {
                    return None;
                },
            }
        }
        i += 1;
    }
    assert(results@.take(i as int) == results@);
    Some((num_bytes, num_rows))
}

/// What became of a command that was meant for all workers.
#[derive(Debug)]
pub enum Broadcast {
    /// Every worker got it. These are the answers.
    Answered(Vec<WorkerResult>),
    /// A worker was gone before it got it. No answer was waited for.
    Unsent,
}

impl Broadcast {
    /// The bytes that the answers account for.
    pub open spec fn bytes(self) -> nat {
        match self {
            Broadcast::Answered(results) => worker_bytes(results@),
            Broadcast::Unsent => 0,
        }
    }

    /// The rows that the answers account for.
    pub open spec fn rows(self) -> nat {
        match self {
            Broadcast::Answered(results) => worker_rows(results@),
            Broadcast::Unsent => 0,
        }
    }

    /// What is reported if the command failed.
    pub open spec fn problem(self) -> Option<Seq<char>> {
        match self {
            Broadcast::Answered(results) => workers_problem(results@),
            Broadcast::Unsent => Some("worker thread disconnected"@),
        }
    }
}

/// What a command to all workers comes to: the bytes and rows that it accounts
/// for, or what is reported for its failure.
pub fn broadcast_and_collect(broadcast: &Broadcast) -> (outcome: Result<(usize, usize), String>)
    requires
        broadcast.bytes() <= usize::MAX,
        broadcast.rows() <= usize::MAX,
    ensures
        match outcome {
            Ok((num_bytes, num_rows)) => broadcast.problem() is None && num_bytes
                == broadcast.bytes() && num_rows == broadcast.rows(),
            Err(message) => broadcast.problem() == Some(message@),
        },
{
    match broadcast {
        Broadcast::Unsent => Err(worker_disconnected()),
        Broadcast::Answered(results) => {
            let (num_bytes, num_rows, problem) = collect_results(results);
            match problem {
                Some(message) => Err(message),
                None => Ok((num_bytes, num_rows)),
            }
        },
    }
}

/// What is reported when a command cannot be sent to a worker.
pub fn worker_disconnected() -> (message: String)
    ensures
        message@ == "worker thread disconnected"@,
{
    "worker thread disconnected".to_owned()
}

/// The places of the first `n` partitions that hold anything.
pub open spec fn filled_places(filled: Seq<bool>, n: nat) -> Seq<usize>
    decreases n,
{
    if n == 0 {
        Seq::empty()
    } else {
        let before = filled_places(filled, (n - 1) as nat);
        if filled[n - 1] {
            before.push((n - 1) as usize)
        } else {
            before
        }
    }
}

/// Which partitions of a batch are handed to the workers, the first to the first
/// worker and so on: those that hold anything.
pub fn partitions_to_dispatch(filled: &Vec<bool>) -> (places: Vec<usize>)
    ensures
        places@ == filled_places(filled@, filled@.len()),
{
    let mut places: Vec<usize> = Vec::new();
    let mut i: usize = 0;
    while i < filled.len()
        invariant
            i <= filled.len(),
            places@ == filled_places(filled@, i as nat),
        decreases filled.len() - i,
    {
        if filled[i] {
            places.push(i);
        }
        i += 1;
    }
    places
}

/// Every partition that holds anything is dispatched exactly once, and no other.
pub proof fn filled_partitions_are_dispatched_once(filled: Seq<bool>, n: nat)
    requires
        n <= filled.len() <= usize::MAX,
    ensures
        filled_places(filled, n).no_duplicates(),
        forall|i: int|
            0 <= i < n ==> (#[trigger] filled[i] <==> filled_places(filled, n).contains(
                i as usize,
            )),
        forall|k: int|
            0 <= k < filled_places(filled, n).len() ==> (#[trigger] filled_places(filled, n)[k])
                < n,
    decreases n,
{
    if n > 0 {
        let m = (n - 1) as nat;
        filled_partitions_are_dispatched_once(filled, m);
        let before = filled_places(filled, m);
        let after = filled_places(filled, n);
        assert forall|i: int| 0 <= i < n implies (#[trigger] filled[i] <==> after.contains(
            i as usize,
        )) by {
            if i < m {
                if filled[i] {
                    let k = choose|k: int| 0 <= k < before.len() && before[k] == i as usize;
                    assert(after[k] == i as usize);
                } else if after.contains(i as usize) {
                    let k = choose|k: int| 0 <= k < after.len() && after[k] == i as usize;
                    assert(k < before.len());
                    assert(before[k] == i as usize);
                }
            } else if filled[i] {
                assert(after[before.len() as int] == i as usize);
            } else if after.contains(i as usize) {
                let k = choose|k: int| 0 <= k < before.len() && before[k] == i as usize;
                assert(before[k] < m);
            }
        }
    }
}

/// The name of a worker thread.
pub fn thread_name(endpoint_name: &str, i: usize) -> (name: String)
    ensures
        name@ == "dynamodb-output-"@ + endpoint_name@ + "-"@ + decimal(i as nat),
{
    let mut name = "dynamodb-output-".to_owned();
    name.append(endpoint_name);
    name.append("-");
    name.append(decimal_text(i as u64).as_str());
    name
}

/// The error of a worker thread that could not be spawned.
pub fn spawn_error(endpoint_name: &str, e: &str) -> (error: EndpointError)
    ensures
        error matches EndpointError::OutputTransport { endpoint_name: name, error: message }
            && name@ == endpoint_name@ && message@ == "failed to spawn worker thread: "@ + e@,
{
    let mut message = "failed to spawn worker thread: ".to_owned();
    message.append(e);
    EndpointError::OutputTransport { endpoint_name: endpoint_name.to_owned(), error: message }
}

/// A summary of the batches since the last report.
#[derive(Debug, Clone, Copy, PartialEq, Eq, Structural)]
pub struct ThroughputReport {
    pub rows: u64,
    pub bytes: u64,
    pub retries: u64,
    pub batches: u64,
    /// The time since the last report.
    pub elapsed: Nanos,
}

/// What the end of a batch comes to.
#[derive(Debug)]
pub struct BatchEnd {
    /// How many bytes and rows the batch held.
    pub num_bytes: usize,
    pub num_rows: usize,
    /// The error to report, which stops the endpoint.
    pub error: Option<String>,
    /// The throughput report that is due, if one is.
    pub report: Option<ThroughputReport>,
}

/// What the endpoint knows.
pub struct EndpointModel {
    pub config: DynamoDBWriterConfig,
    pub endpoint_name: Seq<char>,
    /// Bytes and rows of the current batch.
    pub num_bytes: usize,
    pub num_rows: usize,
    /// What was done since the last throughput report.
    pub rows_since: u64,
    pub bytes_since: u64,
    pub retries_since: u64,
    pub batches_since: u64,
    pub last_log: Nanos,
}

impl EndpointModel {
    /// The endpoint after a batch of `bytes` more bytes and `rows` more rows that
    /// took `retries` retries.
    pub open spec fn batched(self, bytes: usize, rows: usize, retries: u64) -> EndpointModel {
        EndpointModel {
            num_bytes: (self.num_bytes + bytes) as usize,
            num_rows: (self.num_rows + rows) as usize,
            rows_since: (self.rows_since + self.num_rows + rows) as u64,
            bytes_since: (self.bytes_since + self.num_bytes + bytes) as u64,
            retries_since: (self.retries_since + retries) as u64,
            batches_since: (self.batches_since + 1) as u64,
            ..self
        }
    }

    /// A throughput report is due.
    pub open spec fn report_due(self, now: Nanos) -> bool {
        elapsed(self.last_log, now) >= THROUGHPUT_LOG_INTERVAL
    }

    /// The throughput report.
    pub open spec fn report(self, now: Nanos) -> ThroughputReport {
        ThroughputReport {
            rows: self.rows_since,
            bytes: self.bytes_since,
            retries: self.retries_since,
            batches: self.batches_since,
            elapsed: elapsed(self.last_log, now),
        }
    }

    /// The endpoint after a throughput report, if one is due.
    pub open spec fn reported(self, now: Nanos) -> EndpointModel {
        if self.report_due(now) {
            EndpointModel {
                rows_since: 0,
                bytes_since: 0,
                retries_since: 0,
                batches_since: 0,
                last_log: now,
                ..self
            }
        } else {
            self
        }
    }

    /// The counters have room for another batch.
    pub open spec fn has_room(self, bytes: nat, rows: nat, retries: u64) -> bool {
        &&& self.num_bytes + bytes <= usize::MAX
        &&& self.num_rows + rows <= usize::MAX
        &&& self.rows_since + self.num_rows + rows <= u64::MAX
        &&& self.bytes_since + self.num_bytes + bytes <= u64::MAX
        &&& self.retries_since + retries <= u64::MAX
        &&& self.batches_since < u64::MAX
    }
}

/// The output endpoint, but for its worker threads.
#[derive(Debug)]
pub struct DynamoDBOutputEndpoint {
    config: DynamoDBWriterConfig,
    endpoint_name: String,
    num_bytes: usize,
    num_rows: usize,
    rows_since_last_log: u64,
    bytes_since_last_log: u64,
    retries_since_last_log: u64,
    batches_since_last_log: u64,
    last_throughput_log: Nanos,
}

impl View for DynamoDBOutputEndpoint {
    type V = EndpointModel;

    closed spec fn view(&self) -> EndpointModel {
        EndpointModel {
            config: self.config,
            endpoint_name: self.endpoint_name@,
            num_bytes: self.num_bytes,
            num_rows: self.num_rows,
            rows_since: self.rows_since_last_log,
            bytes_since: self.bytes_since_last_log,
            retries_since: self.retries_since_last_log,
            batches_since: self.batches_since_last_log,
            last_log: self.last_throughput_log,
        }
    }
}

impl DynamoDBOutputEndpoint {
    /// Makes an endpoint for a view with a unique key. `validation` is what the
    /// validation of the configuration came to.
    pub fn new(
        endpoint_name: &str,
        config: DynamoDBWriterConfig,
        validation: Result<(), String>,
        has_key_schema: bool,
        is_index: bool,
        now: Nanos,
    ) -> (endpoint: Result<Self, EndpointError>)
        ensures
            match endpoint {
                Ok(e) => validation is Ok && has_key_schema && is_index && e@ == (EndpointModel {
                    config,
                    endpoint_name: endpoint_name@,
                    num_bytes: 0,
                    num_rows: 0,
                    rows_since: 0,
                    bytes_since: 0,
                    retries_since: 0,
                    batches_since: 0,
                    last_log: now,
                }),
                Err(EndpointError::InvalidTransportConfiguration { endpoint_name: name, error }) =>
                    validation matches Err(problem) && name@ == endpoint_name@ && error@
                    == problem@,
                Err(EndpointError::NotSupported(message)) => validation is Ok && !(has_key_schema
                    && is_index) && message@
                    == "DynamoDB output connector requires the view to have a unique key. Please specify the `index` property in the connector configuration. For more details, see: https://docs.feldera.com/connectors/unique_keys"@,
                Err(EndpointError::OutputTransport { .. }) => false,
            },
    {
        if let Err(error) = validation {
            return Err(
                EndpointError::InvalidTransportConfiguration {
                    endpoint_name: endpoint_name.to_owned(),
                    error,
                },
            );
        }
        if !is_index || !has_key_schema {
            return Err(
                EndpointError::NotSupported(
                    "DynamoDB output connector requires the view to have a unique key. Please specify the `index` property in the connector configuration. For more details, see: https://docs.feldera.com/connectors/unique_keys".to_owned(),
                ),
            );
        }
        Ok(
            DynamoDBOutputEndpoint {
                config,
                endpoint_name: endpoint_name.to_owned(),
                num_bytes: 0,
                num_rows: 0,
                rows_since_last_log: 0,
                bytes_since_last_log: 0,
                retries_since_last_log: 0,
                batches_since_last_log: 0,
                last_throughput_log: now,
            },
        )
    }

    /// The configuration of the endpoint.
    pub fn config(&self) -> (config: &DynamoDBWriterConfig)
        ensures
            *config == self@.config,
    {
        &self.config
    }

    /// The name of the endpoint.
    pub fn endpoint_name(&self) -> (name: &str)
        ensures
            name@ == self@.endpoint_name,
    {
        self.endpoint_name.as_str()
    }

    /// Bytes and rows of the current batch so far.
    pub fn batch_size(&self) -> (size: (usize, usize))
        ensures
            size == (self@.num_bytes, self@.num_rows),
    {
        (self.num_bytes, self.num_rows)
    }

    /// Begins a batch: nothing of it is written yet.
    pub fn batch_start(&mut self, progress: &mut Progress)
        ensures
            final(self)@ == (EndpointModel { num_bytes: 0, num_rows: 0, ..old(self)@ }),
            *final(progress) == (Progress { records_written: 0, ..*old(progress) }),
    {
        progress.records_written = 0;
        self.num_bytes = 0;
        self.num_rows = 0;
    }

    /// Reports whether the counters have room for what the workers encoded.
    pub fn has_room_for(&self, results: &Vec<WorkerResult>) -> (room: bool)
        ensures
            room == (self@.num_bytes + worker_bytes(results@) <= usize::MAX && self@.num_rows
                + worker_rows(results@) <= usize::MAX),
    {
        match checked_totals(results) {
            Some((bytes, rows)) => bytes <= usize::MAX - self.num_bytes && rows <= usize::MAX
                - self.num_rows,
            None => false,
        }
    }

    /// Reports whether the counters have room for another batch.
    pub fn has_room(&self, broadcast: &Broadcast, progress: &Progress) -> (room: bool)
        ensures
            room == self@.has_room(broadcast.bytes(), broadcast.rows(), progress.retries),
    {
        let (bytes, rows) = match broadcast {
            Broadcast::Answered(results) => match checked_totals(results) {
                Some(totals) => totals,
                None => {
                    return false;
                },
            },
            Broadcast::Unsent => (0, 0),
        };
        if bytes > usize::MAX - self.num_bytes || rows > usize::MAX - self.num_rows {
            return false;
        }
        (self.num_rows + rows) as u64 <= u64::MAX - self.rows_since_last_log && (self.num_bytes
            + bytes) as u64 <= u64::MAX - self.bytes_since_last_log && progress.retries <= u64::MAX
            - self.retries_since_last_log && self.batches_since_last_log < u64::MAX
    }

    /// Accounts for what the workers encoded. What succeeded counts even when
    /// another worker failed.
    pub fn encode(&mut self, results: &Vec<WorkerResult>) -> (outcome: Result<(), String>)
        requires
            old(self)@.num_bytes + worker_bytes(results@) <= usize::MAX,
            old(self)@.num_rows + worker_rows(results@) <= usize::MAX,
        ensures
            final(self)@ == (EndpointModel {
                num_bytes: (old(self)@.num_bytes + worker_bytes(results@)) as usize,
                num_rows: (old(self)@.num_rows + worker_rows(results@)) as usize,
                ..old(self)@
            }),
            match outcome {
                Ok(_) => workers_problem(results@) is None,
                Err(message) => workers_problem(results@) == Some(message@),
            },
    {
        let (bytes, rows, problem) = collect_results(results);
        self.num_bytes = self.num_bytes + bytes;
        self.num_rows = self.num_rows + rows;
        match problem {
            Some(message) => Err(message),
            None => Ok(()),
        }
    }

    /// Ends a batch with what the command to end it came to. The time that took is noted in
    /// any case; the throughput counts only batches that succeeded.
    pub fn batch_end(
        &mut self,
        broadcast: &Broadcast,
        progress: &mut Progress,
        stats: &mut DynamoDBBenchStats,
        took_micros: u64,
        now: Nanos,
    ) -> (end: BatchEnd)
        requires
            old(self)@.has_room(broadcast.bytes(), broadcast.rows(), old(progress).retries),
        ensures
            final(stats)@ == (StatsModel {
                flush_durations_us: old(stats)@.flush_durations_us.push(took_micros),
                ..old(stats)@
            }),
            final(progress).records_written == 0,
            match broadcast.problem() {
                Some(problem) => {
                    &&& end.error matches Some(message) && message@ == problem
                    &&& end.num_bytes == old(self)@.num_bytes
                    &&& end.num_rows == old(self)@.num_rows
                    &&& end.report is None
                    &&& final(progress).retries == old(progress).retries
                    &&& final(self)@ == (EndpointModel { num_bytes: 0, num_rows: 0, ..old(self)@ })
                },
                None => {
                    let after = old(self)@.batched(
                        broadcast.bytes() as usize,
                        broadcast.rows() as usize,
                        old(progress).retries,
                    );
                    &&& end.error is None
                    &&& end.num_bytes == after.num_bytes
                    &&& end.num_rows == after.num_rows
                    &&& end.report == if after.report_due(now) {
                        Some(after.report(now))
                    } else {
                        None
                    }
                    &&& final(progress).retries == 0
                    &&& final(self)@ == (EndpointModel {
                        num_bytes: 0,
                        num_rows: 0,
                        ..after.reported(now)
                    })
                },
            },
    {
        stats.add_flush_duration(took_micros);
        let mut report: Option<ThroughputReport> = None;
        let mut error: Option<String> = None;
        match broadcast_and_collect(broadcast) {
            Ok((bytes, rows)) => {
                self.num_bytes = self.num_bytes + bytes;
                self.num_rows = self.num_rows + rows;
                self.rows_since_last_log = self.rows_since_last_log + self.num_rows as u64;
                self.bytes_since_last_log = self.bytes_since_last_log + self.num_bytes as u64;
                self.retries_since_last_log = self.retries_since_last_log + progress.retries;
                self.batches_since_last_log = self.batches_since_last_log + 1;
                progress.retries = 0;
                let since_last: Nanos = time_since(self.last_throughput_log, now);
                if since_last >= THROUGHPUT_LOG_INTERVAL {
                    report = Some(
                        ThroughputReport {
                            rows: self.rows_since_last_log,
                            bytes: self.bytes_since_last_log,
                            retries: self.retries_since_last_log,
                            batches: self.batches_since_last_log,
                            elapsed: since_last,
                        },
                    );
                    self.rows_since_last_log = 0;
                    self.bytes_since_last_log = 0;
                    self.retries_since_last_log = 0;
                    self.batches_since_last_log = 0;
                    self.last_throughput_log = now;
                }
            },
            Err(message) => {
                error = Some(message);
            },
        }
        let num_bytes: usize = self.num_bytes;
        let num_rows: usize = self.num_rows;
        self.num_bytes = 0;
        self.num_rows = 0;
        progress.records_written = 0;
        BatchEnd { num_bytes, num_rows, error, report }
    }

    /// Limit on the bytes that a worker buffers.
    pub fn max_buffer_size_bytes(&self) -> (size: usize)
        ensures
            size == self@.config.max_buffer_size_bytes,
    {
        self.config.max_buffer_size_bytes
    }

    /// The endpoint does not take part in checkpoints.
    pub fn is_fault_tolerant(&self) -> (ft: bool)
        ensures
            !ft,
    {
        false
    }
}

/// The results of workers add up one by one: a success counts for its bytes and rows and
/// is no error; a failure counts for nothing and is reported with its own text, and a
/// worker that is gone is reported as such.
pub proof fn worker_results_add_up(
    a: Seq<WorkerResult>,
    b: Seq<WorkerResult>,
    result: WorkerResult,
)
    ensures
        worker_errors(Seq::empty()) == Seq::<Seq<char>>::empty(),
        worker_bytes(Seq::empty()) == 0,
        worker_rows(Seq::empty()) == 0,
        match result {
            WorkerResult::Success { num_bytes, num_rows } => {
                &&& worker_errors(seq![result]) == Seq::<Seq<char>>::empty()
                &&& worker_bytes(seq![result]) == num_bytes
                &&& worker_rows(seq![result]) == num_rows
            },
            WorkerResult::Failure(e) => {
                &&& worker_errors(seq![result]) == seq![e@]
                &&& worker_bytes(seq![result]) == 0
                &&& worker_rows(seq![result]) == 0
            },
            WorkerResult::Disconnected => {
                &&& worker_errors(seq![result]) == seq!["worker thread disconnected"@]
                &&& worker_bytes(seq![result]) == 0
                &&& worker_rows(seq![result]) == 0
            },
        },
        worker_errors(a + b) == worker_errors(a) + worker_errors(b),
        worker_bytes(a + b) == worker_bytes(a) + worker_bytes(b),
        worker_rows(a + b) == worker_rows(a) + worker_rows(b),
    decreases b.len(),
{
    reveal_with_fuel(worker_errors, 2);
    reveal_with_fuel(worker_bytes, 2);
    reveal_with_fuel(worker_rows, 2);
    assert(seq![result].drop_last() == Seq::<WorkerResult>::empty());
    if b.len() == 0 {
        assert(a + b == a);
        assert(worker_errors(a) + worker_errors(b) == worker_errors(a));
    } else {
        worker_results_add_up(a, b.drop_last(), result);
        assert((a + b).drop_last() == a + b.drop_last());
        assert((a + b).last() == b.last());
        assert(worker_errors(a + b) == worker_errors(a) + worker_errors(b));
    }
}

/// A command fails exactly if some worker did not get it or did not succeed. The report
/// says how many workers failed and joins what each of them said.
pub proof fn one_failed_worker_fails_the_command(broadcast: Broadcast)
    ensures
        match broadcast {
            Broadcast::Unsent => {
                &&& broadcast.problem() == Some("worker thread disconnected"@)
                &&& broadcast.bytes() == 0
                &&& broadcast.rows() == 0
            },
            Broadcast::Answered(results) => {
                &&& broadcast.problem() is None <==> forall|i: int|
                    0 <= i < results@.len() ==> (#[trigger] results@[i]) is Success
                &&& broadcast.problem() matches Some(message) ==> message == decimal(
                    worker_errors(results@).len(),
                ) + " DynamoDB worker(s) failed: "@ + join(worker_errors(results@), "; "@)
                &&& broadcast.bytes() == worker_bytes(results@)
                &&& broadcast.rows() == worker_rows(results@)
            },
        },
{
    if let Broadcast::Answered(results) = broadcast {
        errors_are_failures(results@);
    }
}

proof fn errors_are_failures(results: Seq<WorkerResult>)
    ensures
        worker_errors(results).len() == 0 <==> forall|i: int|
            0 <= i < results.len() ==> (#[trigger] results[i]) is Success,
    decreases results.len(),
{
    if results.len() > 0 {
        let before = results.drop_last();
        errors_are_failures(before);
        if results[results.len() - 1] is Success {
            assert forall|i: int|
                0 <= i < results.len() && worker_errors(before).len() == 0 implies (
            #[trigger] results[i]) is Success by {
                if i < before.len() {
                    assert(before[i] == results[i]);
                }
            }
            if exists|i: int| 0 <= i < before.len() && !(#[trigger] before[i] is Success) {
                let i = choose|i: int| 0 <= i < before.len() && !(#[trigger] before[i] is Success);
                assert(!(results[i] is Success));
            }
        } else {
            assert(worker_errors(results).len() > 0);
        }
    }
}

/// The partitions are dispatched in their own order, the first that holds anything to
/// the first worker.
pub proof fn partitions_are_dispatched_in_order(filled: Seq<bool>, n: nat, k: int, l: int)
    requires
        n <= filled.len() <= usize::MAX,
        0 <= k < l < filled_places(filled, n).len(),
    ensures
        filled_places(filled, n)[k] < filled_places(filled, n)[l],
    decreases n,
{
    if n > 0 {
        let m = (n - 1) as nat;
        let before = filled_places(filled, m);
        filled_partitions_are_dispatched_once(filled, m);
        if l < before.len() {
            partitions_are_dispatched_in_order(filled, m, k, l);
        } else {
            assert(before[k] < m);
        }
    }
}

/// A batch that succeeded adds its bytes, rows and retries to what was done since the
/// last report, and is one more batch. A report is made of these numbers exactly if at
/// least 60 seconds have passed since the last one, and counting then starts again.
pub proof fn throughput_is_reported_once_a_minute(
    endpoint: EndpointModel,
    bytes: usize,
    rows: usize,
    retries: u64,
    now: Nanos,
)
    requires
        endpoint.has_room(bytes as nat, rows as nat, retries),
    ensures
        ({
            let after = endpoint.batched(bytes, rows, retries);
            let report = after.report(now);
            let later = after.reported(now);
            &&& after.config == endpoint.config
            &&& after.endpoint_name == endpoint.endpoint_name
            &&& after.num_bytes == endpoint.num_bytes + bytes
            &&& after.num_rows == endpoint.num_rows + rows
            &&& after.rows_since == endpoint.rows_since + after.num_rows
            &&& after.bytes_since == endpoint.bytes_since + after.num_bytes
            &&& after.retries_since == endpoint.retries_since + retries
            &&& after.batches_since == endpoint.batches_since + 1
            &&& after.last_log == endpoint.last_log
            &&& after.report_due(now) <==> now >= endpoint.last_log + 60_000_000_000
            &&& report.rows == after.rows_since
            &&& report.bytes == after.bytes_since
            &&& report.retries == after.retries_since
            &&& report.batches == after.batches_since
            &&& now >= endpoint.last_log ==> report.elapsed == now - endpoint.last_log
            &&& now < endpoint.last_log + 60_000_000_000 ==> later == after
            &&& now >= endpoint.last_log + 60_000_000_000 ==> later == (EndpointModel {
                rows_since: 0,
                bytes_since: 0,
                retries_since: 0,
                batches_since: 0,
                last_log: now,
                ..after
            })
        }),
{
}

/// There is room for another batch exactly if none of the counters would overflow.
pub proof fn room_is_what_the_counters_leave(
    endpoint: EndpointModel,
    bytes: nat,
    rows: nat,
    retries: u64,
)
    ensures
        endpoint.has_room(bytes, rows, retries) <==> endpoint.num_bytes + bytes <= usize::MAX
            && endpoint.num_rows + rows <= usize::MAX && endpoint.rows_since + endpoint.num_rows
            + rows <= u64::MAX && endpoint.bytes_since + endpoint.num_bytes + bytes <= u64::MAX
            && endpoint.retries_since + retries <= u64::MAX && endpoint.batches_since < u64::MAX,
{
}

} // verus!
