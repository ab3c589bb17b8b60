//! A worker: it encodes changes as write requests and buffers them until they
//! are written.

use vstd::prelude::*;
use vstd::string::*;

use crate::dynamodb::item::distinct_names;
use crate::dynamodb::item::distinct_names_within;
use crate::dynamodb::item::item_size;
use crate::dynamodb::item::AttributeValue;
use crate::dynamodb::item::Item;
use crate::dynamodb::request::all_distinct;
use crate::dynamodb::request::request_models;
use crate::dynamodb::request::RequestModel;
use crate::dynamodb::request::WriteRequest;
use crate::dynamodb::stats::counted;
use crate::text::join;
use crate::text::join_texts;
use crate::text::same_text;
use crate::text::texts;

verus! {

/// How items are written.
#[derive(Debug, Clone, Copy, PartialEq, Eq, Structural)]
pub enum DynamoDBWriteMode {
    /// Batch writes, which are not atomic.
    Batch,
    /// Transactions.
    Transactional,
}

/// Configuration of the DynamoDB output connector.
#[derive(Debug, Clone, PartialEq, Eq)]
pub struct DynamoDBWriterConfig {
    pub table: String,
    pub region: String,
    pub endpoint_url: Option<String>,
    pub aws_access_key_id: Option<String>,
    pub aws_secret_access_key: Option<String>,
    /// How many items are written at once: the configured number, or the largest
    /// that the write mode allows.
    pub effective_batch_size: usize,
    pub write_mode: DynamoDBWriteMode,
    pub max_buffer_size_bytes: usize,
    pub max_concurrent_requests: usize,
    pub threads: usize,
    pub max_retries: usize,
}

/// Where the credentials of the client come from.
#[derive(Debug, PartialEq, Eq)]
pub enum CredentialSource {
    /// From the configuration.
    Static { access_key: String, secret_key: String },
    /// From the default provider chain of the SDK.
    DefaultProvider,
}

impl DynamoDBWriterConfig {
    /// Credentials in the configuration are used when both parts are there.
    pub fn credential_source(&self) -> (source: CredentialSource)
        ensures
            match (self.aws_access_key_id, self.aws_secret_access_key) {
                (Some(access), Some(secret)) => source matches CredentialSource::Static {
                    access_key,
                    secret_key,
                } && access_key@ == access@ && secret_key@ == secret@,
                _ => source is DefaultProvider,
            },
    {
        match (&self.aws_access_key_id, &self.aws_secret_access_key) {
            (Some(access), Some(secret)) => CredentialSource::Static {
                access_key: access.clone(),
                secret_key: secret.clone(),
            },
            _ => CredentialSource::DefaultProvider,
        }
    }
}

/// What a change does to the row under one key.
#[derive(Debug, Clone, Copy, PartialEq, Eq, Structural)]
pub enum IndexedOperationType {
    Insert,
    Delete,
    Upsert,
}

/// The change under one key, as it was read from a batch. Each reading that can
/// fail holds the text of the error.
#[derive(Debug)]
pub struct KeyUpdate {
    /// What the change does; nothing when its parts cancel out.
    pub operation: Result<Option<IndexedOperationType>, String>,
    /// The weight of the first value under the key.
    pub weight: i64,
    /// The first value under the key, as an item.
    pub first: Result<Item, String>,
    /// The second value under the key, as an item.
    pub second: Result<Item, String>,
    /// The key, as an item.
    pub key: Result<Item, String>,
}

/// Attributes by name, as plain data.
pub type Fields = Seq<(String, AttributeValue)>;

/// The item has an attribute of the given name.
pub open spec fn has_field(item: Fields, name: Seq<char>) -> bool {
    exists|i: int| 0 <= i < item.len() && (#[trigger] item[i]).0@ == name
}

/// The item with those of the first `n` attributes of `key` added to it whose
/// names it does not have.
pub open spec fn merged(item: Fields, key: Fields, n: nat) -> Fields
    decreases n,
{
    if n == 0 {
        item
    } else {
        let before = merged(item, key, (n - 1) as nat);
        if has_field(before, key[n - 1].0@) {
            before
        } else {
            before.push(key[n - 1])
        }
    }
}

/// Some name is missing among the attributes of the item.
pub open spec fn lacks_any(item: Fields, names: Seq<Seq<char>>) -> bool {
    exists|i: int| 0 <= i < names.len() && !has_field(item, #[trigger] names[i])
}

/// The key of a change, which must not be empty.
pub open spec fn key_of(key: Result<Item, String>) -> Result<Fields, Seq<char>> {
    match key {
        Err(e) => Err(e@),
        Ok(k) => if k@.len() == 0 {
            Err("dynamodb output connector requires a non-empty index key"@)
        } else {
            Ok(k@)
        },
    }
}

/// The item to put for a value. Key attributes that the value lacks are added to
/// it.
pub open spec fn item_of(
    value: Result<Item, String>,
    key: Result<Item, String>,
    key_names: Seq<Seq<char>>,
    keys_in_value: bool,
) -> Result<Fields, Seq<char>> {
    match value {
        Err(e) => Err(e@),
        Ok(item) => if !keys_in_value && lacks_any(item@, key_names) {
            match key_of(key) {
                Err(e) => Err(e),
                Ok(k) => Ok(merged(item@, k, k.len())),
            }
        } else {
            Ok(item@)
        },
    }
}

/// No name occurs twice in an item that could be read.
pub open spec fn reads_distinct(item: Result<Item, String>) -> bool {
    item matches Ok(fields) ==> distinct_names(fields@)
}

impl KeyUpdate {
    /// No name occurs twice in the items that could be read.
    pub open spec fn distinct(self) -> bool {
        reads_distinct(self.first) && reads_distinct(self.second) && reads_distinct(self.key)
    }

    /// The value that is written: of an upsert the new one, which comes second
    /// when the first is withdrawn.
    pub open spec fn value(self) -> Result<Item, String> {
        if self.operation == Ok::<Option<IndexedOperationType>, String>(
            Some(IndexedOperationType::Upsert),
        ) && self.weight < 0 {
            self.second
        } else {
            self.first
        }
    }

    /// The request for the change, if one is needed: inserts and upserts put the
    /// new value, deletes name the key.
    #[verifier::opaque]
    pub open spec fn request(self, key_names: Seq<Seq<char>>, keys_in_value: bool) -> Result<
        Option<RequestModel>,
        Seq<char>,
    > {
        match self.operation {
            Err(e) => Err(e@),
            Ok(None) => Ok(None),
            Ok(Some(IndexedOperationType::Delete)) => match key_of(self.key) {
                Err(e) => Err(e),
                Ok(k) => Ok(Some(RequestModel::delete_of(k))),
            },
            Ok(Some(_)) => match item_of(self.value(), self.key, key_names, keys_in_value) {
                Err(e) => Err(e),
                Ok(item) => Ok(Some(RequestModel::put_of(item))),
            },
        }
    }
}

/// Adding attributes whose names are missing keeps the names distinct.
proof fn merging_keeps_names_distinct(item: Fields, key: Fields, n: nat)
    requires
        n <= key.len(),
        distinct_names(item),
        distinct_names(key),
    ensures
        distinct_names(merged(item, key, n)),
    decreases n,
{
    if n > 0 {
        merging_keeps_names_distinct(item, key, (n - 1) as nat);
        let before = merged(item, key, (n - 1) as nat);
        let after = merged(item, key, n);
        assert(distinct_names_within(key[n - 1].1));
        assert forall|i: int| 0 <= i < after.len() implies distinct_names_within(
            (#[trigger] after[i]).1,
        ) by {
            if i < before.len() {
                assert(after[i] == before[i]);
            }
        }
    }
}

/// No name occurs twice in the item to put for a value, if none does in the value
/// and in the key.
proof fn put_items_have_distinct_names(
    value: Result<Item, String>,
    key: Result<Item, String>,
    key_names: Seq<Seq<char>>,
    keys_in_value: bool,
)
    requires
        reads_distinct(value),
        reads_distinct(key),
    ensures
        item_of(value, key, key_names, keys_in_value) matches Ok(item) ==> distinct_names(item),
{
    if let (Ok(item), Ok(k)) = (value, key) {
        merging_keeps_names_distinct(item@, k@, k@.len());
    }
}

/// No name occurs twice in the request for a change, if none does in the change.
proof fn requests_have_distinct_names(
    update: KeyUpdate,
    key_names: Seq<Seq<char>>,
    keys_in_value: bool,
)
    requires
        update.distinct(),
    ensures
        update.request(key_names, keys_in_value) matches Ok(Some(request)) ==> request.distinct(),
{
    reveal(KeyUpdate::request);
    put_items_have_distinct_names(update.value(), update.key, key_names, keys_in_value);
}

/// Requests that are to be written together.
#[derive(Debug, PartialEq, Eq)]
pub struct WriteJob {
    pub requests: Vec<WriteRequest>,
    pub bytes: usize,
}

/// Requests that are to be written together, as plain data.
pub struct JobModel {
    pub requests: Seq<RequestModel>,
    pub bytes: nat,
}

impl View for WriteJob {
    type V = JobModel;

    open spec fn view(&self) -> JobModel {
        JobModel { requests: request_models(self.requests@), bytes: self.bytes as nat }
    }
}

/// A list of jobs, as plain data.
pub open spec fn job_models(jobs: Seq<WriteJob>) -> Seq<JobModel> {
    Seq::new(jobs.len(), |i: int| jobs[i]@)
}

/// How many bytes a list of requests counts for.
pub open spec fn requests_size(requests: Seq<RequestModel>) -> nat
    decreases requests.len(),
{
    if requests.len() == 0 {
        0
    } else {
        requests_size(requests.drop_last()) + requests.last().size()
    }
}

/// How many rows a list of jobs holds.
pub open spec fn job_rows(jobs: Seq<JobModel>) -> nat
    decreases jobs.len(),
{
    if jobs.len() == 0 {
        0
    } else {
        job_rows(jobs.drop_last()) + jobs.last().requests.len()
    }
}

/// How many bytes a list of jobs holds.
pub open spec fn job_bytes(jobs: Seq<JobModel>) -> nat
    decreases jobs.len(),
{
    if jobs.len() == 0 {
        0
    } else {
        job_bytes(jobs.drop_last()) + jobs.last().bytes
    }
}

/// The requests of a list of jobs, in order.
pub open spec fn job_requests(jobs: Seq<JobModel>) -> Seq<RequestModel>
    decreases jobs.len(),
{
    if jobs.len() == 0 {
        Seq::empty()
    } else {
        job_requests(jobs.drop_last()) + jobs.last().requests
    }
}

/// What a worker knows.
pub struct WorkerModel {
    pub key_names: Seq<Seq<char>>,
    /// Every key attribute is also an attribute of the value.
    pub keys_in_value: bool,
    /// The requests that are buffered.
    pub pending: Seq<RequestModel>,
    /// How many bytes the buffered requests were counted for.
    pub pending_bytes: nat,
    pub max_buffer_size_bytes: usize,
    pub flush_records_threshold: usize,
    /// How many rows were handed over for writing, modulo 2^64.
    pub records_written: u64,
}

impl WorkerModel {
    /// Enough is buffered to be written.
    pub open spec fn is_full(self) -> bool {
        self.pending.len() >= self.flush_records_threshold || self.pending_bytes
            >= self.max_buffer_size_bytes
    }

    /// What is buffered is less than what is written at once, and an empty buffer
    /// counts for nothing.
    pub open spec fn wf(self) -> bool {
        &&& self.pending.len() > 0 ==> !self.is_full()
        &&& self.pending.len() == 0 ==> self.pending_bytes == 0
    }

    /// Each buffered request was counted for its size.
    pub open spec fn counts_sizes(self) -> bool {
        self.pending_bytes == requests_size(self.pending)
    }

    /// The job that a flush hands over.
    pub open spec fn job(self) -> JobModel {
        JobModel { requests: self.pending, bytes: self.pending_bytes }
    }

    /// The worker after a flush.
    pub open spec fn flushed(self) -> WorkerModel {
        WorkerModel {
            pending: Seq::empty(),
            pending_bytes: 0,
            records_written: counted(self.records_written, self.pending.len()),
            ..self
        }
    }

    /// The worker with one more request in its buffer, counted for `bytes` bytes.
    pub open spec fn buffered(self, request: RequestModel, bytes: nat) -> WorkerModel {
        WorkerModel {
            pending: self.pending.push(request),
            pending_bytes: self.pending_bytes + bytes,
            ..self
        }
    }

    /// The worker after a request that is counted for `bytes` bytes.
    pub open spec fn pushed(self, request: RequestModel, bytes: nat) -> WorkerModel {
        if self.buffered(request, bytes).is_full() {
            self.buffered(request, bytes).flushed()
        } else {
            self.buffered(request, bytes)
        }
    }

    /// The jobs that are handed over on a request that is counted for `bytes`
    /// bytes: at most one.
    pub open spec fn jobs_on(self, request: RequestModel, bytes: nat) -> Seq<JobModel> {
        if self.buffered(request, bytes).is_full() {
            seq![self.buffered(request, bytes).job()]
        } else {
            Seq::empty()
        }
    }

    /// The request for a change, if one is needed.
    pub open spec fn request_for(self, update: KeyUpdate) -> Result<
        Option<RequestModel>,
        Seq<char>,
    > {
        update.request(self.key_names, self.keys_in_value)
    }
}

/// How far the encoding of a list of changes has come.
pub struct EncodeModel {
    pub worker: WorkerModel,
    pub jobs: Seq<JobModel>,
    /// The error that stopped it.
    pub error: Option<Seq<char>>,
}

/// The encoding of `updates`, in order, up to the first error. Each request is
/// counted for its size.
pub open spec fn encoding(worker: WorkerModel, updates: Seq<KeyUpdate>) -> EncodeModel
    decreases updates.len(),
{
    if updates.len() == 0 {
        EncodeModel { worker, jobs: Seq::empty(), error: None }
    } else {
        let before = encoding(worker, updates.drop_last());
        if before.error is Some {
            before
        } else {
            match before.worker.request_for(updates.last()) {
                Err(e) => EncodeModel { error: Some(e), ..before },
                Ok(None) => before,
                Ok(Some(request)) => EncodeModel {
                    worker: before.worker.pushed(request, request.size()),
                    jobs: before.jobs + before.worker.jobs_on(request, request.size()),
                    error: None,
                },
            }
        }
    }
}

/// The requests for `updates`, in order, up to the first error.
pub open spec fn requests_for(worker: WorkerModel, updates: Seq<KeyUpdate>) -> Seq<RequestModel>
    decreases updates.len(),
{
    if updates.len() == 0 {
        Seq::empty()
    } else {
        let before = requests_for(worker, updates.drop_last());
        if encoding(worker, updates.drop_last()).error is Some {
            before
        } else {
            match worker.request_for(updates.last()) {
                Ok(Some(request)) => before.push(request),
                _ => before,
            }
        }
    }
}

/// What the encoding of a list of changes came to. The jobs are to be written
/// even when an error stopped the encoding.
#[derive(Debug)]
pub struct Encoded {
    pub jobs: Vec<WriteJob>,
    /// How many bytes and rows the jobs hold, or the error.
    pub outcome: Result<(usize, usize), String>,
}

/// How a spawned write ended.
#[derive(Debug)]
pub enum WriteOutcome {
    Done,
    Failed(String),
    /// The task panicked, with this text.
    Panicked(String),
}

/// The errors among the outcomes, in order.
pub open spec fn write_errors(outcomes: Seq<WriteOutcome>) -> Seq<Seq<char>>
    decreases outcomes.len(),
{
    if outcomes.len() == 0 {
        Seq::empty()
    } else {
        let before = write_errors(outcomes.drop_last());
        match outcomes.last() {
            WriteOutcome::Done => before,
            WriteOutcome::Failed(e) => before.push(e@),
            WriteOutcome::Panicked(e) => before.push("write task panicked: "@ + e@),
        }
    }
}

/// What the spawned writes of a batch come to: all errors in one text.
pub fn join_pending_writes(outcomes: &Vec<WriteOutcome>) -> (outcome: Result<(), String>)
    ensures
        match outcome {
            Ok(_) => write_errors(outcomes@).len() == 0,
            Err(message) => write_errors(outcomes@).len() > 0 && message@
                == "DynamoDB writes failed: "@ + join(write_errors(outcomes@), "; "@),
        },
{
    let mut errors: Vec<String> = Vec::new();
    let mut i: usize = 0;
    assert(texts(errors@) == Seq::<Seq<char>>::empty());
    while i < outcomes.len()
        invariant
            i <= outcomes.len(),
            texts(errors@) == write_errors(outcomes@.take(i as int)),
        decreases outcomes.len() - i,
    {
        assert(outcomes@.take(i + 1).drop_last() == outcomes@.take(i as int));
        let ghost before = texts(errors@);
        match &outcomes[i] {
            WriteOutcome::Done => {},
            WriteOutcome::Failed(e) => {
                errors.push(e.clone());
                assert(texts(errors@) == before.push(e@));
            },
            WriteOutcome::Panicked(e) => {
                let mut message = "write task panicked: ".to_owned();
                message.append(e.as_str());
                let ghost m = message@;
                errors.push(message);
                assert(texts(errors@) == before.push(m));
            },
        }
        i += 1;
    }
    assert(outcomes@.take(i as int) == outcomes@);
    assert(texts(errors@).len() == errors@.len());
    if errors.len() > 0 {
        let mut message = "DynamoDB writes failed: ".to_owned();
        message.append(join_texts(&errors, "; ").as_str());
        return Err(message);
    }
    Ok(())
}

/// A worker of the connector, but for the client that writes.
#[derive(Debug)]
pub struct DynamoDBWorker {
    key_field_names: Vec<String>,
    key_fields_in_value: bool,
    pending: Vec<WriteRequest>,
    pending_bytes: usize,
    max_buffer_size_bytes: usize,
    flush_records_threshold: usize,
    records_written: u64,
}

impl View for DynamoDBWorker {
    type V = WorkerModel;

    closed spec fn view(&self) -> WorkerModel {
        WorkerModel {
            key_names: texts(self.key_field_names@),
            keys_in_value: self.key_fields_in_value,
            pending: request_models(self.pending@),
            pending_bytes: self.pending_bytes as nat,
            max_buffer_size_bytes: self.max_buffer_size_bytes,
            flush_records_threshold: self.flush_records_threshold,
            records_written: self.records_written,
        }
    }
}

fn contains_field(item: &Item, name: &str) -> (b: bool)
    ensures
        b == has_field(item@, name@),
{
    let mut i: usize = 0;
    while i < item.len()
        invariant
            i <= item.len(),
            forall|k: int| 0 <= k < i ==> (#[trigger] item@[k]).0@ != name@,
        decreases item.len() - i,
    {
        if same_text(item[i].0.as_str(), name) {
            return true;
        }
        i += 1;
    }
    false
}

fn contains_name(names: &Vec<String>, name: &str) -> (b: bool)
    ensures
        b == texts(names@).contains(name@),
{
    let mut i: usize = 0;
    while i < names.len()
        invariant
            i <= names.len(),
            forall|k: int| 0 <= k < i ==> #[trigger] texts(names@)[k] != name@,
        decreases names.len() - i,
    {
        if same_text(names[i].as_str(), name) {
            assert(texts(names@)[i as int] == name@);
            return true;
        }
        assert(texts(names@)[i as int] != name@);
        i += 1;
    }
    false
}

/// Every name of the one list is a name of the other.
pub open spec fn all_in(names: Seq<Seq<char>>, others: Seq<Seq<char>>) -> bool {
    forall|i: int| 0 <= i < names.len() ==> others.contains(#[trigger] names[i])
}

/// Adds to `item` the attributes of `key` whose names it does not have.
fn add_missing(item: Item, key: Item) -> (all: Item)
    ensures
        all@ == merged(item@, key@, key@.len()),
{
    let ghost item0 = item@;
    let ghost key0 = key@;
    let mut all = item;
    for field in it: key
        invariant
            it.seq() == key0,
            all@ == merged(item0, key0, it.index() as nat),
    {
        if !contains_field(&all, field.0.as_str()) {
            all.push(field);
        }
    }
    all
}

fn key_item(key: Result<Item, String>) -> (outcome: Result<Item, String>)
    ensures
        match outcome {
            Ok(k) => key_of(key) == Ok::<Fields, Seq<char>>(k@),
            Err(e) => key_of(key) == Err::<Fields, Seq<char>>(e@),
        },
{
    match key {
        Err(e) => Err(e),
        Ok(k) => {
            if k.len() == 0 {
                Err("dynamodb output connector requires a non-empty index key".to_owned())
            } else {
                Ok(k)
            }
        },
    }
}

impl DynamoDBWorker {
    /// What is buffered is less than what is written at once.
    pub open spec fn wf(&self) -> bool {
        self@.wf()
    }

    /// A worker with an empty buffer. It writes as soon as its buffer holds as
    /// many rows as can be in flight at once, or `max_buffer_size_bytes` bytes.
    pub fn with_config(
        config: &DynamoDBWriterConfig,
        key_field_names: Vec<String>,
        value_field_names: &Vec<String>,
    ) -> (worker: Self)
        requires
            config.effective_batch_size * config.max_concurrent_requests <= usize::MAX,
        ensures
            worker.wf(),
            worker@ == (WorkerModel {
                key_names: texts(key_field_names@),
                keys_in_value: all_in(texts(key_field_names@), texts(value_field_names@)),
                pending: Seq::empty(),
                pending_bytes: 0,
                max_buffer_size_bytes: config.max_buffer_size_bytes,
                flush_records_threshold: (config.effective_batch_size
                    * config.max_concurrent_requests) as usize,
                records_written: 0,
            }),
            worker@.keys_in_value <==> forall|i: int|
                0 <= i < key_field_names@.len() ==> texts(value_field_names@).contains(
                    (#[trigger] key_field_names@[i])@,
                ),
    {
        let mut key_fields_in_value = true;
        let mut i: usize = 0;
        while i < key_field_names.len()
            invariant
                i <= key_field_names.len(),
                key_fields_in_value == (forall|k: int|
                    0 <= k < i ==> texts(value_field_names@).contains(
                        #[trigger] texts(key_field_names@)[k],
                    )),
            decreases key_field_names.len() - i,
        {
            assert(texts(key_field_names@)[i as int] == key_field_names@[i as int]@);
            if !contains_name(value_field_names, key_field_names[i].as_str()) {
                key_fields_in_value = false;
            }
            i += 1;
        }
        let worker = DynamoDBWorker {
            key_field_names,
            key_fields_in_value,
            pending: Vec::new(),
            pending_bytes: 0,
            max_buffer_size_bytes: config.max_buffer_size_bytes,
            flush_records_threshold: config.effective_batch_size * config.max_concurrent_requests,
            records_written: 0,
        };
        assert(request_models(worker.pending@) == Seq::<RequestModel>::empty());
        assert(forall|i: int|
            0 <= i < key_field_names@.len() ==> #[trigger] texts(key_field_names@)[i]
                == key_field_names@[i]@);
        assert(worker@.keys_in_value ==> forall|i: int|
            0 <= i < key_field_names@.len() ==> texts(value_field_names@).contains(
                (#[trigger] key_field_names@[i])@,
            )) by {
            if worker@.keys_in_value {
                assert forall|i: int| 0 <= i < key_field_names@.len() implies texts(
                    value_field_names@,
                ).contains((#[trigger] key_field_names@[i])@) by {
                    assert(texts(value_field_names@).contains(texts(key_field_names@)[i]));
                }
            }
        }
        worker
    }

    /// The requests that are buffered.
    pub fn pending(&self) -> (pending: &Vec<WriteRequest>)
        ensures
            request_models(pending@) == self@.pending,
    {
        &self.pending
    }

    /// How many bytes the buffered requests were counted for.
    pub fn pending_bytes(&self) -> (bytes: usize)
        ensures
            bytes == self@.pending_bytes,
    {
        self.pending_bytes
    }

    /// How many rows were handed over for writing.
    pub fn records_written(&self) -> (n: u64)
        ensures
            n == self@.records_written,
    {
        self.records_written
    }

    /// Drops what is left in the buffer at the start of a batch.
    pub fn batch_start_inner(&mut self)
        requires
            old(self).wf(),
        ensures
            final(self).wf(),
            final(self)@ == (WorkerModel { pending: Seq::empty(), pending_bytes: 0, ..old(self)@ }),
    {
        self.pending.clear();
        self.pending_bytes = 0;
        assert(request_models(self.pending@) == Seq::<RequestModel>::empty());
    }

    /// Hands over what is buffered for writing, if there is anything.
    pub fn flush(&mut self) -> (job: Option<WriteJob>)
        requires
            old(self).wf(),
        ensures
            final(self).wf(),
            match job {
                Some(j) => old(self)@.pending.len() > 0 && j@ == old(self)@.job() && final(self)@
                    == old(self)@.flushed(),
                None => old(self)@.pending.len() == 0 && final(self)@ == old(self)@,
            },
    {
        self.hand_over()
    }

    fn hand_over(&mut self) -> (job: Option<WriteJob>)
        requires
            old(self)@.pending.len() == 0 ==> old(self)@.pending_bytes == 0,
        ensures
            final(self).wf(),
            match job {
                Some(j) => old(self)@.pending.len() > 0 && j@ == old(self)@.job() && final(self)@
                    == old(self)@.flushed(),
                None => old(self)@.pending.len() == 0 && final(self)@ == old(self)@,
            },
    {
        if self.pending.len() == 0 {
            return None;
        }
        let mut requests: Vec<WriteRequest> = Vec::new();
        std::mem::swap(&mut requests, &mut self.pending);
        let rows: usize = requests.len();
        let bytes: usize = self.pending_bytes;
        self.pending_bytes = 0;
        self.records_written = self.records_written.wrapping_add(rows as u64);
        assert(request_models(self.pending@) == Seq::<RequestModel>::empty());
        Some(WriteJob { requests, bytes })
    }

    /// Buffers a request that is counted for `bytes` bytes, and hands over what is
    /// buffered once that is enough.
    pub fn push_request(&mut self, request: WriteRequest, bytes: usize) -> (job: Option<WriteJob>)
        requires
            old(self).wf(),
            old(self)@.pending_bytes + bytes <= usize::MAX,
        ensures
            final(self).wf(),
            final(self)@ == old(self)@.pushed(request@, bytes as nat),
            match job {
                Some(j) => old(self)@.jobs_on(request@, bytes as nat) == seq![j@],
                None => old(self)@.jobs_on(request@, bytes as nat).len() == 0,
            },
    {
        self.pending.push(request);
        self.pending_bytes = self.pending_bytes + bytes;
        assert(request_models(self.pending@) == request_models(old(self).pending@).push(request@));
        assert(self@ == old(self)@.buffered(request@, bytes as nat));
        if self.pending.len() >= self.flush_records_threshold || self.pending_bytes
            >= self.max_buffer_size_bytes {
            self.hand_over()
        } else {
            None
        }
    }

    /// The item to put for `value`. Key attributes that the value lacks are added
    /// to it.
    pub fn item(&self, value: Result<Item, String>, key: Result<Item, String>) -> (outcome: Result<
        Item,
        String,
    >)
        ensures
            match outcome {
                Ok(item) => item_of(value, key, self@.key_names, self@.keys_in_value) == Ok::<
                    Fields,
                    Seq<char>,
                >(item@),
                Err(e) => item_of(value, key, self@.key_names, self@.keys_in_value) == Err::<
                    Fields,
                    Seq<char>,
                >(e@),
            },
            reads_distinct(value) && reads_distinct(key) ==> reads_distinct(outcome),
    {
        proof {
            if reads_distinct(value) && reads_distinct(key) {
                put_items_have_distinct_names(
                    value,
                    key,
                    self@.key_names,
                    self@.keys_in_value,
                );
            }
        }
        let item = match value {
            Err(e) => {
                return Err(e);
            },
            Ok(item) => item,
        };
        if !self.key_fields_in_value && self.lacks_key_field(&item) {
            match key_item(key) {
                Err(e) => Err(e),
                Ok(k) => Ok(add_missing(item, k)),
            }
        } else {
            Ok(item)
        }
    }

    fn lacks_key_field(&self, item: &Item) -> (b: bool)
        ensures
            b == lacks_any(item@, self@.key_names),
    {
        let mut i: usize = 0;
        while i < self.key_field_names.len()
            invariant
                i <= self.key_field_names.len(),
                forall|k: int| 0 <= k < i ==> has_field(item@, #[trigger] self@.key_names[k]),
            decreases self.key_field_names.len() - i,
        {
            assert(self@.key_names[i as int] == self.key_field_names@[i as int]@);
            if !contains_field(item, self.key_field_names[i].as_str()) {
                return true;
            }
            i += 1;
        }
        false
    }

    /// The key of a change, which must not be empty.
    pub fn key(&self, key: Result<Item, String>) -> (outcome: Result<Item, String>)
        ensures
            match outcome {
                Ok(k) => key_of(key) == Ok::<Fields, Seq<char>>(k@),
                Err(e) => key_of(key) == Err::<Fields, Seq<char>>(e@),
            },
            reads_distinct(key) ==> reads_distinct(outcome),
    {
        key_item(key)
    }

    /// The request for a change, if one is needed.
    pub fn request(&self, update: KeyUpdate) -> (outcome: Result<Option<WriteRequest>, String>)
        ensures
            match outcome {
                Ok(Some(r)) => self@.request_for(update) == Ok::<Option<RequestModel>, Seq<char>>(
                    Some(r@),
                ),
                Ok(None) => self@.request_for(update) == Ok::<Option<RequestModel>, Seq<char>>(
                    None,
                ),
                Err(e) => self@.request_for(update) == Err::<Option<RequestModel>, Seq<char>>(e@),
            },
            update.distinct() ==> (outcome matches Ok(Some(r)) ==> r@.distinct()),
    {
        proof {
            reveal(KeyUpdate::request);
            if update.distinct() {
                requests_have_distinct_names(update, self@.key_names, self@.keys_in_value);
            }
        }
        let operation = match update.operation {
            Err(e) => {
                return Err(e);
            },
            Ok(None) => {
                return Ok(None);
            },
            Ok(Some(operation)) => operation,
        };
        match operation {
            IndexedOperationType::Delete => match self.key(update.key) {
                Err(e) => Err(e),
                Ok(k) => Ok(Some(WriteRequest { put: None, delete: Some(k) })),
            },
            IndexedOperationType::Insert => match self.item(update.first, update.key) {
                Err(e) => Err(e),
                Ok(item) => Ok(Some(WriteRequest { put: Some(item), delete: None })),
            },
            IndexedOperationType::Upsert => {
                let value = if update.weight < 0 {
                    update.second
                } else {
                    update.first
                };
                match self.item(value, update.key) {
                    Err(e) => Err(e),
                    Ok(item) => Ok(Some(WriteRequest { put: Some(item), delete: None })),
                }
            },
        }
    }
}

fn request_bytes(request: &WriteRequest) -> (bytes: usize)
    requires
        request@.size() <= usize::MAX,
    ensures
        bytes == request@.size(),
{
    let put: usize = match &request.put {
        Some(item) => item_size(item),
        None => 0,
    };
    let delete: usize = match &request.delete {
        Some(key) => item_size(key),
        None => 0,
    };
    put + delete
}

/// Counting in two steps is counting at once.
proof fn counted_twice(count: u64, n: nat, m: nat)
    ensures
        counted(counted(count, n), m) == counted(count, n + m),
{
    let modulus: int = 0x1_0000_0000_0000_0000;
    assert(((count + n) % modulus + m) % modulus == (count + n + m) % modulus) by (nonlinear_arith)
        requires
            modulus == 0x1_0000_0000_0000_0000,
    ;
}

/// The encoding that started at `worker` and made the requests `asked` has lost
/// none of them.
spec fn conserves(worker: WorkerModel, e: EncodeModel, asked: Seq<RequestModel>) -> bool {
    &&& job_requests(e.jobs) + e.worker.pending == worker.pending + asked
    &&& job_bytes(e.jobs) + e.worker.pending_bytes == worker.pending_bytes + requests_size(asked)
    &&& job_rows(e.jobs) == job_requests(e.jobs).len()
    &&& e.worker.records_written == counted(worker.records_written, job_rows(e.jobs))
    &&& e.worker.wf()
    &&& e.worker.key_names == worker.key_names
    &&& e.worker.keys_in_value == worker.keys_in_value
    &&& e.worker.max_buffer_size_bytes == worker.max_buffer_size_bytes
    &&& e.worker.flush_records_threshold == worker.flush_records_threshold
    &&& worker.counts_sizes() ==> e.worker.counts_sizes() && jobs_count_sizes(e.jobs)
}

/// Each job is counted for the size of its requests.
pub open spec fn jobs_count_sizes(jobs: Seq<JobModel>) -> bool {
    forall|i: int|
        0 <= i < jobs.len() ==> (#[trigger] jobs[i]).bytes == requests_size(jobs[i].requests)
}

proof fn request_is_conserved(
    worker: WorkerModel,
    before: EncodeModel,
    asked: Seq<RequestModel>,
    request: RequestModel,
)
    requires
        conserves(worker, before, asked),
    ensures
        conserves(
            worker,
            (EncodeModel {
                worker: before.worker.pushed(request, request.size()),
                jobs: before.jobs + before.worker.jobs_on(request, request.size()),
                error: None,
            }),
            asked.push(request),
        ),
{
    let full = before.worker.buffered(request, request.size());
    let jobs = before.jobs + before.worker.jobs_on(request, request.size());
    let after = before.worker.pushed(request, request.size());
    let grown = before.worker.pending.push(request);
    let handed = job_requests(before.jobs);
    assert(worker.pending + asked.push(request) == (worker.pending + asked).push(request));
    assert(handed + grown == (handed + before.worker.pending).push(request));
    assert(asked.push(request).drop_last() == asked);
    assert(grown.drop_last() == before.worker.pending);
    if full.is_full() {
        assert(jobs.drop_last() == before.jobs);
        assert(jobs.last() == full.job());
        assert(job_requests(jobs) == handed + grown);
        assert(job_requests(jobs) + after.pending == handed + grown);
        counted_twice(worker.records_written, job_rows(before.jobs), grown.len());
    } else {
        assert(jobs == before.jobs);
    }
}

/// Whatever changes are encoded, no request is lost, made twice or put out of
/// order: those handed over, followed by those still buffered, are those that
/// were buffered before, followed by those for the changes. So are their bytes.
/// The buffer stays below its limits. Where each request was counted for its size,
/// so is each job.
pub proof fn encoding_loses_nothing(worker: WorkerModel, updates: Seq<KeyUpdate>)
    requires
        worker.wf(),
    ensures
        ({
            let e = encoding(worker, updates);
            &&& job_requests(e.jobs) + e.worker.pending == worker.pending + requests_for(
                worker,
                updates,
            )
            &&& job_bytes(e.jobs) + e.worker.pending_bytes == worker.pending_bytes
                + requests_size(requests_for(worker, updates))
            &&& job_rows(e.jobs) == job_requests(e.jobs).len()
            &&& e.worker.records_written == counted(worker.records_written, job_rows(e.jobs))
            &&& e.worker.wf()
            &&& e.worker.key_names == worker.key_names
            &&& e.worker.keys_in_value == worker.keys_in_value
            &&& e.worker.max_buffer_size_bytes == worker.max_buffer_size_bytes
            &&& e.worker.flush_records_threshold == worker.flush_records_threshold
            &&& worker.counts_sizes() ==> e.worker.counts_sizes() && jobs_count_sizes(e.jobs)
            &&& requests_for(worker, updates).len() <= updates.len()
        }),
    decreases updates.len(),
{
    if updates.len() == 0 {
        assert(Seq::<RequestModel>::empty() + worker.pending == worker.pending + Seq::<
            RequestModel,
        >::empty());
    } else {
        let shorter = updates.drop_last();
        encoding_loses_nothing(worker, shorter);
        let before = encoding(worker, shorter);
        if before.error is None {
            if let Ok(Some(request)) = worker.request_for(updates.last()) {
                request_is_conserved(worker, before, requests_for(worker, shorter), request);
            }
        }
    }
}

/// No name occurs twice in the changes.
pub open spec fn updates_distinct(updates: Seq<KeyUpdate>) -> bool {
    forall|i: int| 0 <= i < updates.len() ==> (#[trigger] updates[i]).distinct()
}

/// No name occurs twice in what the jobs put or delete.
pub open spec fn jobs_distinct(jobs: Seq<JobModel>) -> bool {
    forall|i: int| 0 <= i < jobs.len() ==> all_distinct((#[trigger] jobs[i]).requests)
}

/// Encoding keeps attribute names distinct: where no name occurs twice in the
/// changes and in what is buffered, none does in what is handed over and in what
/// is buffered then.
pub proof fn encoding_keeps_names_distinct(worker: WorkerModel, updates: Seq<KeyUpdate>)
    requires
        all_distinct(worker.pending),
        updates_distinct(updates),
    ensures
        all_distinct(encoding(worker, updates).worker.pending),
        jobs_distinct(encoding(worker, updates).jobs),
    decreases updates.len(),
{
    if updates.len() > 0 {
        let shorter = updates.drop_last();
        assert forall|i: int| 0 <= i < shorter.len() implies (#[trigger] shorter[i]).distinct() by {
            assert(shorter[i] == updates[i]);
        }
        encoding_keeps_names_distinct(worker, shorter);
        let before = encoding(worker, shorter);
        let update = updates[updates.len() - 1];
        requests_have_distinct_names(update, before.worker.key_names, before.worker.keys_in_value);
        if let Ok(Some(request)) = before.worker.request_for(update) {
            assert(all_distinct(before.worker.pending.push(request)));
        }
    }
}

/// More changes give the same requests first.
proof fn requests_grow(worker: WorkerModel, updates: Seq<KeyUpdate>, n: int)
    requires
        0 <= n <= updates.len(),
    ensures
        requests_size(requests_for(worker, updates.take(n))) <= requests_size(
            requests_for(worker, updates),
        ),
    decreases updates.len() - n,
{
    if n < updates.len() {
        requests_grow(worker, updates, n + 1);
        let longer = updates.take(n + 1);
        assert(longer.drop_last() == updates.take(n));
        let before = requests_for(worker, updates.take(n));
        if let Ok(Some(request)) = worker.request_for(longer.last()) {
            assert(before.push(request).drop_last() == before);
        }
    } else {
        assert(updates.take(n) == updates);
    }
}

/// What is handed over of the first `n` changes is countable if all of it is.
proof fn totals_fit(worker: WorkerModel, updates: Seq<KeyUpdate>, n: int)
    requires
        0 <= n <= updates.len(),
        worker.wf(),
        worker.pending_bytes + requests_size(requests_for(worker, updates)) <= usize::MAX,
        worker.pending.len() + updates.len() <= usize::MAX,
    ensures
        job_bytes(encoding(worker, updates.take(n)).jobs) <= usize::MAX,
        job_rows(encoding(worker, updates.take(n)).jobs) <= usize::MAX,
{
    let e = encoding(worker, updates.take(n));
    let asked = requests_for(worker, updates.take(n));
    encoding_loses_nothing(worker, updates.take(n));
    requests_grow(worker, updates, n);
    assert((job_requests(e.jobs) + e.worker.pending).len() == (worker.pending + asked).len());
}

/// The request for change `n` can be buffered if all requests are countable.
proof fn next_request_fits(worker: WorkerModel, updates: Seq<KeyUpdate>, n: int)
    requires
        0 <= n < updates.len(),
        worker.wf(),
        worker.pending_bytes + requests_size(requests_for(worker, updates)) <= usize::MAX,
        encoding(worker, updates.take(n)).error is None,
    ensures
        worker.request_for(updates[n]) matches Ok(Some(request)) ==> encoding(
            worker,
            updates.take(n),
        ).worker.pending_bytes + request.size() <= usize::MAX,
{
    let e = encoding(worker, updates.take(n));
    let asked = requests_for(worker, updates.take(n));
    encoding_loses_nothing(worker, updates.take(n));
    if let Ok(Some(request)) = worker.request_for(updates[n]) {
        assert(updates.take(n + 1).drop_last() == updates.take(n));
        assert(asked.push(request).drop_last() == asked);
        requests_grow(worker, updates, n + 1);
    }
}

/// An error ends the encoding.
proof fn error_is_final(worker: WorkerModel, updates: Seq<KeyUpdate>, n: int)
    requires
        0 <= n <= updates.len(),
        encoding(worker, updates.take(n)).error is Some,
    ensures
        encoding(worker, updates) == encoding(worker, updates.take(n)),
    decreases updates.len() - n,
{
    if n < updates.len() {
        assert(updates.take(n + 1).drop_last() == updates.take(n));
        error_is_final(worker, updates, n + 1);
    } else {
        assert(updates.take(n) == updates);
    }
}

impl DynamoDBWorker {
    /// Encodes one change, and hands over what is buffered if that is enough.
    pub fn encode_key(&mut self, update: KeyUpdate) -> (outcome: Result<Option<WriteJob>, String>)
        requires
            old(self).wf(),
            old(self)@.request_for(update) matches Ok(Some(request)) ==> old(self)@.pending_bytes
                + request.size() <= usize::MAX,
        ensures
            final(self).wf(),
            match old(self)@.request_for(update) {
                Err(e) => outcome matches Err(message) && message@ == e && final(self)@
                    == old(self)@,
                Ok(None) => outcome matches Ok(None) && final(self)@ == old(self)@,
                Ok(Some(request)) => {
                    &&& final(self)@ == old(self)@.pushed(request, request.size())
                    &&& outcome matches Ok(job)
                    &&& match job {
                        Some(j) => old(self)@.jobs_on(request, request.size()) == seq![j@],
                        None => old(self)@.jobs_on(request, request.size()).len() == 0,
                    }
                },
            },
    {
        match self.request(update) {
            Err(e) => Err(e),
            Ok(None) => Ok(None),
            Ok(Some(request)) => {
                let bytes = request_bytes(&request);
                Ok(self.push_request(request, bytes))
            },
        }
    }

    /// Encodes a list of changes, in order, and hands over what is buffered
    /// whenever that is enough. The first error stops the encoding.
    pub fn encode_cursor(&mut self, updates: Vec<KeyUpdate>) -> (encoded: Encoded)
        requires
            old(self).wf(),
            old(self)@.pending_bytes + requests_size(requests_for(old(self)@, updates@))
                <= usize::MAX,
            old(self)@.pending.len() + updates@.len() <= usize::MAX,
        ensures
            final(self).wf(),
            final(self)@ == encoding(old(self)@, updates@).worker,
            job_models(encoded.jobs@) == encoding(old(self)@, updates@).jobs,
            match encoded.outcome {
                Ok((num_bytes, num_rows)) => encoding(old(self)@, updates@).error is None
                    && num_bytes == job_bytes(job_models(encoded.jobs@)) && num_rows == job_rows(
                    job_models(encoded.jobs@),
                ),
                Err(e) => encoding(old(self)@, updates@).error == Some(e@),
            },
            all_distinct(old(self)@.pending) && updates_distinct(updates@) ==> all_distinct(
                final(self)@.pending,
            ) && jobs_distinct(job_models(encoded.jobs@)),
    {
        let ghost worker = self@;
        let ghost all = updates@;
        let mut jobs: Vec<WriteJob> = Vec::new();
        let mut num_bytes: usize = 0;
        let mut num_rows: usize = 0;
        assert(job_models(jobs@) == Seq::<JobModel>::empty());
        assert(all.take(0) == Seq::<KeyUpdate>::empty());
        for update in it: updates
            invariant
                it.seq() == all,
                all == updates@,
                worker == old(self)@,
                worker.wf(),
                self.wf(),
                worker.pending_bytes + requests_size(requests_for(worker, all)) <= usize::MAX,
                worker.pending.len() + all.len() <= usize::MAX,
                encoding(worker, all.take(it.index())).worker == self@,
                encoding(worker, all.take(it.index())).jobs == job_models(jobs@),
                encoding(worker, all.take(it.index())).error is None,
                num_bytes == job_bytes(job_models(jobs@)),
                num_rows == job_rows(job_models(jobs@)),
        {
            let ghost n = it.index();
            let ghost done = job_models(jobs@);
            let ghost before = self@;
            proof {
                assert(all.take(n + 1).drop_last() == all.take(n));
                assert(all.take(n + 1).last() == update);
                encoding_loses_nothing(worker, all.take(n));
                next_request_fits(worker, all, n);
            }
            match self.encode_key(update) {
                Err(e) => {
                    proof {
                        error_is_final(worker, all, n + 1);
                        if all_distinct(worker.pending) && updates_distinct(all) {
                            encoding_keeps_names_distinct(worker, all);
                        }
                    }
                    return Encoded { jobs, outcome: Err(e) };
                },
                Ok(None) => {
                    proof {
                        if let Ok(Some(request)) = before.request_for(update) {
                            assert(done + before.jobs_on(request, request.size()) == done);
                        }
                    }
                },
                Ok(Some(job)) => {
                    let ghost j = job@;
                    proof {
                        assert(done.push(j).drop_last() == done);
                        assert(done + seq![j] == done.push(j));
                        assert(encoding(worker, all.take(n + 1)).jobs == done.push(j));
                        assert(request_models(job.requests@).len() == job.requests@.len());
                        totals_fit(worker, all, n + 1);
                    }
                    num_bytes = num_bytes + job.bytes;
                    num_rows = num_rows + job.requests.len();
                    jobs.push(job);
                    assert(job_models(jobs@) == done.push(j));
                },
            }
        }
        assert(all.take(all.len() as int) == all);
        proof {
            if all_distinct(worker.pending) && updates_distinct(all) {
                encoding_keeps_names_distinct(worker, all);
            }
        }
        Encoded { jobs, outcome: Ok((num_bytes, num_rows)) }
    }

    /// Ends a batch: hands over what is still buffered, with its bytes and rows.
    pub fn batch_end_inner(&mut self) -> (end: (Option<WriteJob>, usize, usize))
        requires
            old(self).wf(),
        ensures
            final(self).wf(),
            final(self)@.pending.len() == 0,
            final(self)@ == if old(self)@.pending.len() > 0 {
                old(self)@.flushed()
            } else {
                old(self)@
            },
            match end.0 {
                Some(job) => old(self)@.pending.len() > 0 && job@ == old(self)@.job(),
                None => old(self)@.pending.len() == 0,
            },
            end.1 == old(self)@.pending_bytes,
            end.2 == old(self)@.pending.len(),
    {
        match self.flush() {
            Some(job) => {
                let bytes: usize = job.bytes;
                let rows: usize = job.requests.len();
                assert(request_models(job.requests@).len() == job.requests@.len());
                (Some(job), bytes, rows)
            },
            None => (None, 0, 0),
        }
    }
}

proof fn merging_keeps_and_adds(item: Fields, key: Fields, n: nat)
    requires
        n <= key.len(),
    ensures
        merged(item, key, n).len() >= item.len(),
        merged(item, key, n).take(item.len() as int) == item,
        forall|j: int| 0 <= j < n ==> has_field(merged(item, key, n), (#[trigger] key[j]).0@),
    decreases n,
{
    if n > 0 {
        let m = (n - 1) as nat;
        merging_keeps_and_adds(item, key, m);
        let before = merged(item, key, m);
        let after = merged(item, key, n);
        assert(after.take(item.len() as int) == item) by {
            assert(before.take(item.len() as int) == item);
            assert forall|i: int| 0 <= i < item.len() implies #[trigger] after[i] == item[i] by {
                assert(before.take(item.len() as int)[i] == before[i]);
            }
        }
        assert forall|j: int| 0 <= j < n implies has_field(after, (#[trigger] key[j]).0@) by {
            if j < m {
                let i = choose|i: int| 0 <= i < before.len() && (#[trigger] before[i]).0@
                    == key[j].0@;
                assert(after[i] == before[i]);
            } else if !has_field(before, key[j].0@) {
                assert(after[before.len() as int] == key[j]);
            }
        }
    } else {
        assert(item.take(item.len() as int) == item);
    }
}

/// An item that is put holds the whole key, as long as the key holds what its
/// names say and the value holds it where the schema promises that. It keeps every
/// attribute of the value as it is, and no name occurs twice in it.
pub proof fn put_items_hold_the_whole_key(
    value: Item,
    key: Item,
    key_names: Seq<Seq<char>>,
    keys_in_value: bool,
    fields: Fields,
)
    requires
        item_of(Ok(value), Ok(key), key_names, keys_in_value) == Ok::<Fields, Seq<char>>(fields),
        distinct_names(value@),
        distinct_names(key@),
        keys_in_value ==> !lacks_any(value@, key_names),
        forall|i: int| 0 <= i < key_names.len() ==> has_field(key@, #[trigger] key_names[i]),
    ensures
        forall|i: int| 0 <= i < key_names.len() ==> has_field(fields, #[trigger] key_names[i]),
        fields.len() >= value@.len(),
        fields.take(value@.len() as int) == value@,
        distinct_names(fields),
{
    if lacks_any(value@, key_names) {
        merging_keeps_names_distinct(value@, key@, key@.len());
        merging_keeps_and_adds(value@, key@, key@.len());
        assert forall|i: int| 0 <= i < key_names.len() implies has_field(
            fields,
            #[trigger] key_names[i],
        ) by {
            assert(has_field(key@, key_names[i]));
            let j = choose|j: int| 0 <= j < key@.len() && (#[trigger] key@[j]).0@ == key_names[i];
            assert(has_field(fields, key@[j].0@));
        }
    } else {
        assert(value@.take(value@.len() as int) == value@);
    }
}

/// A delete names exactly the key of the change, however many attributes that has. It
/// fails only for a key that cannot be read or has no attribute at all.
pub proof fn deletes_name_exactly_the_key(
    update: KeyUpdate,
    key_names: Seq<Seq<char>>,
    keys_in_value: bool,
)
    requires
        update.operation == Ok::<Option<IndexedOperationType>, String>(
            Some(IndexedOperationType::Delete),
        ),
    ensures
        match update.key {
            Ok(key) => if key@.len() >= 1 {
                update.request(key_names, keys_in_value) == Ok::<Option<RequestModel>, Seq<char>>(
                    Some((RequestModel { put: None, delete: Some(key@) })),
                )
            } else {
                update.request(key_names, keys_in_value) == Err::<Option<RequestModel>, Seq<char>>(
                    "dynamodb output connector requires a non-empty index key"@,
                )
            },
            Err(e) => update.request(key_names, keys_in_value) == Err::<
                Option<RequestModel>,
                Seq<char>,
            >(e@),
        },
{
    reveal(KeyUpdate::request);
}

/// Every attribute that merging adds is an attribute of the key whose name was missing.
proof fn merging_adds_only_what_is_missing(item: Fields, key: Fields, n: nat)
    requires
        n <= key.len(),
    ensures
        forall|i: int|
            item.len() <= i < merged(item, key, n).len() ==> exists|j: int|
                0 <= j < n && #[trigger] key[j] == #[trigger] merged(item, key, n)[i] && !has_field(
                    item,
                    key[j].0@,
                ),
    decreases n,
{
    if n > 0 {
        let m = (n - 1) as nat;
        merging_adds_only_what_is_missing(item, key, m);
        merging_keeps_and_adds(item, key, m);
        let before = merged(item, key, m);
        let after = merged(item, key, n);
        assert forall|i: int| item.len() <= i < after.len() implies exists|j: int|
            0 <= j < n && #[trigger] key[j] == #[trigger] after[i] && !has_field(
                item,
                key[j].0@,
            ) by {
            if i < before.len() {
                assert(after[i] == before[i]);
                let j = choose|j: int|
                    0 <= j < m && #[trigger] key[j] == before[i] && !has_field(item, key[j].0@);
                assert(key[j] == after[i]);
            } else {
                assert(key[m as int] == after[i]);
                if has_field(item, key[m as int].0@) {
                    let k = choose|k: int|
                        0 <= k < item.len() && (#[trigger] item[k]).0@ == key[m as int].0@;
                    assert(before.take(item.len() as int)[k] == before[k]);
                    assert(before[k].0@ == key[m as int].0@);
                }
            }
        }
    }
}

/// An item has a field exactly if one of its attributes has that name.
pub proof fn fields_are_found_by_name(item: Fields, name: Seq<char>)
    ensures
        has_field(item, name) <==> item.map_values(
            |field: (String, AttributeValue)| field.0@,
        ).contains(name),
{
    let names = item.map_values(|field: (String, AttributeValue)| field.0@);
    if has_field(item, name) {
        let i = choose|i: int| 0 <= i < item.len() && (#[trigger] item[i]).0@ == name;
        assert(names[i] == name);
    }
    if names.contains(name) {
        let i = choose|i: int| 0 <= i < names.len() && names[i] == name;
        assert(item[i].0@ == name);
    }
}

/// The item to put for a value that lacks a key attribute, where the key can be read and
/// is not empty: the value with the missing attributes of the key.
proof fn missing_key_attributes_are_added(
    value: Item,
    key: Item,
    key_names: Seq<Seq<char>>,
    fields: Fields,
)
    requires
        lacks_any(value@, key_names),
        item_of(Ok(value), Ok(key), key_names, false) == Ok::<Fields, Seq<char>>(fields),
    ensures
        fields.len() >= value@.len(),
        fields.take(value@.len() as int) == value@,
        forall|i: int|
            value@.len() <= i < fields.len() ==> key@.contains(#[trigger] fields[i]) && !has_field(
                value@,
                fields[i].0@,
            ),
        forall|j: int| 0 <= j < key@.len() ==> has_field(fields, (#[trigger] key@[j]).0@),
{
    merging_keeps_and_adds(value@, key@, key@.len());
    merging_adds_only_what_is_missing(value@, key@, key@.len());
    assert forall|i: int| value@.len() <= i < fields.len() implies key@.contains(
        #[trigger] fields[i],
    ) && !has_field(value@, fields[i].0@) by {
        let j = choose|j: int|
            0 <= j < key@.len() && #[trigger] key@[j] == fields[i] && !has_field(
                value@,
                key@[j].0@,
            );
        assert(key@[j] == fields[i]);
    }
}

/// An insert and an upsert put the new value: the first one under the key, or the second
/// one where the first is withdrawn by an upsert. A value that holds all key attributes is
/// put as it is. To any other, the key attributes whose names it lacks are added, with
/// the values that they have in the key, and nothing else. The change fails only where
/// the value cannot be read, or where the key is needed and cannot be read or has no
/// attribute at all.
pub proof fn writes_put_the_new_value(
    update: KeyUpdate,
    key_names: Seq<Seq<char>>,
    keys_in_value: bool,
)
    requires
        update.operation matches Ok(Some(operation)) && !(operation is Delete),
    ensures
        ({
            let upsert = update.operation == Ok::<Option<IndexedOperationType>, String>(
                Some(IndexedOperationType::Upsert),
            );
            let written = if upsert && update.weight < 0 {
                update.second
            } else {
                update.first
            };
            let request = update.request(key_names, keys_in_value);
            match written {
                Err(e) => request == Err::<Option<RequestModel>, Seq<char>>(e@),
                Ok(value) => if keys_in_value || (forall|i: int|
                    0 <= i < key_names.len() ==> has_field(value@, #[trigger] key_names[i])) {
                    request == Ok::<Option<RequestModel>, Seq<char>>(
                        Some((RequestModel { put: Some(value@), delete: None })),
                    )
                } else {
                    match update.key {
                        Err(e) => request == Err::<Option<RequestModel>, Seq<char>>(e@),
                        Ok(key) => if key@.len() == 0 {
                            request == Err::<Option<RequestModel>, Seq<char>>(
                                "dynamodb output connector requires a non-empty index key"@,
                            )
                        } else {
                            &&& request matches Ok(Some(r))
                            &&& r.delete is None
                            &&& r.put matches Some(fields)
                            &&& fields.len() >= value@.len()
                            &&& fields.take(value@.len() as int) == value@
                            &&& forall|i: int|
                                value@.len() <= i < fields.len() ==> key@.contains(
                                    #[trigger] fields[i],
                                ) && !has_field(value@, fields[i].0@)
                            &&& forall|j: int|
                                0 <= j < key@.len() ==> has_field(fields, (#[trigger] key@[j]).0@)
                        },
                    }
                },
            }
        }),
{
    reveal(KeyUpdate::request);
    if let (Ok(value), Ok(key)) = (update.value(), update.key) {
        if !keys_in_value && lacks_any(value@, key_names) && key@.len() > 0 {
            missing_key_attributes_are_added(
                value,
                key,
                key_names,
                merged(value@, key@, key@.len()),
            );
        }
    }
}

/// A change whose parts cancel out needs no request, and one that could not be read
/// fails with its own error.
pub proof fn other_changes_write_nothing(
    update: KeyUpdate,
    key_names: Seq<Seq<char>>,
    keys_in_value: bool,
)
    ensures
        update.operation matches Ok(None) ==> update.request(key_names, keys_in_value) == Ok::<
            Option<RequestModel>,
            Seq<char>,
        >(None),
        update.operation matches Err(e) ==> update.request(key_names, keys_in_value) == Err::<
            Option<RequestModel>,
            Seq<char>,
        >(e@),
{
    reveal(KeyUpdate::request);
}

/// What is buffered is handed over with a request exactly if it then holds as many rows
/// or as many bytes as the limits say. All of it is handed over at once, and counted;
/// otherwise the request joins what is buffered, and nothing else changes.
pub proof fn full_buffers_are_handed_over(worker: WorkerModel, request: RequestModel, bytes: nat)
    ensures
        ({
            let after = worker.pushed(request, bytes);
            let rows = worker.pending.push(request);
            let total = worker.pending_bytes + bytes;
            &&& after.key_names == worker.key_names
            &&& after.keys_in_value == worker.keys_in_value
            &&& after.max_buffer_size_bytes == worker.max_buffer_size_bytes
            &&& after.flush_records_threshold == worker.flush_records_threshold
            &&& if rows.len() >= worker.flush_records_threshold || total
                >= worker.max_buffer_size_bytes {
                &&& worker.jobs_on(request, bytes) == seq![
                    (JobModel { requests: rows, bytes: total }),
                ]
                &&& after.pending.len() == 0
                &&& after.pending_bytes == 0
                &&& after.records_written == (worker.records_written + rows.len())
                    % 0x1_0000_0000_0000_0000
            } else {
                &&& worker.jobs_on(request, bytes).len() == 0
                &&& after.pending == rows
                &&& after.pending_bytes == total
                &&& after.records_written == worker.records_written
            }
        }),
{
}

/// A flush hands over all that is buffered, with its bytes, counts its rows, and leaves
/// an empty buffer.
pub proof fn flushes_hand_over_everything(worker: WorkerModel)
    ensures
        worker.job().requests == worker.pending,
        worker.job().bytes == worker.pending_bytes,
        worker.flushed().pending.len() == 0,
        worker.flushed().pending_bytes == 0,
        worker.flushed().records_written == (worker.records_written + worker.pending.len())
            % 0x1_0000_0000_0000_0000,
        worker.flushed().key_names == worker.key_names,
        worker.flushed().keys_in_value == worker.keys_in_value,
        worker.flushed().max_buffer_size_bytes == worker.max_buffer_size_bytes,
        worker.flushed().flush_records_threshold == worker.flush_records_threshold,
{
}

/// The encoding goes on up to the first change that fails, with whose error it ends. Each
/// change before that for which a request is needed makes one, in the order of the
/// changes, and no other does. Returns the places of these changes, and how many changes
/// were encoded.
pub proof fn encoding_stops_at_the_first_error(worker: WorkerModel, updates: Seq<KeyUpdate>) -> (r:
    (Seq<int>, int))
    requires
        worker.wf(),
    ensures
        ({
            let (places, stop) = r;
            let asked = requests_for(worker, updates);
            &&& 0 <= stop <= updates.len()
            &&& forall|i: int|
                0 <= i < stop ==> (#[trigger] updates[i]).request(
                    worker.key_names,
                    worker.keys_in_value,
                ) is Ok
            &&& stop == updates.len() ==> encoding(worker, updates).error is None
            &&& stop < updates.len() ==> {
                &&& encoding(worker, updates).error matches Some(e)
                &&& updates[stop].request(worker.key_names, worker.keys_in_value) == Err::<
                    Option<RequestModel>,
                    Seq<char>,
                >(e)
            }
            &&& asked.len() == places.len()
            &&& forall|k: int|
                0 <= k < places.len() ==> 0 <= #[trigger] places[k] < stop
                    && updates[places[k]].request(worker.key_names, worker.keys_in_value) == Ok::<
                    Option<RequestModel>,
                    Seq<char>,
                >(Some(asked[k]))
            &&& forall|k: int, l: int| 0 <= k < l < places.len() ==> places[k] < places[l]
            &&& forall|i: int|
                0 <= i < stop && (#[trigger] updates[i]).request(
                    worker.key_names,
                    worker.keys_in_value,
                ) != Ok::<Option<RequestModel>, Seq<char>>(None) ==> places.contains(i)
        }),
    decreases updates.len(),
{
    if updates.len() == 0 {
        (Seq::empty(), 0)
    } else {
        let shorter = updates.drop_last();
        let n = updates.len() - 1;
        let (places, stop) = encoding_stops_at_the_first_error(worker, shorter);
        let before = encoding(worker, shorter);
        encoding_loses_nothing(worker, shorter);
        assert(forall|i: int| 0 <= i < n ==> #[trigger] updates[i] == shorter[i]);
        let last = updates[n];
        assert(updates.last() == last);
        if stop < n {
            assert(before.error is Some);
            assert(updates[stop] == shorter[stop]);
            (places, stop)
        } else {
            match last.request(worker.key_names, worker.keys_in_value) {
                Err(e) => (places, n),
                Ok(None) => (places, n + 1),
                Ok(Some(request)) => {
                    let more = places.push(n);
                    assert(more[places.len() as int] == n);
                    assert forall|i: int|
                        0 <= i < n + 1 && (#[trigger] updates[i]).request(
                            worker.key_names,
                            worker.keys_in_value,
                        ) != Ok::<Option<RequestModel>, Seq<char>>(
                            None,
                        ) implies more.contains(i) by {
                        if i < n {
                            assert(shorter[i] == updates[i]);
                            let k = choose|k: int| 0 <= k < places.len() && places[k] == i;
                            assert(more[k] == i);
                        }
                    }
                    (more, n + 1)
                },
            }
        }
    }
}

/// Each job that is handed over has reached a limit, and without its last request it
/// had not.
pub proof fn jobs_are_just_full(worker: WorkerModel, updates: Seq<KeyUpdate>, k: int)
    requires
        worker.wf(),
        0 <= k < encoding(worker, updates).jobs.len(),
    ensures
        ({
            let job = encoding(worker, updates).jobs[k];
            let rows = job.requests.len();
            &&& rows > 0
            &&& rows >= worker.flush_records_threshold || job.bytes >= worker.max_buffer_size_bytes
            &&& rows > 1 ==> rows - 1 < worker.flush_records_threshold && job.bytes
                - job.requests.last().size() < worker.max_buffer_size_bytes
        }),
    decreases updates.len(),
{
    if updates.len() > 0 {
        let shorter = updates.drop_last();
        let before = encoding(worker, shorter);
        encoding_loses_nothing(worker, shorter);
        if k < before.jobs.len() {
            jobs_are_just_full(worker, shorter, k);
            assert(encoding(worker, updates).jobs[k] == before.jobs[k]);
        } else if let Ok(Some(request)) = before.worker.request_for(updates.last()) {
            full_buffers_are_handed_over(before.worker, request, request.size());
            assert(before.worker.pending.push(request).last() == request);
        }
    }
}

/// The errors of writes are reported one by one: none for a write that succeeded, its own
/// text for one that failed, and the text of the panic, announced as such, for one that
/// panicked.
pub proof fn failed_writes_are_reported_one_by_one(
    a: Seq<WriteOutcome>,
    b: Seq<WriteOutcome>,
    outcome: WriteOutcome,
)
    ensures
        write_errors(Seq::empty()) == Seq::<Seq<char>>::empty(),
        write_errors(seq![outcome]) == match outcome {
            WriteOutcome::Done => Seq::<Seq<char>>::empty(),
            WriteOutcome::Failed(e) => seq![e@],
            WriteOutcome::Panicked(e) => seq!["write task panicked: "@ + e@],
        },
        write_errors(a + b) == write_errors(a) + write_errors(b),
    decreases b.len(),
{
    reveal_with_fuel(write_errors, 2);
    assert(seq![outcome].drop_last() == Seq::<WriteOutcome>::empty());
    if b.len() == 0 {
        assert(a + b == a);
        assert(write_errors(a) + write_errors(b) == write_errors(a));
    } else {
        failed_writes_are_reported_one_by_one(a, b.drop_last(), outcome);
        assert((a + b).drop_last() == a + b.drop_last());
        assert((a + b).last() == b.last());
        assert(write_errors(a + b) == write_errors(a) + write_errors(b));
    }
}

/// A job stands for its requests and its bytes, and a list of jobs for its members.
pub proof fn jobs_stand_for_what_they_hold(job: WriteJob, jobs: Seq<WriteJob>)
    ensures
        job@.requests == request_models(job.requests@),
        job@.bytes == job.bytes,
        job_models(jobs).len() == jobs.len(),
        forall|i: int| 0 <= i < jobs.len() ==> #[trigger] job_models(jobs)[i] == jobs[i]@,
{
}

/// A batch that begins with an empty buffer hands over every request for its changes
/// exactly once, in order, and with all their bytes: those handed over on the way, and
/// then those that its end hands over.
pub proof fn batches_hand_over_every_request(worker: WorkerModel, updates: Seq<KeyUpdate>)
    requires
        worker.pending.len() == 0,
        worker.pending_bytes == 0,
    ensures
        ({
            let e = encoding(worker, updates);
            &&& job_requests(e.jobs) + e.worker.job().requests == requests_for(worker, updates)
            &&& job_bytes(e.jobs) + e.worker.job().bytes == requests_size(
                requests_for(worker, updates),
            )
            &&& e.worker.flushed().pending.len() == 0
        }),
{
    encoding_loses_nothing(worker, updates);
    assert(worker.pending + requests_for(worker, updates) == requests_for(worker, updates));
}

} // verus!
