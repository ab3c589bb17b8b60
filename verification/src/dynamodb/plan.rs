//! What is sent for the requests of a flush.

use vstd::prelude::*;
use vstd::string::*;

use crate::dynamodb::request::action_chunk_models;
use crate::dynamodb::request::action_of;
use crate::dynamodb::request::actions_do_what_their_requests_do;
use crate::dynamodb::request::actions_of;
use crate::dynamodb::request::all_single;
use crate::dynamodb::request::batch_chunks;
use crate::dynamodb::request::chunk_models;
use crate::dynamodb::request::chunks_cover_everything;
use crate::dynamodb::request::chunks_of;
use crate::dynamodb::request::joined;
use crate::dynamodb::request::transact_chunks;
use crate::dynamodb::request::ActionModel;
use crate::dynamodb::request::RequestModel;
use crate::dynamodb::request::TransactWriteItem;
use crate::dynamodb::request::WriteRequest;
use crate::dynamodb::worker::DynamoDBWriteMode;
use crate::dynamodb::worker::DynamoDBWriterConfig;
use crate::dynamodb::worker::JobModel;
use crate::dynamodb::worker::WriteJob;

verus! {

/// The chunks in which the requests of a job are sent, each on its own.
#[derive(Debug, PartialEq, Eq)]
pub enum WritePlan {
    /// Batch writes to a table.
    Batch { table: String, chunks: Vec<Vec<WriteRequest>> },
    /// Transactions, whose actions name their table.
    Transactional { chunks: Vec<Vec<TransactWriteItem>> },
}

/// The chunks of a job, as plain data.
pub enum PlanModel {
    Batch { table: Seq<char>, chunks: Seq<Seq<RequestModel>> },
    Transactional { chunks: Seq<Seq<ActionModel>> },
}

impl View for WritePlan {
    type V = PlanModel;

    open spec fn view(&self) -> PlanModel {
        match *self {
            WritePlan::Batch { table, chunks } => PlanModel::Batch {
                table: table@,
                chunks: chunk_models(chunks@),
            },
            WritePlan::Transactional { chunks } => PlanModel::Transactional {
                chunks: action_chunk_models(chunks@),
            },
        }
    }
}

/// What is sent for a job: all its requests, in chunks of `n`, the way that the
/// write mode says. Transactions need requests that put or delete, and not both.
pub open spec fn plan_of(
    job: JobModel,
    mode: DynamoDBWriteMode,
    table: Seq<char>,
    n: nat,
) -> Option<PlanModel> {
    match mode {
        DynamoDBWriteMode::Batch => Some(
            PlanModel::Batch { table, chunks: chunks_of(job.requests, n) },
        ),
        DynamoDBWriteMode::Transactional => if all_single(job.requests) {
            Some(
                PlanModel::Transactional { chunks: chunks_of(actions_of(table, job.requests), n) },
            )
        } else {
            None
        },
    }
}

/// Plans what is sent for a job, by the write mode, the table and the batch size of
/// the configuration.
pub fn write_plan(job: WriteJob, config: &DynamoDBWriterConfig) -> (plan: Result<WritePlan, String>)
    requires
        config.effective_batch_size > 0,
    ensures
        match plan {
            Ok(p) => plan_of(
                job@,
                config.write_mode,
                config.table@,
                config.effective_batch_size as nat,
            ) == Some(p@),
            Err(message) => plan_of(
                job@,
                config.write_mode,
                config.table@,
                config.effective_batch_size as nat,
            ) is None && message@ == "expected exactly one put or delete request"@,
        },
        plan matches Ok(p) ==> (p is Batch <==> config.write_mode is Batch),
        config.write_mode is Batch ==> plan is Ok,
{
    match config.write_mode {
        DynamoDBWriteMode::Batch => Ok(
            WritePlan::Batch {
                table: config.table.clone(),
                chunks: batch_chunks(job.requests, config.effective_batch_size),
            },
        ),
        DynamoDBWriteMode::Transactional => match transact_chunks(
            config.table.as_str(),
            job.requests,
            config.effective_batch_size,
        ) {
            Ok(chunks) => Ok(WritePlan::Transactional { chunks }),
            Err(message) => Err(message),
        },
    }
}

/// A plan sends every request of the job exactly once, in order; no chunk is empty
/// or larger than the batch size, and only the last is smaller.
pub proof fn plans_send_everything_once(
    job: JobModel,
    mode: DynamoDBWriteMode,
    table: Seq<char>,
    n: nat,
)
    requires
        n > 0,
    ensures
        match plan_of(job, mode, table, n) {
            Some(PlanModel::Batch { chunks, .. }) => joined(chunks) == job.requests && forall|
                i: int,
            |
                0 <= i < chunks.len() ==> 0 < (#[trigger] chunks[i]).len() <= n && (i
                    < chunks.len() - 1 ==> chunks[i].len() == n),
            Some(PlanModel::Transactional { chunks }) => joined(chunks) == actions_of(
                table,
                job.requests,
            ) && forall|i: int|
                0 <= i < chunks.len() ==> 0 < (#[trigger] chunks[i]).len() <= n && (i
                    < chunks.len() - 1 ==> chunks[i].len() == n),
            None => mode == DynamoDBWriteMode::Transactional && !all_single(job.requests),
        },
{
    chunks_cover_everything(job.requests, n);
    chunks_cover_everything(actions_of(table, job.requests), n);
}

/// The write mode alone decides how a job is sent, however many requests it has. In
/// batch mode the requests themselves are written to the table. In transactional mode
/// each request that puts or deletes exactly one item becomes the action that does the
/// same to the table, and a job with any other request is not sent at all.
pub proof fn plans_follow_the_write_mode(
    job: JobModel,
    mode: DynamoDBWriteMode,
    table: Seq<char>,
    n: nat,
)
    requires
        n > 0,
    ensures
        mode is Batch ==> {
            &&& plan_of(job, mode, table, n) matches Some(PlanModel::Batch { table: t, chunks })
            &&& t == table
            &&& joined(chunks) == job.requests
        },
        mode is Transactional && (forall|i: int|
            0 <= i < job.requests.len() ==> ((#[trigger] job.requests[i]).put is Some
                != job.requests[i].delete is Some)) ==> {
            &&& plan_of(job, mode, table, n) matches Some(PlanModel::Transactional { chunks })
            &&& joined(chunks).len() == job.requests.len()
            &&& forall|i: int|
                0 <= i < job.requests.len() ==> match #[trigger] joined(chunks)[i] {
                    ActionModel::Put { table: t, item } => t == table && job.requests[i].put
                        == Some(item) && job.requests[i].delete is None,
                    ActionModel::Delete { table: t, key } => t == table && job.requests[i].delete
                        == Some(key) && job.requests[i].put is None,
                }
        },
        mode is Transactional && (exists|i: int|
            0 <= i < job.requests.len() && ((#[trigger] job.requests[i]).put is Some
                == job.requests[i].delete is Some)) ==> plan_of(job, mode, table, n) is None,
{
    chunks_cover_everything(job.requests, n);
    chunks_cover_everything(actions_of(table, job.requests), n);
    assert forall|i: int| 0 <= i < job.requests.len() implies #[trigger] actions_of(
        table,
        job.requests,
    )[i] == action_of(table, job.requests[i])->0 by {
        actions_do_what_their_requests_do(table, job.requests[i]);
    }
}

/// A plan stands for its chunks, and in batch mode for its table.
pub proof fn plans_stand_for_what_they_hold(plan: WritePlan)
    ensures
        plan matches WritePlan::Batch { table, chunks } ==> plan@ == (PlanModel::Batch {
            table: table@,
            chunks: chunk_models(chunks@),
        }),
        plan matches WritePlan::Transactional { chunks } ==> plan@ == (PlanModel::Transactional {
            chunks: action_chunk_models(chunks@),
        }),
{
}

} // verus!
