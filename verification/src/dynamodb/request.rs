//! Write requests and how they are cut into chunks.

use vstd::prelude::*;
use vstd::string::*;

use crate::dynamodb::item::distinct_names;
use crate::dynamodb::item::fields_size;
use crate::dynamodb::item::AttributeValue;
use crate::dynamodb::item::Item;

verus! {

/// A write request: one item to put, or the key of one item to delete.
#[derive(Debug, PartialEq, Eq)]
pub struct WriteRequest {
    pub put: Option<Item>,
    pub delete: Option<Item>,
}

/// A write request, as plain data.
pub struct RequestModel {
    pub put: Option<Seq<(String, AttributeValue)>>,
    pub delete: Option<Seq<(String, AttributeValue)>>,
}

/// The attributes of an optional item.
pub open spec fn option_fields(item: Option<Item>) -> Option<Seq<(String, AttributeValue)>> {
    match item {
        Some(item) => Some(item@),
        None => None,
    }
}

impl View for WriteRequest {
    type V = RequestModel;

    open spec fn view(&self) -> RequestModel {
        RequestModel { put: option_fields(self.put), delete: option_fields(self.delete) }
    }
}

impl RequestModel {
    /// A request to put an item.
    pub open spec fn put_of(item: Seq<(String, AttributeValue)>) -> RequestModel {
        RequestModel { put: Some(item), delete: None }
    }

    /// A request to delete the item with the given key.
    pub open spec fn delete_of(key: Seq<(String, AttributeValue)>) -> RequestModel {
        RequestModel { put: None, delete: Some(key) }
    }

    /// No name occurs twice in what the request puts or deletes.
    pub open spec fn distinct(self) -> bool {
        &&& self.put matches Some(item) ==> distinct_names(item)
        &&& self.delete matches Some(key) ==> distinct_names(key)
    }

    /// How many bytes the request counts for.
    pub open spec fn size(self) -> nat {
        (match self.put {
            Some(item) => fields_size(item),
            None => 0,
        }) + (match self.delete {
            Some(key) => fields_size(key),
            None => 0,
        })
    }
}

/// A list of requests, as plain data.
pub open spec fn request_models(requests: Seq<WriteRequest>) -> Seq<RequestModel> {
    Seq::new(requests.len(), |i: int| requests[i]@)
}

/// No name occurs twice in what any of the requests puts or deletes.
pub open spec fn all_distinct(requests: Seq<RequestModel>) -> bool {
    forall|i: int| 0 <= i < requests.len() ==> (#[trigger] requests[i]).distinct()
}

/// A list of chunks of requests, as plain data.
pub open spec fn chunk_models(chunks: Seq<Vec<WriteRequest>>) -> Seq<Seq<RequestModel>> {
    Seq::new(chunks.len(), |i: int| request_models(chunks[i]@))
}

/// `s` cut into chunks of `n`, the last of which may be shorter.
pub open spec fn chunks_of<T>(s: Seq<T>, n: nat) -> Seq<Seq<T>>
    decreases s.len(),
{
    if s.len() == 0 || n == 0 {
        Seq::empty()
    } else if s.len() <= n {
        seq![s]
    } else {
        seq![s.take(n as int)] + chunks_of(s.skip(n as int), n)
    }
}

/// The chunks one after the other.
pub open spec fn joined<T>(chunks: Seq<Seq<T>>) -> Seq<T>
    decreases chunks.len(),
{
    if chunks.len() == 0 {
        Seq::empty()
    } else {
        chunks[0] + joined(chunks.drop_first())
    }
}

/// Every element stands in exactly one chunk, in the same order; no chunk is
/// empty or larger than the limit, and only the last is smaller.
pub proof fn chunks_cover_everything<T>(s: Seq<T>, n: nat)
    requires
        n > 0,
    ensures
        joined(chunks_of(s, n)) == s,
        forall|i: int|
            0 <= i < chunks_of(s, n).len() ==> 0 < (#[trigger] chunks_of(s, n)[i]).len() <= n,
        forall|i: int|
            0 <= i < chunks_of(s, n).len() - 1 ==> (#[trigger] chunks_of(s, n)[i]).len() == n,
    decreases s.len(),
{
    if s.len() > n {
        let rest = s.skip(n as int);
        chunks_cover_everything(rest, n);
        let chunks = chunks_of(s, n);
        assert(chunks.drop_first() == chunks_of(rest, n));
        assert(s.take(n as int) + rest == s);
        assert forall|i: int| 0 <= i < chunks.len() implies 0 < (#[trigger] chunks[i]).len()
            <= n by {
            if i > 0 {
                assert(chunks[i] == chunks_of(rest, n)[i - 1]);
            }
        }
        assert forall|i: int| 0 <= i < chunks.len() - 1 implies (#[trigger] chunks[i]).len() == n by {
            if i > 0 {
                assert(chunks[i] == chunks_of(rest, n)[i - 1]);
            }
        }
    } else if s.len() > 0 {
        reveal_with_fuel(joined, 2);
        assert(chunks_of(s, n).drop_first() == Seq::<Seq<T>>::empty());
        assert(s + Seq::<T>::empty() == s);
    }
}

/// Cuts `requests` into chunks of `batch_size`.
pub fn batch_chunks(requests: Vec<WriteRequest>, batch_size: usize) -> (chunks: Vec<
    Vec<WriteRequest>,
>)
    requires
        batch_size > 0,
    ensures
        chunk_models(chunks@) == chunks_of(request_models(requests@), batch_size as nat),
{
    let ghost all = request_models(requests@);
    let ghost n = batch_size as nat;
    let mut remaining = requests;
    let mut chunks: Vec<Vec<WriteRequest>> = Vec::new();
    assert(chunk_models(chunks@) + chunks_of(all, n) == chunks_of(all, n));
    while remaining.len() > 0
        invariant
            batch_size > 0,
            n == batch_size,
            chunk_models(chunks@) + chunks_of(request_models(remaining@), n) == chunks_of(all, n),
        decreases remaining.len(),
    {
        let ghost ahead = request_models(remaining@);
        let ghost before = chunk_models(chunks@);
        if remaining.len() > batch_size {
            let rest = remaining.split_off(batch_size);
            assert(request_models(remaining@) == ahead.take(n as int));
            assert(request_models(rest@) == ahead.skip(n as int));
            let ghost head = remaining;
            chunks.push(remaining);
            assert(chunk_models(chunks@) == before.push(request_models(head@)));
            assert(before.push(ahead.take(n as int)) + chunks_of(ahead.skip(n as int), n) == before
                + (seq![ahead.take(n as int)] + chunks_of(ahead.skip(n as int), n)));
            remaining = rest;
        } else {
            let ghost head = remaining;
            chunks.push(remaining);
            assert(chunk_models(chunks@) == before.push(request_models(head@)));
            remaining = Vec::new();
            assert(before.push(ahead) + chunks_of(request_models(remaining@), n) == before
                + seq![ahead]);
        }
    }
    assert(chunk_models(chunks@) + Seq::<Seq<RequestModel>>::empty() == chunk_models(chunks@));
    chunks
}

/// One action of a transaction.
#[derive(Debug, PartialEq, Eq)]
pub enum TransactWriteItem {
    Put { table: String, item: Item },
    Delete { table: String, key: Item },
}

/// An action of a transaction, as plain data.
pub enum ActionModel {
    Put { table: Seq<char>, item: Seq<(String, AttributeValue)> },
    Delete { table: Seq<char>, key: Seq<(String, AttributeValue)> },
}

impl View for TransactWriteItem {
    type V = ActionModel;

    open spec fn view(&self) -> ActionModel {
        match *self {
            TransactWriteItem::Put { table, item } => ActionModel::Put {
                table: table@,
                item: item@,
            },
            TransactWriteItem::Delete { table, key } => ActionModel::Delete {
                table: table@,
                key: key@,
            },
        }
    }
}

/// The action for a request, which must put or delete, and not both.
pub open spec fn action_of(table: Seq<char>, request: RequestModel) -> Option<ActionModel> {
    match (request.put, request.delete) {
        (Some(item), None) => Some(ActionModel::Put { table, item }),
        (None, Some(key)) => Some(ActionModel::Delete { table, key }),
        _ => None,
    }
}

/// The action of a transaction that carries out `request`.
pub fn transact_write_item(table: &str, request: WriteRequest) -> (action: Result<
    TransactWriteItem,
    String,
>)
    ensures
        match action {
            Ok(a) => action_of(table@, request@) == Some(a@),
            Err(message) => action_of(table@, request@) is None && message@
                == "expected exactly one put or delete request"@,
        },
        match action {
            Ok(TransactWriteItem::Put { table: t, item }) => t@ == table@ && request.put == Some(
                item,
            ) && request.delete is None,
            Ok(TransactWriteItem::Delete { table: t, key }) => t@ == table@ && request.delete
                == Some(key) && request.put is None,
            Err(_) => request.put is Some == request.delete is Some,
        },
{
    match (request.put, request.delete) {
        (Some(item), None) => Ok(TransactWriteItem::Put { table: table.to_owned(), item }),
        (None, Some(key)) => Ok(TransactWriteItem::Delete { table: table.to_owned(), key }),
        _ => Err("expected exactly one put or delete request".to_owned()),
    }
}

/// A list of actions, as plain data.
pub open spec fn action_models(actions: Seq<TransactWriteItem>) -> Seq<ActionModel> {
    Seq::new(actions.len(), |i: int| actions[i]@)
}

/// A list of chunks of actions, as plain data.
pub open spec fn action_chunk_models(chunks: Seq<Vec<TransactWriteItem>>) -> Seq<
    Seq<ActionModel>,
> {
    Seq::new(chunks.len(), |i: int| action_models(chunks[i]@))
}

/// Every request puts or deletes, and none does both.
pub open spec fn all_single(requests: Seq<RequestModel>) -> bool {
    forall|i: int|
        0 <= i < requests.len() ==> ((#[trigger] requests[i]).put is Some != requests[i].delete
            is Some)
}

/// The actions for a list of requests.
pub open spec fn actions_of(table: Seq<char>, requests: Seq<RequestModel>) -> Seq<ActionModel> {
    requests.map_values(|r: RequestModel| action_of(table, r)->0)
}

fn actions_for(table: &str, requests: Vec<WriteRequest>) -> (actions: Result<
    Vec<TransactWriteItem>,
    String,
>)
    ensures
        match actions {
            Ok(a) => all_single(request_models(requests@)) && action_models(a@) == actions_of(
                table@,
                request_models(requests@),
            ),
            Err(message) => !all_single(request_models(requests@)) && message@
                == "expected exactly one put or delete request"@,
        },
{
    let ghost all = request_models(requests@);
    let mut actions: Vec<TransactWriteItem> = Vec::new();
    for request in it: requests
        invariant
            it.seq() == requests@,
            all == request_models(requests@),
            actions@.len() == it.index(),
            forall|k: int|
                0 <= k < it.index() ==> ((#[trigger] all[k]).put is Some != all[k].delete is Some)
                    && actions@[k]@ == action_of(table@, all[k])->0,
    {
        assert(all[it.index()] == request@);
        match transact_write_item(table, request) {
            Ok(action) => {
                actions.push(action);
            },
            Err(e) => {
                assert(!all_single(all));
                return Err(e);
            },
        }
    }
    assert(action_models(actions@) == actions_of(table@, all));
    Ok(actions)
}

/// Cuts `requests` into transactions of at most `batch_size` actions. A request
/// that does not put or delete exactly one item fails all of them.
pub fn transact_chunks(table: &str, requests: Vec<WriteRequest>, batch_size: usize) -> (chunks:
    Result<Vec<Vec<TransactWriteItem>>, String>)
    requires
        batch_size > 0,
    ensures
        match chunks {
            Ok(c) => all_single(request_models(requests@)) && action_chunk_models(c@) == chunks_of(
                actions_of(table@, request_models(requests@)),
                batch_size as nat,
            ),
            Err(message) => !all_single(request_models(requests@)) && message@
                == "expected exactly one put or delete request"@,
        },
{
    let mut remaining = actions_for(table, requests)?;
    let ghost all = action_models(remaining@);
    let ghost n = batch_size as nat;
    let mut chunks: Vec<Vec<TransactWriteItem>> = Vec::new();
    assert(action_chunk_models(chunks@) + chunks_of(all, n) == chunks_of(all, n));
    while remaining.len() > 0
        invariant
            batch_size > 0,
            n == batch_size,
            action_chunk_models(chunks@) + chunks_of(action_models(remaining@), n) == chunks_of(
                all,
                n,
            ),
        decreases remaining.len(),
    {
        let ghost ahead = action_models(remaining@);
        let ghost before = action_chunk_models(chunks@);
        if remaining.len() > batch_size {
            let rest = remaining.split_off(batch_size);
            assert(action_models(remaining@) == ahead.take(n as int));
            assert(action_models(rest@) == ahead.skip(n as int));
            let ghost head = remaining;
            chunks.push(remaining);
            assert(action_chunk_models(chunks@) == before.push(action_models(head@)));
            assert(before.push(ahead.take(n as int)) + chunks_of(ahead.skip(n as int), n) == before
                + (seq![ahead.take(n as int)] + chunks_of(ahead.skip(n as int), n)));
            remaining = rest;
        } else {
            let ghost head = remaining;
            chunks.push(remaining);
            assert(action_chunk_models(chunks@) == before.push(action_models(head@)));
            remaining = Vec::new();
            assert(before.push(ahead) + chunks_of(action_models(remaining@), n) == before
                + seq![ahead]);
        }
    }
    assert(action_chunk_models(chunks@) + Seq::<Seq<ActionModel>>::empty() == action_chunk_models(
        chunks@,
    ));
    Ok(chunks)
}

/// Chunk `i` begins with element `i * n`, and each element follows the one before it.
pub proof fn chunks_begin_at_multiples<T>(s: Seq<T>, n: nat, i: int, j: int)
    requires
        n > 0,
        0 <= i < chunks_of(s, n).len(),
        0 <= j < chunks_of(s, n)[i].len(),
    ensures
        0 <= i * n + j < s.len(),
        chunks_of(s, n)[i][j] == s[i * n + j],
    decreases s.len(),
{
    let chunks = chunks_of(s, n);
    assert(0 * n == 0) by (nonlinear_arith);
    if s.len() > n && i > 0 {
        let rest = s.skip(n as int);
        assert(chunks[i] == chunks_of(rest, n)[i - 1]);
        chunks_begin_at_multiples(rest, n, i - 1, j);
        assert((i - 1) * n + n == i * n) by (nonlinear_arith);
    }
}

/// A request becomes an action exactly if it puts or deletes, and not both; the action
/// does the same to the given table.
pub proof fn actions_do_what_their_requests_do(table: Seq<char>, request: RequestModel)
    ensures
        action_of(table, request) is None <==> (request.put is Some <==> request.delete is Some),
        action_of(table, request) matches Some(ActionModel::Put { table: t, item }) ==> t == table
            && request.put == Some(item),
        action_of(table, request) matches Some(ActionModel::Delete { table: t, key }) ==> t == table
            && request.delete == Some(key),
{
}

/// A request counts for the item that it puts, or for the key that it deletes.
pub proof fn requests_count_for_what_they_hold(item: Seq<(String, AttributeValue)>)
    ensures
        (RequestModel { put: Some(item), delete: None }).size() == fields_size(item),
        (RequestModel { put: None, delete: Some(item) }).size() == fields_size(item),
        (RequestModel { put: None, delete: None }).size() == 0,
        (RequestModel { put: Some(item), delete: Some(item) }).size() == 2 * fields_size(item),
{
}

/// A request stands for the item that it puts and the key that it deletes, and an action
/// for its table and its item or key. Lists and chunks of them stand for their members,
/// one for one.
pub proof fn requests_stand_for_what_they_hold(
    request: WriteRequest,
    action: TransactWriteItem,
    requests: Seq<WriteRequest>,
    actions: Seq<TransactWriteItem>,
    chunks: Seq<Vec<WriteRequest>>,
    action_chunks: Seq<Vec<TransactWriteItem>>,
)
    ensures
        request@.put is Some <==> request.put is Some,
        request.put matches Some(item) ==> request@.put == Some(item@),
        request@.delete is Some <==> request.delete is Some,
        request.delete matches Some(key) ==> request@.delete == Some(key@),
        action matches TransactWriteItem::Put { table, item } ==> action@ == (ActionModel::Put {
            table: table@,
            item: item@,
        }),
        action matches TransactWriteItem::Delete { table, key } ==> action@ == (
        ActionModel::Delete { table: table@, key: key@ }),
        request_models(requests).len() == requests.len(),
        forall|i: int|
            0 <= i < requests.len() ==> #[trigger] request_models(requests)[i] == requests[i]@,
        action_models(actions).len() == actions.len(),
        forall|i: int|
            0 <= i < actions.len() ==> #[trigger] action_models(actions)[i] == actions[i]@,
        chunk_models(chunks).len() == chunks.len(),
        forall|i: int|
            0 <= i < chunks.len() ==> #[trigger] chunk_models(chunks)[i] == request_models(
                chunks[i]@,
            ),
        action_chunk_models(action_chunks).len() == action_chunks.len(),
        forall|i: int|
            0 <= i < action_chunks.len() ==> #[trigger] action_chunk_models(action_chunks)[i]
                == action_models(action_chunks[i]@),
{
}

} // verus!
