use aws_sdk_dynamodb::types::AttributeValue as Sdk;
use feldera_connectors::dynamodb::endpoint::{
    broadcast_and_collect, collect_results, partitions_to_dispatch, spawn_error, thread_name,
    worker_disconnected, Broadcast, DynamoDBOutputEndpoint, EndpointError, WorkerResult,
};
use feldera_connectors::dynamodb::item::{
    attribute_value_size, checked_item_size, checked_value_size, item_size, AttributeValue, Item,
};
use feldera_connectors::dynamodb::plan::{write_plan, WritePlan};
use feldera_connectors::dynamodb::request::{
    batch_chunks, transact_chunks, transact_write_item, TransactWriteItem, WriteRequest,
};
use feldera_connectors::dynamodb::retry::{backoff_delay, ChunkRetry, RequestFailure, RetryStep};
use feldera_connectors::dynamodb::stats::{
    dynamodb_bench_stats, is_throttle_error, reset_dynamodb_bench_stats, DynamoDBBenchStats,
    Progress,
};
use feldera_connectors::dynamodb::worker::{
    join_pending_writes, CredentialSource, DynamoDBWorker, DynamoDBWriteMode,
    DynamoDBWriterConfig, Encoded, IndexedOperationType, KeyUpdate, WriteJob, WriteOutcome,
};

struct TestRecord {
    id: i32,
    sort: String,
    b: bool,
    i: Option<i64>,
    s: String,
}

fn record(id: i32, sort: &str, i: Option<i64>, s: &str) -> TestRecord {
    TestRecord {
        id,
        sort: sort.to_string(),
        b: id % 2 == 0,
        i,
        s: s.to_string(),
    }
}

fn number(n: i64) -> AttributeValue {
    AttributeValue::N(n.to_string())
}

fn string(s: &str) -> AttributeValue {
    AttributeValue::S(s.to_string())
}

fn key_item(record: &TestRecord) -> Item {
    vec![
        ("id".to_string(), number(record.id as i64)),
        ("sort".to_string(), string(&record.sort)),
    ]
}

fn value_item(record: &TestRecord) -> Item {
    let mut item = key_item(record);
    item.push(("b".to_string(), AttributeValue::Bool(record.b)));
    item.push((
        "i".to_string(),
        match record.i {
            Some(i) => number(i),
            None => AttributeValue::Null(true),
        },
    ));
    item.push(("s".to_string(), string(&record.s)));
    item
}

/// The changes of a batch: records with their weights, grouped by key. Each key
/// has one or two records.
fn build_batch(mut tuples: Vec<(TestRecord, i64)>) -> Vec<KeyUpdate> {
    let mut updates = Vec::new();
    while !tuples.is_empty() {
        let (first, weight) = tuples.remove(0);
        let partner = tuples
            .iter()
            .position(|(r, _)| r.id == first.id && r.sort == first.sort)
            .map(|i| tuples.remove(i).0);
        let operation = match (&partner, weight > 0) {
            (Some(_), _) => IndexedOperationType::Upsert,
            (None, true) => IndexedOperationType::Insert,
            (None, false) => IndexedOperationType::Delete,
        };
        updates.push(KeyUpdate {
            operation: Ok(Some(operation)),
            weight,
            first: Ok(value_item(&first)),
            second: partner
                .map(|r| value_item(&r))
                .ok_or_else(|| "no second value".to_string()),
            key: Ok(key_item(&first)),
        });
    }
    updates
}

fn config(batch_size: usize) -> DynamoDBWriterConfig {
    DynamoDBWriterConfig {
        table: "test_table".to_string(),
        region: "us-east-1".to_string(),
        endpoint_url: None,
        aws_access_key_id: None,
        aws_secret_access_key: None,
        effective_batch_size: batch_size,
        write_mode: DynamoDBWriteMode::Batch,
        max_buffer_size_bytes: 1024 * 1024,
        max_concurrent_requests: 16,
        threads: 1,
        max_retries: 10,
    }
}

fn names(fields: &[&str]) -> Vec<String> {
    fields.iter().map(|f| f.to_string()).collect()
}

fn worker_with_config(config: &DynamoDBWriterConfig) -> DynamoDBWorker {
    DynamoDBWorker::with_config(
        config,
        names(&["id", "sort"]),
        &names(&["id", "sort", "b", "i", "s"]),
    )
}

fn worker(batch_size: usize) -> DynamoDBWorker {
    worker_with_config(&config(batch_size))
}

fn stage_batch(worker: &mut DynamoDBWorker, batch: Vec<KeyUpdate>) -> Encoded {
    worker.batch_start_inner();
    let encoded = worker.encode_cursor(batch);
    assert!(encoded.outcome.is_ok());
    encoded
}

fn attr<'a>(item: &'a Item, field: &str) -> &'a AttributeValue {
    &item
        .iter()
        .find(|(name, _)| name == field)
        .unwrap_or_else(|| panic!("no attribute {field}"))
        .1
}

fn attr_s<'a>(item: &'a Item, field: &str) -> &'a str {
    match attr(item, field) {
        AttributeValue::S(s) => s,
        other => panic!("unexpected {other:?}"),
    }
}

fn attr_n<'a>(item: &'a Item, field: &str) -> &'a str {
    match attr(item, field) {
        AttributeValue::N(s) => s,
        other => panic!("unexpected {other:?}"),
    }
}

fn put(request: &WriteRequest) -> &Item {
    request.put.as_ref().unwrap()
}

#[test]
fn encoder_insert_as_put_item() {
    let mut worker = worker(25);
    let batch = build_batch(vec![(record(1, "a", Some(10), "inserted"), 1)]);
    stage_batch(&mut worker, batch);
    assert_eq!(worker.pending().len(), 1);
    let item = put(&worker.pending()[0]);
    assert_eq!(attr_n(item, "id"), "1");
    assert_eq!(attr_s(item, "sort"), "a");
    assert_eq!(attr(item, "b"), &AttributeValue::Bool(false));
    assert_eq!(attr_n(item, "i"), "10");
    assert_eq!(attr_s(item, "s"), "inserted");
}

#[test]
fn encoder_delete_as_delete_item_key_only() {
    let mut worker = worker(25);
    let batch = build_batch(vec![(record(2, "b", Some(20), "deleted"), -1)]);
    stage_batch(&mut worker, batch);
    assert_eq!(worker.pending().len(), 1);
    assert!(worker.pending()[0].put.is_none());
    let key = worker.pending()[0].delete.as_ref().unwrap();
    assert_eq!(key.len(), 2);
    assert_eq!(attr_n(key, "id"), "2");
    assert_eq!(attr_s(key, "sort"), "b");
}

#[test]
fn encoder_upsert_as_put_item_with_new_value() {
    let mut worker = worker(25);
    let batch = build_batch(vec![
        (record(3, "c", Some(30), "old"), -1),
        (record(3, "c", None, "new"), 1),
    ]);
    stage_batch(&mut worker, batch);
    assert_eq!(worker.pending().len(), 1);
    let item = put(&worker.pending()[0]);
    assert_eq!(attr_n(item, "id"), "3");
    assert_eq!(attr_s(item, "sort"), "c");
    assert_eq!(attr(item, "i"), &AttributeValue::Null(true));
    assert_eq!(attr_s(item, "s"), "new");
}

#[test]
fn an_upsert_may_list_the_new_value_first() {
    let mut worker = worker(25);
    let batch = build_batch(vec![
        (record(3, "c", None, "new"), 1),
        (record(3, "c", Some(30), "old"), -1),
    ]);
    stage_batch(&mut worker, batch);
    assert_eq!(attr_s(put(&worker.pending()[0]), "s"), "new");
}

#[test]
fn encoder_stages_until_batch_end() {
    let mut worker = worker(100);
    let batch = build_batch(
        (0..5)
            .map(|id| (record(id, "chunk", Some(id as i64), "r"), 1))
            .collect(),
    );

    stage_batch(&mut worker, batch);
    // pending holds all records until flush is called
    assert_eq!(worker.pending().len(), 5);

    let job = worker.flush().unwrap();
    assert_eq!(job.requests.len(), 5);

    let mut ids = job
        .requests
        .iter()
        .map(|r| attr_n(put(r), "id").parse::<i32>().unwrap())
        .collect::<Vec<_>>();
    ids.sort();
    assert_eq!(ids, vec![0, 1, 2, 3, 4]);
}

#[test]
fn encoder_flushes_when_buffer_limit_is_reached() {
    // max_buffer_size_bytes=1 forces a flush after the first record.
    let mut config = config(25);
    config.max_buffer_size_bytes = 1;
    let mut worker = worker_with_config(&config);
    let batch = build_batch(vec![(record(9, "early", Some(90), "flushed"), 1)]);
    let encoded = stage_batch(&mut worker, batch);
    // pending is empty because the record was flushed mid-encode
    assert!(worker.pending().is_empty());
    assert_eq!(worker.records_written(), 1);
    assert_eq!(encoded.jobs.len(), 1);
    // id 9, sort early, b false, i 90, s flushed, with their names
    assert_eq!(encoded.outcome.unwrap(), (3 + 9 + 2 + 3 + 8, 1));
}

#[test]
fn encoder_flushes_when_record_threshold_is_reached() {
    // threshold = batch_size(2) × max_concurrent_requests(2) = 4
    let mut config = config(2);
    config.max_concurrent_requests = 2;
    config.max_buffer_size_bytes = usize::MAX;
    let mut worker = worker_with_config(&config);
    let batch = build_batch(
        (0..4)
            .map(|id| (record(id, "threshold", Some(id as i64), "r"), 1))
            .collect(),
    );
    stage_batch(&mut worker, batch);
    assert!(worker.pending().is_empty());
    assert_eq!(worker.records_written(), 4);
}

fn encode_batch(worker: &mut DynamoDBWorker, batch: Vec<KeyUpdate>) {
    stage_batch(worker, batch);
    worker.batch_end_inner();
}

#[test]
fn encoder_empty_batch_single_thread() {
    let mut worker = worker(25);
    encode_batch(&mut worker, build_batch(Vec::new()));
    assert!(worker.pending().is_empty());
    assert_eq!(worker.records_written(), 0);
}

#[test]
fn encoder_empty_batch_multi_thread() {
    for _ in 0..4 {
        let mut worker = worker(25);
        encode_batch(&mut worker, build_batch(Vec::new()));
        assert!(worker.pending().is_empty());
        assert_eq!(worker.records_written(), 0);
    }
}

#[test]
fn encoder_multiple_batches_insert_upsert_delete() {
    let mut worker = worker(25);

    stage_batch(
        &mut worker,
        build_batch(vec![(record(11, "sequence", Some(110), "insert"), 1)]),
    );
    assert_eq!(worker.pending().len(), 1);
    assert!(worker.pending()[0].put.is_some());

    stage_batch(
        &mut worker,
        build_batch(vec![
            (record(11, "sequence", Some(110), "insert"), -1),
            (record(11, "sequence", Some(111), "upsert"), 1),
        ]),
    );
    assert_eq!(worker.pending().len(), 1);
    assert_eq!(attr_s(put(&worker.pending()[0]), "s"), "upsert");

    stage_batch(
        &mut worker,
        build_batch(vec![(record(11, "sequence", Some(111), "upsert"), -1)]),
    );
    assert_eq!(worker.pending().len(), 1);
    assert!(worker.pending()[0].delete.is_some());
}

#[test]
fn encoder_progress_counter_advances_on_mid_batch_flush() {
    let mut config = config(2);
    config.max_concurrent_requests = 2;
    config.max_buffer_size_bytes = usize::MAX;
    let mut worker = worker_with_config(&config);
    let mut progress = Progress::new();
    let batch = build_batch(
        (0..4)
            .map(|id| (record(id, "progress", Some(id as i64), "r"), 1))
            .collect(),
    );
    let encoded = stage_batch(&mut worker, batch);
    assert_eq!(worker.records_written(), 4);
    for job in encoded.jobs {
        progress.add_rows(job.requests.len());
    }
    assert_eq!(progress.records_written, 4);
}

#[test]
fn each_flush_reports_its_own_bytes() {
    let mut worker = worker(25);
    let request = || WriteRequest {
        put: None,
        delete: None,
    };
    assert!(worker.push_request(request(), 10).is_none());
    assert!(worker.push_request(request(), 7).is_none());
    assert_eq!(worker.pending_bytes(), 17);
    let job = worker.flush().unwrap();
    assert_eq!((job.bytes, job.requests.len()), (17, 2));

    assert!(worker.push_request(request(), 5).is_none());
    let job = worker.flush().unwrap();
    assert_eq!((job.bytes, job.requests.len()), (5, 1));
    assert!(worker.pending().is_empty());
    assert_eq!(worker.pending_bytes(), 0);
    assert_eq!(worker.records_written(), 3);
}

#[test]
fn a_request_counted_for_the_limit_is_handed_over() {
    let mut config = config(25);
    config.max_buffer_size_bytes = 20;
    let mut worker = worker_with_config(&config);
    let request = || WriteRequest {
        put: None,
        delete: None,
    };
    assert!(worker.push_request(request(), 19).is_none());
    let job = worker.push_request(request(), 1).unwrap();
    assert_eq!((job.bytes, job.requests.len()), (20, 2));
    assert_eq!(worker.pending_bytes(), 0);
}

fn empty_endpoint() -> DynamoDBOutputEndpoint {
    DynamoDBOutputEndpoint::new("test_dynamodb_endpoint", config(25), Ok(()), true, true, 0)
        .unwrap()
}

#[test]
fn encoder_progress_counter_resets_at_batch_start_and_end() {
    let mut progress = Progress {
        records_written: 99,
        retries: 0,
    };
    let mut stats = DynamoDBBenchStats::default();
    let mut endpoint = empty_endpoint();

    endpoint.batch_start(&mut progress);
    assert_eq!(progress.records_written, 0);

    progress.records_written = 88;
    endpoint.batch_end(&Broadcast::Answered(Vec::new()), &mut progress, &mut stats, 1, 0);
    assert_eq!(progress.records_written, 0);
}

fn structure(id: i64, b: bool, i: Option<i64>, s: &str) -> AttributeValue {
    AttributeValue::M(vec![
        ("id".to_string(), number(id)),
        ("b".to_string(), AttributeValue::Bool(b)),
        (
            "i".to_string(),
            match i {
                Some(i) => number(i),
                None => AttributeValue::Null(true),
            },
        ),
        ("s".to_string(), string(s)),
    ])
}

fn all_types_item() -> Item {
    vec![
        ("id", number(42)),
        ("boolean_", AttributeValue::Bool(true)),
        ("tinyint_", number(-8)),
        ("smallint_", number(16)),
        ("int_", number(32)),
        ("bigint_", number(64)),
        ("decimal_", AttributeValue::N("12.345".to_string())),
        ("float_", AttributeValue::N("1.5".to_string())),
        ("double_", AttributeValue::N("2.25".to_string())),
        ("varchar_", string("hello")),
        ("time_", string("01:02:03.000456")),
        ("date_", string("2024-05-25")),
        ("timestamp_", string("2024-05-25 01:02:03.000456")),
        ("variant_", string("variant-value")),
        ("uuid_", string("550e8400-e29b-41d4-a716-446655440000")),
        (
            "varbinary_",
            AttributeValue::L(vec![number(1), number(2), number(3), number(4)]),
        ),
        ("struct_", structure(5, false, Some(50), "inside-struct")),
        (
            "string_array_",
            AttributeValue::L(vec![string("a"), string("b")]),
        ),
        (
            "struct_array_",
            AttributeValue::L(vec![structure(6, true, None, "inside-array")]),
        ),
        (
            "map_",
            AttributeValue::M(vec![(
                "nested".to_string(),
                structure(7, true, Some(70), "inside-map"),
            )]),
        ),
        ("nullable_", AttributeValue::Null(true)),
    ]
    .into_iter()
    .map(|(name, value)| (name.to_string(), value))
    .collect()
}

fn build_all_types_batch() -> Vec<KeyUpdate> {
    vec![KeyUpdate {
        operation: Ok(Some(IndexedOperationType::Insert)),
        weight: 1,
        first: Ok(all_types_item()),
        second: Err("no second value".to_string()),
        key: Ok(vec![("id".to_string(), number(42))]),
    }]
}

fn all_types_worker() -> DynamoDBWorker {
    let fields = all_types_item().into_iter().map(|(name, _)| name).collect();
    DynamoDBWorker::with_config(&config(25), names(&["id"]), &fields)
}

#[test]
fn encoder_all_supported_sql_types() {
    let mut worker = all_types_worker();
    stage_batch(&mut worker, build_all_types_batch());
    assert_eq!(worker.pending().len(), 1);
    let item = put(&worker.pending()[0]);

    assert_eq!(attr_n(item, "id"), "42");
    assert_eq!(attr(item, "boolean_"), &AttributeValue::Bool(true));
    assert_eq!(attr_n(item, "tinyint_"), "-8");
    assert_eq!(attr_n(item, "smallint_"), "16");
    assert_eq!(attr_n(item, "int_"), "32");
    assert_eq!(attr_n(item, "bigint_"), "64");
    assert_eq!(attr_n(item, "decimal_"), "12.345");
    assert_eq!(attr_n(item, "float_"), "1.5");
    assert_eq!(attr_n(item, "double_"), "2.25");
    assert_eq!(attr_s(item, "varchar_"), "hello");
    assert!(matches!(attr(item, "time_"), AttributeValue::S(_)));
    assert!(matches!(attr(item, "date_"), AttributeValue::S(_)));
    assert!(matches!(attr(item, "timestamp_"), AttributeValue::S(_)));
    assert_eq!(attr_s(item, "variant_"), "variant-value");
    assert_eq!(
        attr_s(item, "uuid_"),
        "550e8400-e29b-41d4-a716-446655440000"
    );
    assert!(matches!(attr(item, "varbinary_"), AttributeValue::L(_)));
    assert!(matches!(attr(item, "struct_"), AttributeValue::M(_)));
    assert!(matches!(attr(item, "string_array_"), AttributeValue::L(_)));
    assert!(matches!(attr(item, "struct_array_"), AttributeValue::L(_)));
    assert!(matches!(attr(item, "map_"), AttributeValue::M(_)));
    assert_eq!(attr(item, "nullable_"), &AttributeValue::Null(true));
}

#[test]
fn encoder_split_cursor_partitions_encode_disjoint_key_ranges() {
    let bounds = [0, 3, 7, 10];
    let mut ids = Vec::new();
    for range in bounds.windows(2) {
        let mut worker = worker(100);
        let batch = build_batch(
            (range[0]..range[1])
                .map(|id| (record(id, "split", Some(id as i64), "r"), 1))
                .collect(),
        );
        stage_batch(&mut worker, batch);
        ids.extend(
            worker
                .pending()
                .iter()
                .map(|r| attr_n(put(r), "id").parse::<i32>().unwrap()),
        );
        worker.batch_end_inner();
    }
    ids.sort();
    assert_eq!(ids, (0..10).collect::<Vec<_>>());
}

/// The attribute value of the SDK, as a value of the library.
fn from_sdk(value: Sdk) -> AttributeValue {
    match value {
        Sdk::S(s) => AttributeValue::S(s),
        Sdk::N(n) => AttributeValue::N(n),
        Sdk::Bool(b) => AttributeValue::Bool(b),
        Sdk::Null(n) => AttributeValue::Null(n),
        Sdk::L(values) => AttributeValue::L(values.into_iter().map(from_sdk).collect()),
        Sdk::M(map) => {
            AttributeValue::M(map.into_iter().map(|(k, v)| (k, from_sdk(v))).collect())
        }
        _ => AttributeValue::Unknown,
    }
}

#[test]
fn encoder_json_to_attribute_value_encodes_nested_values() {
    let json: serde_json::Value = serde_json::from_str(
        r#"{
            "n": 1.25,
            "s": "x",
            "b": true,
            "null": null,
            "list": [1, "two"],
            "map": { "nested": false }
        }"#,
    )
    .unwrap();
    let sdk: std::collections::HashMap<String, Sdk> =
        serde_dynamo::aws_sdk_dynamodb_1::to_item(json).unwrap();
    let item: Item = sdk.into_iter().map(|(k, v)| (k, from_sdk(v))).collect();

    assert_eq!(attr_n(&item, "n"), "1.25");
    assert_eq!(attr_s(&item, "s"), "x");
    assert_eq!(attr(&item, "b"), &AttributeValue::Bool(true));
    assert_eq!(attr(&item, "null"), &AttributeValue::Null(true));
    assert!(matches!(attr(&item, "list"), AttributeValue::L(_)));
    assert!(matches!(attr(&item, "map"), AttributeValue::M(_)));
    // Names and values: n1.25, sx, b1, null1, list(1, two), map(nested, 1).
    assert_eq!(item_size(&item), 5 + 2 + 2 + 5 + 8 + 10);
}

#[test]
fn sizes_count_bytes() {
    assert_eq!(attribute_value_size(&string("é")), 2);
    assert_eq!(attribute_value_size(&AttributeValue::B(vec![1, 2, 3])), 3);
    assert_eq!(attribute_value_size(&AttributeValue::Bool(true)), 1);
    assert_eq!(attribute_value_size(&AttributeValue::Null(true)), 1);
    assert_eq!(
        attribute_value_size(&AttributeValue::Ss(names(&["ab", "c"]))),
        3
    );
    assert_eq!(attribute_value_size(&AttributeValue::Ns(names(&["10"]))), 2);
    assert_eq!(
        attribute_value_size(&AttributeValue::Bs(vec![vec![1], vec![2, 3]])),
        3
    );
    assert_eq!(attribute_value_size(&AttributeValue::Unknown), 0);
    assert_eq!(checked_value_size(&number(12)), Some(2));
    let item: Item = vec![("key".to_string(), AttributeValue::L(vec![string("ab")]))];
    assert_eq!(checked_item_size(&item), Some(5));
    assert_eq!(item_size(&Vec::new()), 0);
}

#[test]
fn missing_key_attributes_are_added() {
    let mut worker =
        DynamoDBWorker::with_config(&config(25), names(&["id", "sort"]), &names(&["id", "x"]));
    let update = |key: Result<Item, String>| KeyUpdate {
        operation: Ok(Some(IndexedOperationType::Insert)),
        weight: 1,
        first: Ok(vec![
            ("id".to_string(), number(1)),
            ("x".to_string(), string("v")),
        ]),
        second: Err("none".to_string()),
        key,
    };
    let key: Item = vec![
        ("id".to_string(), number(99)),
        ("sort".to_string(), string("a")),
    ];
    worker.encode_cursor(vec![update(Ok(key))]);
    let item = put(&worker.pending()[0]);
    assert_eq!(item.len(), 3);
    assert_eq!(attr_n(item, "id"), "1", "the value keeps its own attributes");
    assert_eq!(attr_s(item, "sort"), "a");

    let empty = worker.encode_cursor(vec![update(Ok(Vec::new()))]);
    assert_eq!(
        empty.outcome.unwrap_err(),
        "dynamodb output connector requires a non-empty index key"
    );
    let unreadable = worker.encode_cursor(vec![update(Err("bad key".to_string()))]);
    assert_eq!(unreadable.outcome.unwrap_err(), "bad key");
}

#[test]
fn errors_stop_the_encoding() {
    let mut config = config(1);
    config.max_concurrent_requests = 1;
    let mut worker = worker_with_config(&config);
    let mut updates = build_batch(vec![
        (record(1, "a", None, "x"), 1),
        (record(2, "b", None, "y"), 1),
    ]);
    updates.insert(
        1,
        KeyUpdate {
            operation: Err("not a unique key".to_string()),
            weight: 0,
            first: Err("none".to_string()),
            second: Err("none".to_string()),
            key: Err("none".to_string()),
        },
    );
    let encoded = worker.encode_cursor(updates);
    assert_eq!(encoded.outcome.unwrap_err(), "not a unique key");
    assert_eq!(encoded.jobs.len(), 1, "what was handed over is still written");
    assert_eq!(worker.records_written(), 1);
}

#[test]
fn changes_that_cancel_out_need_no_request() {
    let mut worker = worker(25);
    let encoded = worker.encode_cursor(vec![KeyUpdate {
        operation: Ok(None),
        weight: 0,
        first: Err("none".to_string()),
        second: Err("none".to_string()),
        key: Err("none".to_string()),
    }]);
    assert_eq!(encoded.outcome.unwrap(), (0, 0));
    assert!(worker.pending().is_empty());
    assert_eq!(worker.pending_bytes(), 0);
}

#[test]
fn requests_are_neither_lost_nor_reordered() {
    let mut config = config(3);
    config.max_concurrent_requests = 1;
    let mut worker = worker_with_config(&config);
    let batch = build_batch(
        (0..8)
            .map(|id| (record(id, "k", Some(id as i64), "r"), 1))
            .collect(),
    );
    let encoded = stage_batch(&mut worker, batch);
    let (bytes, rows) = encoded.outcome.unwrap();
    assert_eq!(rows, 6);
    assert_eq!(bytes, encoded.jobs.iter().map(|j| j.bytes).sum::<usize>());
    let (last, last_bytes, last_rows) = worker.batch_end_inner();
    assert_eq!(last_rows, 2);
    assert_eq!(last.as_ref().unwrap().bytes, last_bytes);
    let ids: Vec<String> = encoded
        .jobs
        .iter()
        .chain(last.iter())
        .flat_map(|j| j.requests.iter())
        .map(|r| attr_n(put(r), "id").to_string())
        .collect();
    assert_eq!(ids, (0..8).map(|i| i.to_string()).collect::<Vec<_>>());
    assert_eq!(worker.records_written(), 8);
    assert_eq!(worker.batch_end_inner(), (None, 0, 0));
}

fn put_request(id: i64) -> WriteRequest {
    WriteRequest {
        put: Some(vec![("id".to_string(), number(id))]),
        delete: None,
    }
}

#[test]
fn requests_are_cut_into_chunks() {
    let chunks = batch_chunks((0..5).map(put_request).collect(), 2);
    assert_eq!(
        chunks.iter().map(Vec::len).collect::<Vec<_>>(),
        vec![2, 2, 1]
    );
    let ids: Vec<&str> = chunks
        .iter()
        .flatten()
        .map(|r| attr_n(put(r), "id"))
        .collect();
    assert_eq!(ids, vec!["0", "1", "2", "3", "4"]);
    assert!(batch_chunks(Vec::new(), 2).is_empty());
    assert_eq!(batch_chunks((0..2).map(put_request).collect(), 2).len(), 1);
}

#[test]
fn transactions_need_exactly_one_action_per_request() {
    let delete = || WriteRequest {
        put: None,
        delete: Some(vec![("id".to_string(), number(7))]),
    };
    assert_eq!(
        transact_write_item("t", delete()).unwrap(),
        TransactWriteItem::Delete {
            table: "t".to_string(),
            key: vec![("id".to_string(), number(7))]
        }
    );
    let both = WriteRequest {
        put: Some(Vec::new()),
        delete: Some(Vec::new()),
    };
    assert_eq!(
        transact_write_item("t", both).unwrap_err(),
        "expected exactly one put or delete request"
    );
    let neither = WriteRequest {
        put: None,
        delete: None,
    };
    assert_eq!(
        transact_chunks("t", vec![put_request(1), neither], 25).unwrap_err(),
        "expected exactly one put or delete request"
    );
    let chunks = transact_chunks("t", vec![put_request(1), delete(), put_request(2)], 2).unwrap();
    assert_eq!(chunks.len(), 2);
    assert!(matches!(&chunks[0][0], TransactWriteItem::Put { table, .. } if table == "t"));
    assert!(matches!(&chunks[0][1], TransactWriteItem::Delete { .. }));
    assert_eq!(chunks[1].len(), 1);
}

#[test]
fn backoff_doubles_up_to_a_limit() {
    let delays: Vec<u64> = (0..11).map(backoff_delay).collect();
    assert_eq!(
        delays,
        vec![50, 100, 200, 400, 800, 1600, 3200, 6400, 12800, 12800, 12800]
    );
    assert_eq!(backoff_delay(usize::MAX), 12800);
}

fn failure(shown: &str) -> RequestFailure {
    RequestFailure {
        shown: shown.to_string(),
        chain: format!("{shown}: cause"),
    }
}

#[test]
fn transactions_are_retried() {
    let mut stats = DynamoDBBenchStats::default();
    let mut progress = Progress::new();
    let mut chunk = ChunkRetry::begin("e", 2, 25, &mut stats);
    assert_eq!(stats.requested_items, 25);
    assert!(matches!(
        chunk.write_transact_chunk(Err(failure("ThrottlingException")), &mut progress, &mut stats),
        RetryStep::RetryAll(100)
    ));
    assert!(matches!(
        chunk.write_transact_chunk(Err(failure("timeout")), &mut progress, &mut stats),
        RetryStep::RetryAll(200)
    ));
    assert!(matches!(
        chunk.write_transact_chunk(Err(failure("timeout")), &mut progress, &mut stats),
        RetryStep::Fail(m) if m == "dynamodb output connector 'e' failed to commit transaction chunk after 2 retries: timeout: cause"
    ));
    assert_eq!(stats.retries, 2);
    assert_eq!(stats.throttled_requests, 1);
    assert_eq!(stats.error_retries, 1);
    assert_eq!(progress.retries, 2);
    assert!(matches!(
        chunk.write_transact_chunk(Ok(()), &mut progress, &mut stats),
        RetryStep::Done
    ));
}

#[test]
fn batches_are_retried() {
    let mut stats = DynamoDBBenchStats::default();
    let mut progress = Progress::new();
    let mut chunk = ChunkRetry::begin("e", 2, 25, &mut stats);
    assert!(matches!(
        chunk.write_batch_chunk(Ok(vec![3, 4]), &mut progress, &mut stats),
        RetryStep::RetryUnprocessed(100)
    ));
    assert_eq!(stats.unprocessed_items, 7);
    assert_eq!(stats.throttled_requests, 7);
    assert!(matches!(
        chunk.write_batch_chunk(Err(failure("reset")), &mut progress, &mut stats),
        RetryStep::RetryAll(200)
    ));
    assert_eq!(stats.error_retries, 1);
    assert!(matches!(
        chunk.write_batch_chunk(Ok(vec![5]), &mut progress, &mut stats),
        RetryStep::Fail(m) if m == "dynamodb output connector 'e' failed to write 5 unprocessed item(s) after 2 retries"
    ));
    assert!(matches!(
        chunk.write_batch_chunk(Err(failure("reset")), &mut progress, &mut stats),
        RetryStep::Fail(m) if m == "dynamodb output connector 'e' failed to write batch chunk after 2 retries: reset: cause"
    ));
    assert_eq!(progress.retries, 2);
    assert!(matches!(
        chunk.write_batch_chunk(Ok(Vec::new()), &mut progress, &mut stats),
        RetryStep::Done
    ));
}

/// How often a chunk is sent, and whether it is written, when only the reply to
/// request `success` says so.
fn send_chunk(max_retries: usize, success: usize) -> (usize, u64, bool) {
    let mut stats = DynamoDBBenchStats::default();
    let mut progress = Progress::new();
    let mut chunk = ChunkRetry::begin("e", max_retries, 1, &mut stats);
    let mut requests = 0;
    loop {
        requests += 1;
        let unprocessed = if requests == success { vec![] } else { vec![1] };
        match chunk.write_batch_chunk(Ok(unprocessed), &mut progress, &mut stats) {
            RetryStep::Done => return (requests, progress.retries, true),
            RetryStep::Fail(_) => return (requests, progress.retries, false),
            RetryStep::RetryAll(_) | RetryStep::RetryUnprocessed(_) => {}
        }
    }
}

#[test]
fn chunks_are_written_within_their_retries() {
    assert_eq!(send_chunk(3, 1), (1, 0, true));
    assert_eq!(send_chunk(3, 4), (4, 3, true));
    assert_eq!(send_chunk(3, 5), (4, 3, false));
    assert_eq!(send_chunk(0, 2), (1, 0, false));
}

#[test]
fn jobs_are_sent_by_the_write_mode() {
    let put = |id: i64| WriteRequest {
        put: Some(vec![("id".to_string(), number(id))]),
        delete: None,
    };
    let job = || WriteJob {
        requests: (0..5).map(put).collect(),
        bytes: 15,
    };
    let mut config = config(2);
    match write_plan(job(), &config).unwrap() {
        WritePlan::Batch { table, chunks } => {
            assert_eq!(table, "test_table");
            assert_eq!(chunks, vec![vec![put(0), put(1)], vec![put(2), put(3)], vec![put(4)]]);
        }
        other => panic!("unexpected {other:?}"),
    }

    config.write_mode = DynamoDBWriteMode::Transactional;
    let action = |id: i64| TransactWriteItem::Put {
        table: "test_table".to_string(),
        item: vec![("id".to_string(), number(id))],
    };
    match write_plan(job(), &config).unwrap() {
        WritePlan::Transactional { chunks } => assert_eq!(
            chunks,
            vec![
                vec![action(0), action(1)],
                vec![action(2), action(3)],
                vec![action(4)]
            ]
        ),
        other => panic!("unexpected {other:?}"),
    }

    let neither = WriteJob {
        requests: vec![WriteRequest {
            put: None,
            delete: None,
        }],
        bytes: 0,
    };
    assert_eq!(
        write_plan(neither, &config).unwrap_err(),
        "expected exactly one put or delete request"
    );
}

#[test]
fn throttle_errors_are_recognized() {
    assert!(is_throttle_error(
        "service error: ProvisionedThroughputExceededException"
    ));
    assert!(is_throttle_error("RequestLimitExceeded: slow down"));
    assert!(is_throttle_error("ThrottlingException"));
    assert!(!is_throttle_error("ValidationException"));
}

#[test]
fn statistics_can_be_read_and_reset() {
    let mut stats = DynamoDBBenchStats::default();
    stats.add_requested(10);
    stats.add_consumed_capacity(1500);
    stats.add_flush_duration(7);
    let copy = dynamodb_bench_stats(&stats);
    assert_eq!(copy, stats);
    assert_eq!(copy.consumed_capacity_millis, 1500);
    assert_eq!(copy.flush_durations_us, vec![7]);
    reset_dynamodb_bench_stats(&mut stats);
    assert_eq!(stats, DynamoDBBenchStats::default());
    stats.requested_items = u64::MAX;
    stats.add_requested(2);
    assert_eq!(stats.requested_items, 1, "counters wrap around");
}

#[test]
fn write_errors_are_joined() {
    assert!(join_pending_writes(&vec![WriteOutcome::Done]).is_ok());
    assert_eq!(
        join_pending_writes(&vec![
            WriteOutcome::Failed("a".to_string()),
            WriteOutcome::Done,
            WriteOutcome::Panicked("b".to_string()),
        ])
        .unwrap_err(),
        "DynamoDB writes failed: a; write task panicked: b"
    );
}

#[test]
fn worker_results_are_collected() {
    let success = |num_bytes, num_rows| WorkerResult::Success {
        num_bytes,
        num_rows,
    };
    assert_eq!(
        collect_results(&vec![success(10, 1), success(5, 2)]),
        (15, 3, None)
    );
    assert_eq!(
        collect_results(&vec![
            success(10, 1),
            WorkerResult::Failure("x".to_string()),
            WorkerResult::Disconnected
        ]),
        (
            10,
            1,
            Some("2 DynamoDB worker(s) failed: x; worker thread disconnected".to_string())
        )
    );
    assert_eq!(worker_disconnected(), "worker thread disconnected");
    assert_eq!(
        broadcast_and_collect(&Broadcast::Answered(vec![success(10, 1), success(5, 2)])),
        Ok((15, 3))
    );
    assert_eq!(
        broadcast_and_collect(&Broadcast::Answered(vec![WorkerResult::Disconnected])),
        Err("1 DynamoDB worker(s) failed: worker thread disconnected".to_string())
    );
    assert_eq!(
        broadcast_and_collect(&Broadcast::Unsent),
        Err("worker thread disconnected".to_string())
    );
}

#[test]
fn counters_must_have_room() {
    let mut endpoint = empty_endpoint();
    let success = |num_bytes, num_rows| WorkerResult::Success {
        num_bytes,
        num_rows,
    };
    assert!(endpoint.has_room_for(&vec![success(usize::MAX, 1)]));
    assert!(!endpoint.has_room_for(&vec![success(usize::MAX, 1), success(1, 1)]));
    endpoint.encode(&vec![success(usize::MAX, 1)]).unwrap();
    assert!(endpoint.has_room_for(&vec![success(0, 1)]));
    assert!(!endpoint.has_room_for(&vec![success(1, 1)]));
    let progress = Progress::new();
    assert!(endpoint.has_room(&Broadcast::Unsent, &progress));
    assert!(!endpoint.has_room(&Broadcast::Answered(vec![success(1, 0)]), &progress));
}

#[test]
fn endpoints_need_a_unique_key() {
    let new = |validation, has_key_schema, is_index| {
        DynamoDBOutputEndpoint::new("e", config(25), validation, has_key_schema, is_index, 0)
    };
    assert_eq!(
        new(Err("table must not be empty".to_string()), true, true).unwrap_err(),
        EndpointError::InvalidTransportConfiguration {
            endpoint_name: "e".to_string(),
            error: "table must not be empty".to_string()
        }
    );
    for (has_key_schema, is_index) in [(false, true), (true, false), (false, false)] {
        assert_eq!(
            new(Ok(()), has_key_schema, is_index).unwrap_err(),
            EndpointError::NotSupported("DynamoDB output connector requires the view to have a unique key. Please specify the `index` property in the connector configuration. For more details, see: https://docs.feldera.com/connectors/unique_keys".to_string())
        );
    }
    let endpoint = new(Ok(()), true, true).unwrap();
    assert_eq!(endpoint.endpoint_name(), "e");
    assert_eq!(endpoint.config().table, "test_table");
    assert_eq!(endpoint.max_buffer_size_bytes(), 1024 * 1024);
    assert!(!endpoint.is_fault_tolerant());
    assert_eq!(thread_name("e", 3), "dynamodb-output-e-3");
    assert_eq!(
        spawn_error("e", "no threads"),
        EndpointError::OutputTransport {
            endpoint_name: "e".to_string(),
            error: "failed to spawn worker thread: no threads".to_string()
        }
    );
}

#[test]
fn partitions_go_to_workers_in_order() {
    assert_eq!(
        partitions_to_dispatch(&vec![true, false, true, true]),
        vec![0, 2, 3]
    );
    assert!(partitions_to_dispatch(&Vec::new()).is_empty());
}

#[test]
fn batches_are_accounted_for() {
    let minute: u128 = 60_000_000_000;
    let mut endpoint = empty_endpoint();
    let mut progress = Progress::new();
    let mut stats = DynamoDBBenchStats::default();
    let success = |num_bytes, num_rows| WorkerResult::Success {
        num_bytes,
        num_rows,
    };

    endpoint.batch_start(&mut progress);
    endpoint.encode(&vec![success(100, 10)]).unwrap();
    assert_eq!(endpoint.batch_size(), (100, 10));
    progress.retries = 3;
    let end = endpoint.batch_end(
        &Broadcast::Answered(vec![success(50, 5)]),
        &mut progress,
        &mut stats,
        9,
        1,
    );
    assert_eq!((end.num_bytes, end.num_rows), (150, 15));
    assert!(end.error.is_none() && end.report.is_none());
    assert_eq!(progress.retries, 0);

    // A failed batch is reported with what was encoded, and does not count
    // towards the throughput.
    endpoint.batch_start(&mut progress);
    assert_eq!(
        endpoint
            .encode(&vec![success(7, 1), WorkerResult::Failure("x".to_string())])
            .unwrap_err(),
        "1 DynamoDB worker(s) failed: x"
    );
    progress.retries = 2;
    let end = endpoint.batch_end(
        &Broadcast::Answered(vec![WorkerResult::Disconnected]),
        &mut progress,
        &mut stats,
        8,
        minute,
    );
    assert_eq!((end.num_bytes, end.num_rows), (7, 1));
    assert_eq!(
        end.error.as_deref(),
        Some("1 DynamoDB worker(s) failed: worker thread disconnected")
    );
    assert!(end.report.is_none());
    assert_eq!(progress.retries, 2);

    endpoint.batch_start(&mut progress);
    let answers = Broadcast::Answered(vec![success(1, 1)]);
    assert!(endpoint.has_room(&answers, &progress));
    let end = endpoint.batch_end(&answers, &mut progress, &mut stats, 7, minute);
    let report = end.report.unwrap();
    assert_eq!(report.rows, 16);
    assert_eq!(report.bytes, 151);
    assert_eq!(report.retries, 5);
    assert_eq!(report.batches, 2);
    assert_eq!(report.elapsed, minute);

    // One duration per end of a batch, also of the one that failed.
    assert_eq!(stats.flush_durations_us, vec![9, 8, 7]);
}

#[test]
fn static_credentials_need_both_parts() {
    let mut config = config(25);
    assert_eq!(config.credential_source(), CredentialSource::DefaultProvider);
    config.aws_access_key_id = Some("id".to_string());
    assert_eq!(config.credential_source(), CredentialSource::DefaultProvider);
    config.aws_secret_access_key = Some("key".to_string());
    assert_eq!(
        config.credential_source(),
        CredentialSource::Static {
            access_key: "id".to_string(),
            secret_key: "key".to_string()
        }
    );
}

/// An endpoint with its workers, and a table in memory that their jobs are written
/// to.
struct TestEndpoint {
    endpoint: DynamoDBOutputEndpoint,
    workers: Vec<DynamoDBWorker>,
    progress: Progress,
    stats: DynamoDBBenchStats,
    key_names: Vec<String>,
    rows: Vec<Item>,
}

impl TestEndpoint {
    fn new(
        config: DynamoDBWriterConfig,
        threads: usize,
        key_names: Vec<String>,
        new_worker: fn(&DynamoDBWriterConfig) -> DynamoDBWorker,
    ) -> Self {
        TestEndpoint {
            workers: (0..threads).map(|_| new_worker(&config)).collect(),
            endpoint: DynamoDBOutputEndpoint::new("test_endpoint", config, Ok(()), true, true, 0)
                .unwrap(),
            progress: Progress::new(),
            stats: DynamoDBBenchStats::default(),
            key_names,
            rows: Vec::new(),
        }
    }

    fn with_buffer(threads: usize, max_buffer_size_bytes: usize) -> Self {
        let mut config = config(25);
        config.max_buffer_size_bytes = max_buffer_size_bytes;
        Self::new(config, threads, names(&["id", "sort"]), worker_with_config)
    }

    fn with_threads(threads: usize) -> Self {
        Self::with_buffer(threads, 1024 * 1024)
    }

    fn store(&mut self, request: WriteRequest) {
        let item = request.put.as_ref().or(request.delete.as_ref()).unwrap();
        let names = &self.key_names;
        self.rows
            .retain(|row| names.iter().any(|name| attr(row, name) != attr(item, name)));
        self.rows.extend(request.put);
    }

    fn write(&mut self, job: WriteJob) {
        self.progress.add_rows(job.requests.len());
        for requests in batch_chunks(job.requests, 25) {
            let mut chunk =
                ChunkRetry::begin("test_endpoint", 10, requests.len(), &mut self.stats);
            for request in requests {
                self.store(request);
            }
            assert!(matches!(
                chunk.write_batch_chunk(Ok(Vec::new()), &mut self.progress, &mut self.stats),
                RetryStep::Done
            ));
        }
    }

    fn batch_start(&mut self) {
        self.endpoint.batch_start(&mut self.progress);
        for worker in &mut self.workers {
            worker.batch_start_inner();
        }
    }

    fn encode(&mut self, mut batch: Vec<KeyUpdate>) {
        let share = batch.len().div_ceil(self.workers.len());
        let mut partitions: Vec<Vec<KeyUpdate>> = (0..self.workers.len())
            .map(|_| batch.drain(..share.min(batch.len())).collect())
            .collect();
        let filled = partitions.iter().map(|p| !p.is_empty()).collect();
        let mut results = Vec::new();
        for (i, place) in partitions_to_dispatch(&filled).into_iter().enumerate() {
            let encoded = self.workers[i].encode_cursor(std::mem::take(&mut partitions[place]));
            for job in encoded.jobs {
                self.write(job);
            }
            let (num_bytes, num_rows) = encoded.outcome.unwrap();
            results.push(WorkerResult::Success {
                num_bytes,
                num_rows,
            });
        }
        self.endpoint.encode(&results).unwrap();
    }

    fn batch_end(&mut self) -> usize {
        let mut results = Vec::new();
        for i in 0..self.workers.len() {
            let (job, num_bytes, num_rows) = self.workers[i].batch_end_inner();
            if let Some(job) = job {
                self.write(job);
            }
            results.push(WorkerResult::Success {
                num_bytes,
                num_rows,
            });
        }
        let end = self.endpoint.batch_end(
            &Broadcast::Answered(results),
            &mut self.progress,
            &mut self.stats,
            1,
            0,
        );
        assert!(end.error.is_none());
        end.num_rows
    }

    fn encode_endpoint_batch(&mut self, batch: Vec<KeyUpdate>) {
        self.batch_start();
        self.encode(batch);
        self.batch_end();
    }

    fn scan_table(&mut self) -> &Vec<Item> {
        self.rows
            .sort_by_key(|row| attr_n(row, "id").parse::<i32>().unwrap());
        &self.rows
    }

    fn records_written(&self) -> u64 {
        self.progress.records_written
    }
}

#[test]
fn dynamodb_insert() {
    let mut endpoint = TestEndpoint::with_threads(3);
    endpoint.encode_endpoint_batch(build_batch(vec![
        (record(1, "a", Some(10), "one"), 1),
        (record(2, "b", Some(20), "two"), 1),
    ]));

    let rows = endpoint.scan_table();
    assert_eq!(rows.len(), 2);
    assert_eq!(attr_n(&rows[0], "id"), "1");
    assert_eq!(attr_s(&rows[0], "s"), "one");
    assert_eq!(attr_n(&rows[1], "id"), "2");
    assert_eq!(attr_s(&rows[1], "s"), "two");
}

#[test]
fn dynamodb_upsert() {
    let mut endpoint = TestEndpoint::with_threads(3);
    endpoint.encode_endpoint_batch(build_batch(vec![(record(2, "b", Some(20), "two"), 1)]));
    endpoint.encode_endpoint_batch(build_batch(vec![
        (record(2, "b", Some(20), "two"), -1),
        (record(2, "b", None, "two-updated"), 1),
    ]));

    let rows = endpoint.scan_table();
    assert_eq!(rows.len(), 1);
    assert_eq!(attr_n(&rows[0], "id"), "2");
    assert_eq!(attr_s(&rows[0], "sort"), "b");
    assert_eq!(attr(&rows[0], "i"), &AttributeValue::Null(true));
    assert_eq!(attr_s(&rows[0], "s"), "two-updated");
}

#[test]
fn dynamodb_delete() {
    let mut endpoint = TestEndpoint::with_threads(3);
    endpoint.encode_endpoint_batch(build_batch(vec![
        (record(1, "a", Some(10), "one"), 1),
        (record(3, "c", Some(30), "three"), 1),
    ]));
    endpoint.encode_endpoint_batch(build_batch(vec![(record(1, "a", Some(10), "one"), -1)]));

    let rows = endpoint.scan_table();
    assert_eq!(rows.len(), 1);
    assert_eq!(attr_n(&rows[0], "id"), "3");
    assert_eq!(attr_s(&rows[0], "sort"), "c");
    assert_eq!(attr_s(&rows[0], "s"), "three");
}

#[test]
fn dynamodb_all_supported_sql_types_round_trip() {
    let mut endpoint =
        TestEndpoint::new(config(25), 2, names(&["id"]), |_| all_types_worker());
    endpoint.encode_endpoint_batch(build_all_types_batch());

    let rows = endpoint.scan_table();
    assert_eq!(rows.len(), 1);
    assert_eq!(rows[0], all_types_item());
}

#[test]
fn dynamodb_empty_batch() {
    let mut endpoint = TestEndpoint::with_threads(1);
    endpoint.encode_endpoint_batch(build_batch(vec![]));
    assert_eq!(endpoint.scan_table().len(), 0);
}

#[test]
fn dynamodb_multiple_batches() {
    let mut endpoint = TestEndpoint::with_threads(3);

    // Batch 1: insert two records.
    endpoint.encode_endpoint_batch(build_batch(vec![
        (record(1, "a", Some(10), "one"), 1),
        (record(2, "b", Some(20), "two"), 1),
    ]));
    assert_eq!(endpoint.scan_table().len(), 2);

    // Batch 2: upsert record 1.
    endpoint.encode_endpoint_batch(build_batch(vec![
        (record(1, "a", Some(10), "one"), -1),
        (record(1, "a", Some(99), "one-updated"), 1),
    ]));
    let rows = endpoint.scan_table();
    assert_eq!(rows.len(), 2);
    assert_eq!(attr_n(&rows[0], "i"), "99");
    assert_eq!(attr_s(&rows[0], "s"), "one-updated");

    // Batch 3: delete record 2.
    endpoint.encode_endpoint_batch(build_batch(vec![(record(2, "b", Some(20), "two"), -1)]));
    let rows = endpoint.scan_table();
    assert_eq!(rows.len(), 1);
    assert_eq!(attr_n(&rows[0], "id"), "1");
}

fn insert_all(ids: std::ops::Range<i32>) -> Vec<KeyUpdate> {
    build_batch(
        ids.map(|i| (record(i, "x", Some(i as i64), "r"), 1))
            .collect(),
    )
}

// Progress counter: starts at zero, and resets to zero after every batch.
fn progress_basic(threads: usize) {
    let mut endpoint = TestEndpoint::with_threads(threads);
    assert_eq!(endpoint.records_written(), 0);
    endpoint.batch_start();
    assert_eq!(endpoint.records_written(), 0);
    endpoint.encode(insert_all(0..100));
    assert_eq!(endpoint.batch_end(), 100);
    assert_eq!(endpoint.records_written(), 0);
    assert_eq!(endpoint.scan_table().len(), 100);
}

#[test]
fn dynamodb_progress_counter_single_thread() {
    progress_basic(1);
}

#[test]
fn dynamodb_progress_counter_multi_thread() {
    progress_basic(3);
}

// Progress counter: an empty batch leaves the counter at zero throughout.
#[test]
fn dynamodb_progress_counter_empty_batch() {
    let mut endpoint = TestEndpoint::with_threads(1);
    endpoint.batch_start();
    endpoint.encode(build_batch(vec![]));
    assert_eq!(endpoint.records_written(), 0);
    endpoint.batch_end();
    assert_eq!(endpoint.records_written(), 0);
}

// Progress counter: advances during encode when mid-batch flushes occur.
fn progress_advances_mid_batch(threads: usize) {
    // A buffer of one byte is flushed after every single encoded record.
    let mut endpoint = TestEndpoint::with_buffer(threads, 1);
    let num_records = 50usize;
    endpoint.batch_start();
    endpoint.encode(insert_all(0..num_records as i32));

    let mid_count = endpoint.records_written();
    assert!(
        mid_count > 0,
        "expected records_written > 0 mid-batch, got {mid_count}"
    );
    assert!(
        mid_count <= num_records as u64,
        "records_written {mid_count} exceeds total {num_records}"
    );

    endpoint.batch_end();
    assert_eq!(endpoint.records_written(), 0);
    assert_eq!(endpoint.scan_table().len(), num_records);
}

#[test]
fn dynamodb_progress_counter_advances_mid_batch_single_thread() {
    progress_advances_mid_batch(1);
}

#[test]
fn dynamodb_progress_counter_advances_mid_batch_multi_thread() {
    progress_advances_mid_batch(3);
}

// Progress counter: batch_start resets a stale counter from a prior batch.
#[test]
fn dynamodb_progress_counter_batch_start_resets() {
    let mut endpoint = TestEndpoint::with_threads(1);
    endpoint.progress.records_written = 99;
    endpoint.batch_start();
    assert_eq!(endpoint.records_written(), 0);
    endpoint.batch_end();
}

// Progress counter: resets to zero between successive batches.
#[test]
fn dynamodb_progress_counter_multiple_batches() {
    let mut endpoint = TestEndpoint::with_threads(1);
    endpoint.encode_endpoint_batch(insert_all(0..50));
    assert_eq!(endpoint.records_written(), 0);
    endpoint.encode_endpoint_batch(insert_all(50..80));
    assert_eq!(endpoint.records_written(), 0);
    assert_eq!(endpoint.scan_table().len(), 80);
}
