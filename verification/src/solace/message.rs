//! Classification of received messages and the metadata taken from them.

use vstd::prelude::*;
use vstd::string::*;

use crate::solace::config::SolaceInputConfig;
use crate::solace::dedup::CacheModel;
use crate::solace::dedup::RgmidCache;
use crate::solace::topic::parse_topic_fields;
use crate::solace::topic::topic_captures;
use crate::text::same_text;

verus! {

/// A message as it was received from the queue. Each reading that can fail holds
/// the text of the error.
#[derive(Debug)]
pub struct InboundMessage {
    /// The handle that acknowledging or settling the message takes.
    pub msg_id: Result<Option<u64>, String>,
    /// The replication-group message ID, where it could be read.
    pub rgmid: Option<String>,
    pub payload: Result<Option<Vec<u8>>, String>,
    /// The destination topic, where it could be read.
    pub destination: Option<String>,
    /// When the broker enqueued the message, in milliseconds since the Unix
    /// epoch.
    pub receive_ms: Option<u128>,
}

/// Outcome of classifying a received message; the caller acts on the flow.
#[derive(Debug, Clone, Copy, PartialEq, Eq, Structural)]
pub enum MsgDisposition {
    /// Parsed and pushed to the input queue; the acknowledgment is deferred to
    /// step completion.
    Queued,
    /// Nothing to ingest (duplicate or empty); acknowledge now to release the
    /// window.
    AckNow(u64),
    /// Unparseable payload; reject to the dead-message queue.
    SettleRejected(u64),
    /// No usable message ID; leave the message for broker redelivery.
    Skip,
}

/// What is to be done with a message before its payload is parsed.
#[derive(Debug)]
pub enum Screening {
    /// The message is done with. An error, where there is one, is reported under
    /// the given tag, and does not stop the endpoint.
    Done { disposition: MsgDisposition, report: Option<(String, &'static str)> },
    /// The payload of the message with this ID is to be parsed.
    Parse(u64),
}

impl InboundMessage {
    /// The message has an ID to acknowledge it by.
    pub open spec fn has_id(&self) -> bool {
        self.msg_id matches Ok(Some(_))
    }

    /// The message repeats one that the cache remembers.
    pub open spec fn repeats(&self, cache: CacheModel) -> bool {
        self.rgmid matches Some(rgmid) && !cache.is_new(rgmid@)
    }

    /// The cache once the message has been screened. A message without an ID is
    /// not looked at any further.
    pub open spec fn cache_after(&self, cache: CacheModel) -> CacheModel {
        if self.has_id() && self.rgmid is Some {
            cache.after(self.rgmid->0@)
        } else {
            cache
        }
    }

    /// What is to be done with the message.
    pub open spec fn screened(&self, cache: CacheModel, screening: Screening) -> bool {
        match self.msg_id {
            Err(e) => screening matches Screening::Done {
                disposition: MsgDisposition::Skip,
                report: Some(r),
            } && r.0@ == e@ && r.1@ == "solace-msg-id"@,
            Ok(None) => screening matches Screening::Done {
                disposition: MsgDisposition::Skip,
                report: None,
            },
            Ok(Some(id)) => if self.repeats(cache) {
                screening matches Screening::Done {
                    disposition: MsgDisposition::AckNow(acked),
                    report: None,
                } && acked == id
            } else {
                match self.payload {
                    Ok(Some(_)) => screening == Screening::Parse(id),
                    Ok(None) => screening matches Screening::Done {
                        disposition: MsgDisposition::AckNow(acked),
                        report: None,
                    } && acked == id,
                    Err(e) => screening matches Screening::Done {
                        disposition: MsgDisposition::AckNow(acked),
                        report: Some(r),
                    } && acked == id && r.0@ == e@ && r.1@ == "solace-payload"@,
                }
            },
        }
    }
}

/// Screens a received message before its payload is parsed.
///
/// A redelivery of data already ingested this session is acknowledged, as is a
/// message without a payload: left alone, either would stay in the broker window
/// forever.
pub fn process_message(msg: &InboundMessage, rgmids: &mut RgmidCache) -> (screening: Screening)
    requires
        old(rgmids).wf(),
    ensures
        final(rgmids).wf(),
        final(rgmids)@ == msg.cache_after(old(rgmids)@),
        msg.screened(old(rgmids)@, screening),
{
    let id: u64 = match &msg.msg_id {
        Ok(Some(id)) => *id,
        Ok(None) => {
            return Screening::Done { disposition: MsgDisposition::Skip, report: None };
        },
        Err(e) => {
            return Screening::Done {
                disposition: MsgDisposition::Skip,
                report: Some((e.clone(), "solace-msg-id")),
            };
        },
    };
    if let Some(rgmid) = &msg.rgmid {
        if !rgmids.insert(rgmid.as_str()) {
            return Screening::Done { disposition: MsgDisposition::AckNow(id), report: None };
        }
    }
    match &msg.payload {
        Ok(Some(_)) => Screening::Parse(id),
        Ok(None) => Screening::Done { disposition: MsgDisposition::AckNow(id), report: None },
        Err(e) => Screening::Done {
            disposition: MsgDisposition::AckNow(id),
            report: Some((e.clone(), "solace-payload")),
        },
    }
}

/// What becomes of a parsed message: with `reject_parse_errors` a payload that
/// gave errors and no records is rejected; anything else is queued.
pub fn dispose_parsed(
    msg_id: u64,
    has_records: bool,
    errors: usize,
    reject_parse_errors: bool,
) -> (disposition: MsgDisposition)
    ensures
        disposition == if errors > 0 && !has_records && reject_parse_errors {
            MsgDisposition::SettleRejected(msg_id)
        } else {
            MsgDisposition::Queued
        },
{
    if errors > 0 && !has_records && reject_parse_errors {
        MsgDisposition::SettleRejected(msg_id)
    } else {
        MsgDisposition::Queued
    }
}

/// The value of a metadata field.
#[derive(Debug)]
pub enum MetadataValue {
    Text(String),
    /// Milliseconds since the Unix epoch.
    Timestamp(i64),
}

/// The value of a metadata field, as plain data.
pub enum FieldValue {
    Text(Seq<char>),
    Timestamp(i64),
}

impl View for MetadataValue {
    type V = FieldValue;

    open spec fn view(&self) -> FieldValue {
        match *self {
            MetadataValue::Text(s) => FieldValue::Text(s@),
            MetadataValue::Timestamp(ms) => FieldValue::Timestamp(ms),
        }
    }
}

/// Metadata fields of one message. A field that is inserted under a name already
/// in use takes the place of the earlier one.
#[derive(Debug)]
pub struct ConnectorMetadata {
    fields: Vec<(String, MetadataValue)>,
}

/// What the fields, inserted one after the other, hold.
pub open spec fn field_map(fields: Seq<(Seq<char>, FieldValue)>) -> Map<Seq<char>, FieldValue>
    decreases fields.len(),
{
    if fields.len() == 0 {
        Map::empty()
    } else {
        field_map(fields.drop_last()).insert(fields.last().0, fields.last().1)
    }
}

impl ConnectorMetadata {
    /// The fields in the order in which they were inserted.
    pub closed spec fn inserted(&self) -> Seq<(Seq<char>, FieldValue)> {
        Seq::new(self.fields@.len(), |i: int| (self.fields@[i].0@, self.fields@[i].1@))
    }

    /// What is stored under each name.
    pub open spec fn map(&self) -> Map<Seq<char>, FieldValue> {
        field_map(self.inserted())
    }

    pub fn new() -> (metadata: Self)
        ensures
            metadata.inserted() == Seq::<(Seq<char>, FieldValue)>::empty(),
    {
        let metadata = ConnectorMetadata { fields: Vec::new() };
        assert(metadata.inserted() == Seq::<(Seq<char>, FieldValue)>::empty());
        metadata
    }

    /// Stores `value` under `name`.
    pub fn insert(&mut self, name: &str, value: MetadataValue)
        ensures
            final(self).inserted() == old(self).inserted().push((name@, value@)),
            final(self).map() == old(self).map().insert(name@, value@),
    {
        self.fields.push((name.to_owned(), value));
        assert(self.inserted() == old(self).inserted().push((name@, value@)));
        assert(self.inserted().drop_last() == old(self).inserted());
    }

    /// What is stored under `name`.
    pub fn get(&self, name: &str) -> (value: Option<&MetadataValue>)
        ensures
            match value {
                Some(v) => self.map().contains_key(name@) && self.map()[name@] == v@,
                None => !self.map().contains_key(name@),
            },
    {
        let mut i: usize = self.fields.len();
        assert(self.inserted().take(i as int) == self.inserted());
        while i > 0
            invariant
                i <= self.fields.len(),
                self.inserted().len() == self.fields.len(),
                self.map().contains_key(name@) == field_map(
                    self.inserted().take(i as int),
                ).contains_key(name@),
                self.map().contains_key(name@) ==> self.map()[name@] == field_map(
                    self.inserted().take(i as int),
                )[name@],
            decreases i,
        {
            i -= 1;
            let ghost upto = self.inserted().take(i + 1);
            assert(upto.drop_last() == self.inserted().take(i as int));
            assert(upto.last() == (self.fields@[i as int].0@, self.fields@[i as int].1@));
            if same_text(self.fields[i].0.as_str(), name) {
                return Some(&self.fields[i].1);
            }
        }
        None
    }

    /// The fields in the order in which they were inserted.
    pub fn fields(&self) -> (fields: &Vec<(String, MetadataValue)>)
        ensures
            fields@.len() == self.inserted().len(),
            forall|i: int|
                0 <= i < fields@.len() ==> self.inserted()[i] == (
                    (#[trigger] fields@[i]).0@,
                    fields@[i].1@,
                ),
    {
        &self.fields
    }
}

/// The fields for the captures of a topic.
pub open spec fn capture_fields(captures: Seq<(Seq<char>, Seq<char>)>) -> Seq<
    (Seq<char>, FieldValue),
> {
    captures.map_values(|c: (Seq<char>, Seq<char>)| (c.0, FieldValue::Text(c.1)))
}

/// The fields that are taken from a message to `topic`: the topic itself and the
/// receive time where they are asked for, then the captures of the topic pattern.
pub open spec fn metadata_fields(
    topic: Seq<char>,
    receive_ms: Option<u128>,
    config: SolaceInputConfig,
) -> Seq<(Seq<char>, FieldValue)> {
    (if config.include_topic {
        seq![("solace_topic"@, FieldValue::Text(topic))]
    } else {
        seq![]
    }) + (match receive_ms {
        Some(ms) if config.include_broker_timestamp && ms <= i64::MAX => seq![
            ("broker_ts"@, FieldValue::Timestamp(ms as i64)),
        ],
        _ => seq![],
    }) + (match config.topic_pattern {
        Some(pattern) => capture_fields(topic_captures(pattern@, topic)),
        None => seq![],
    })
}

/// Builds the metadata of a message from its destination topic and its receive
/// time.
///
/// There is none when no field is asked for, nor for a message without a
/// destination.
pub fn build_metadata(msg: &InboundMessage, config: &SolaceInputConfig) -> (metadata: Option<
    ConnectorMetadata,
>)
    ensures
        match metadata {
            Some(m) => config.wants_metadata() && msg.destination is Some && m.inserted()
                == metadata_fields(msg.destination->0@, msg.receive_ms, *config),
            None => !config.wants_metadata() || msg.destination is None,
        },
{
    if !config.metadata_requested() {
        return None;
    }
    let topic = match &msg.destination {
        Some(topic) => topic,
        None => {
            return None;
        },
    };
    let mut meta = ConnectorMetadata::new();
    if config.include_topic {
        meta.insert("solace_topic", MetadataValue::Text(topic.clone()));
    }
    if config.include_broker_timestamp {
        if let Some(ms) = msg.receive_ms {
            if ms <= i64::MAX as u128 {
                meta.insert("broker_ts", MetadataValue::Timestamp(ms as i64));
            }
        }
    }
    let ghost head = meta.inserted();
    if let Some(pattern) = &config.topic_pattern {
        let captures = parse_topic_fields(pattern.as_str(), topic.as_str());
        let ghost wanted = topic_captures(pattern@, topic@);
        assert(wanted.len() == captures@.len());
        let mut i: usize = 0;
        assert(capture_fields(wanted.take(0)) == Seq::<(Seq<char>, FieldValue)>::empty());
        while i < captures.len()
            invariant
                i <= captures.len(),
                wanted == crate::solace::topic::text_pairs(captures@),
                meta.inserted() == head + capture_fields(wanted.take(i as int)),
            decreases captures.len() - i,
        {
            meta.insert(captures[i].0.as_str(), MetadataValue::Text(captures[i].1.clone()));
            assert(wanted[i as int] == (captures@[i as int].0@, captures@[i as int].1@));
            assert(capture_fields(wanted.take(i + 1)) == capture_fields(
                wanted.take(i as int),
            ).push((wanted[i as int].0, FieldValue::Text(wanted[i as int].1))));
            i += 1;
        }
        assert(wanted.take(i as int) == wanted);
    }
    assert(meta.inserted() == metadata_fields(topic@, msg.receive_ms, *config));
    Some(meta)
}

/// A message that is acknowledged right away repeats one already recorded, carries
/// no payload, or has a payload that could not be read.
pub proof fn only_spent_messages_are_acknowledged_early(
    msg: InboundMessage,
    cache: CacheModel,
    screening: Screening,
)
    requires
        msg.screened(cache, screening),
        screening matches Screening::Done { disposition: MsgDisposition::AckNow(_), .. },
    ensures
        msg.repeats(cache) || !(msg.payload matches Ok(Some(_))),
{
}

/// A redelivery of a message whose replication-group message ID was just recorded
/// is acknowledged and not parsed again, unless deduplication is off.
pub proof fn redeliveries_are_not_ingested_again(
    first: InboundMessage,
    again: InboundMessage,
    cache: CacheModel,
    screening: Screening,
)
    requires
        cache.wf(),
        cache.cap > 0,
        first.has_id(),
        again.has_id(),
        first.rgmid is Some && again.rgmid is Some,
        first.rgmid->0@ == again.rgmid->0@,
        again.screened(first.cache_after(cache), screening),
    ensures
        screening matches Screening::Done {
            disposition: MsgDisposition::AckNow(id),
            report: None,
        } && Ok::<Option<u64>, String>(Some(id)) == again.msg_id,
{
    crate::solace::dedup::redelivery_is_recognized(cache, first.rgmid->0@);
}

/// What is done with a message before it is parsed depends on three things alone. A
/// message without a usable ID is skipped, and only an ID that could not be read is
/// reported. A message with an ID is parsed exactly if it does not repeat one that is
/// remembered and has a payload; otherwise it is acknowledged at once, under its own ID,
/// and only a payload that could not be read is reported.
pub proof fn messages_are_screened_by_id_repetition_and_payload(
    msg: InboundMessage,
    cache: CacheModel,
    screening: Screening,
)
    requires
        msg.screened(cache, screening),
    ensures
        ({
            let repeated = msg.rgmid is Some && !cache.is_new(msg.rgmid->0@);
            let spent = repeated || !(msg.payload matches Ok(Some(_)));
            &&& screening matches Screening::Parse(id) ==> msg.msg_id == Ok::<Option<u64>, String>(
                Some(id),
            ) && !spent
            &&& screening matches Screening::Done { disposition, report } ==> match disposition {
                MsgDisposition::Skip => {
                    &&& !(msg.msg_id matches Ok(Some(_)))
                    &&& report is Some <==> msg.msg_id is Err
                    &&& report matches Some(r) ==> r.0@ == msg.msg_id->Err_0@ && r.1@
                        == "solace-msg-id"@
                },
                MsgDisposition::AckNow(id) => {
                    &&& msg.msg_id == Ok::<Option<u64>, String>(Some(id))
                    &&& spent
                    &&& report is Some <==> !repeated && msg.payload is Err
                    &&& report matches Some(r) ==> r.0@ == msg.payload->Err_0@ && r.1@
                        == "solace-payload"@
                },
                MsgDisposition::Queued | MsgDisposition::SettleRejected(_) => false,
            }
        }),
{
}

/// A message is remembered by its replication-group message ID exactly if it has that and
/// an ID to acknowledge it by, whatever its payload.
pub proof fn messages_with_both_ids_are_remembered(msg: InboundMessage, cache: CacheModel)
    ensures
        msg.msg_id matches Ok(Some(_)) && msg.rgmid is Some ==> msg.cache_after(cache)
            == cache.after(msg.rgmid->0@),
        !(msg.msg_id matches Ok(Some(_))) || msg.rgmid is None ==> msg.cache_after(cache) == cache,
{
}

/// Under each name, the field that was inserted last is stored, and under any other name
/// nothing is.
pub proof fn later_fields_replace_earlier_ones(
    fields: Seq<(Seq<char>, FieldValue)>,
    name: Seq<char>,
)
    ensures
        field_map(fields).contains_key(name) ==> exists|i: int|
            0 <= i < fields.len() && (#[trigger] fields[i]).0 == name && field_map(fields)[name]
                == fields[i].1 && forall|j: int|
                i < j < fields.len() ==> (#[trigger] fields[j]).0 != name,
        forall|i: int|
            0 <= i < fields.len() && (#[trigger] fields[i]).0 == name ==> field_map(
                fields,
            ).contains_key(name),
    decreases fields.len(),
{
    if fields.len() > 0 {
        let before = fields.drop_last();
        let n = fields.len() - 1;
        later_fields_replace_earlier_ones(before, name);
        if fields[n].0 != name {
            if field_map(fields).contains_key(name) {
                let i = choose|i: int|
                    0 <= i < before.len() && (#[trigger] before[i]).0 == name && field_map(
                        before,
                    )[name] == before[i].1 && forall|j: int|
                        i < j < before.len() ==> (#[trigger] before[j]).0 != name;
                assert(fields[i] == before[i]);
                assert forall|j: int| i < j < fields.len() implies (#[trigger] fields[j]).0
                    != name by {
                    if j < n {
                        assert(before[j] == fields[j]);
                    }
                }
            }
            assert forall|i: int|
                0 <= i < fields.len() && (#[trigger] fields[i]).0 == name implies field_map(
                fields,
            ).contains_key(name) by {
                assert(before[i] == fields[i]);
            }
        }
    }
}

/// The metadata of a message holds what is asked for and nothing else: the full topic as
/// `solace_topic`, then the receive time as `broker_ts` where there is one that fits, then
/// each capture of the topic pattern under its own name.
pub proof fn metadata_holds_what_is_asked_for(
    topic: Seq<char>,
    receive_ms: Option<u128>,
    config: SolaceInputConfig,
)
    ensures
        ({
            let fields = metadata_fields(topic, receive_ms, config);
            let timed = config.include_broker_timestamp && receive_ms is Some && receive_ms->0
                <= i64::MAX;
            let topics: int = if config.include_topic {
                1
            } else {
                0
            };
            let times: int = if timed {
                1
            } else {
                0
            };
            &&& config.include_topic ==> fields[0] == ("solace_topic"@, FieldValue::Text(topic))
            &&& timed ==> {
                &&& fields[topics].0 == "broker_ts"@
                &&& fields[topics].1 matches FieldValue::Timestamp(ms)
                &&& ms == receive_ms->0
            }
            &&& config.topic_pattern is None ==> fields.len() == topics + times
            &&& config.topic_pattern matches Some(pattern) ==> {
                let captures = topic_captures(pattern@, topic);
                &&& fields.len() == topics + times + captures.len()
                &&& forall|k: int|
                    0 <= k < captures.len() ==> #[trigger] fields[topics + times + k] == (
                        captures[k].0,
                        FieldValue::Text(captures[k].1),
                    )
            }
        }),
{
    if let Some(pattern) = config.topic_pattern {
        let captures = topic_captures(pattern@, topic);
        assert(capture_fields(captures).len() == captures.len());
    }
}

/// A metadata value stands for its text, or for its time.
pub proof fn metadata_values_stand_for_what_they_hold(value: MetadataValue)
    ensures
        value matches MetadataValue::Text(s) ==> value@ == FieldValue::Text(s@),
        value matches MetadataValue::Timestamp(ms) ==> value@ == FieldValue::Timestamp(ms),
{
}

} // verus!
