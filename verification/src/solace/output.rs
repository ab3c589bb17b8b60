//! The output endpoint: routing, throttling, and the window of broker
//! acknowledgments.

use vstd::prelude::*;
use vstd::string::*;

use crate::clock::add_seconds;
use crate::clock::elapsed;
use crate::clock::seconds_after;
use crate::clock::time_since;
use crate::clock::Nanos;
use crate::clock::SECOND;
use crate::solace::config::OutputDeliveryMode;
use crate::solace::config::SolaceOutputConfig;
use crate::solace::routing::json_document;
use crate::solace::routing::resolve_topic;
use crate::solace::routing::resolved;
use crate::solace::throttle::publishes_at;
use crate::solace::throttle::records_wait_exactly_within_the_window;
use crate::solace::topic_map::topics_of;
use crate::solace::window::in_order;
use crate::solace::window::payload_map;
use crate::solace::window::publications_lie_a_window_apart;
use crate::solace::window::record_topics;
use crate::solace::window::DedupState;
use crate::solace::window::WindowEvent;
use crate::solace::window::WindowModel;
use crate::text::contains_char;
use crate::text::decimal;
use crate::text::decimal_text;

verus! {

/// The text `prefix` with `detail` behind it.
fn with_detail(prefix: &str, detail: &str) -> (message: String)
    ensures
        message@ == prefix@ + detail@,
{
    let mut message = prefix.to_owned();
    message.append(detail);
    message
}

/// A topic that no broker destination can be made of: the SDK takes texts that
/// end at the first NUL.
pub open spec fn bad_destination(topic: Seq<char>) -> bool {
    topic.contains('\0')
}

/// What is reported for a topic that no destination can be made of.
pub open spec fn destination_error(topic: Seq<char>) -> Seq<char> {
    "invalid topic '"@ + topic + "': FieldConvertionError(\"dest_type\")"@
}

/// Checks that a broker destination can be made of `topic`.
pub fn check_destination(topic: &str) -> (outcome: Result<(), String>)
    ensures
        match outcome {
            Ok(_) => !bad_destination(topic@),
            Err(message) => bad_destination(topic@) && message@ == destination_error(topic@),
        },
        outcome is Ok <==> forall|i: int| 0 <= i < topic@.len() ==> #[trigger] topic@[i] != '\0',
        outcome matches Err(message) ==> message@ == "invalid topic '"@ + topic@
            + "': FieldConvertionError(\"dest_type\")"@,
{
    if contains_char(topic, '\0') {
        let mut message = with_detail("invalid topic '", topic);
        message.append("': FieldConvertionError(\"dest_type\")");
        Err(message)
    } else {
        Ok(())
    }
}

/// How the wait for one broker acknowledgment ended.
#[derive(Debug)]
pub enum AckOutcome {
    Acked,
    /// The broker rejected the message, with this error.
    Rejected(String),
    /// The channel closed without an acknowledgment.
    Closed,
    /// The time ran out.
    TimedOut,
}

/// A drain of acknowledgments in flight. One deadline bounds the wait for all of
/// them.
#[derive(Debug, Clone, Copy, PartialEq, Eq, Structural)]
pub struct AckDrain {
    /// How many acknowledgments are drained.
    pub total: usize,
    pub deadline: Nanos,
}

impl AckDrain {
    /// How long the next acknowledgment may be waited for at `now`: what is left
    /// until the deadline.
    pub fn remaining(&self, now: Nanos) -> (left: Nanos)
        ensures
            left == if now < self.deadline {
                (self.deadline - now) as u128
            } else {
                0
            },
    {
        time_since(now, self.deadline)
    }
}

/// What is reported when the wait for acknowledgment `i` of `total` ended so.
pub open spec fn ack_problem(outcome: AckOutcome, i: int, total: int, timeout_secs: u64) -> Option<
    Seq<char>,
> {
    match outcome {
        AckOutcome::Acked => None,
        AckOutcome::Rejected(e) => Some("broker rejected persistent publish: "@ + e@),
        AckOutcome::Closed => Some("Solace ack channel closed before broker acknowledgment"@),
        AckOutcome::TimedOut => Some(
            "broker did not acknowledge "@ + decimal((total - i) as nat) + " of "@ + decimal(
                total as nat,
            ) + " in-flight persistent publish(es) within "@ + decimal(timeout_secs as nat) + "s"@,
        ),
    }
}

/// What is reported for a series of outcomes: the first problem from `i` on.
pub open spec fn first_ack_problem(
    outcomes: Seq<AckOutcome>,
    i: int,
    total: int,
    timeout_secs: u64,
) -> Option<Seq<char>>
    decreases outcomes.len() - i,
{
    if i < 0 || i >= outcomes.len() {
        None
    } else if ack_problem(outcomes[i], i, total, timeout_secs) is Some {
        ack_problem(outcomes[i], i, total, timeout_secs)
    } else {
        first_ack_problem(outcomes, i + 1, total, timeout_secs)
    }
}

/// What the endpoint knows.
pub struct OutputModel {
    pub config: SolaceOutputConfig,
    /// The destination of every record, if the topic has no placeholders.
    pub static_topic: Option<Seq<char>>,
    /// The per-topic throttle, if there is one.
    pub dedup: Option<WindowModel>,
    /// There is a session.
    pub connected: bool,
    /// The controller's error callback is known.
    pub registered: bool,
    /// Persistent publishes that wait for their acknowledgment.
    pub inflight: usize,
}

impl OutputModel {
    /// The number of acknowledgments in flight stays below its limit.
    pub open spec fn wf(self) -> bool {
        &&& self.config.problem() is None
        &&& self.inflight < self.config.max_inflight_acks
        &&& self.config.delivery_mode == OutputDeliveryMode::Direct ==> self.inflight == 0
        &&& self.dedup is Some <==> self.config.dedup_window_ms is Some
    }

    /// The destination of a record whose JSON document is `document`.
    pub open spec fn topic(
        self,
        document: Option<Seq<crate::solace::routing::MemberModel>>,
    ) -> Seq<char> {
        match self.static_topic {
            Some(topic) => topic,
            None => resolved(self.config.topic@, document),
        }
    }

    /// How many acknowledgments are to be drained after a publish: once as many
    /// wait as may be in flight, all of them.
    pub open spec fn drained_by_publish(self) -> nat {
        if self.config.delivery_mode == OutputDeliveryMode::Persistent && self.inflight + 1
            >= self.config.max_inflight_acks {
            self.inflight as nat + 1
        } else {
            0
        }
    }

    /// A drain of `total` acknowledgments that begins at `now`.
    pub open spec fn drain(self, total: nat, now: Nanos) -> AckDrain {
        AckDrain {
            total: total as usize,
            deadline: seconds_after(now, self.config.ack_timeout_secs) as u128,
        }
    }

    /// The endpoint after a publish. Only persistent delivery is acknowledged.
    pub open spec fn published(self) -> OutputModel {
        if self.config.delivery_mode == OutputDeliveryMode::Direct {
            self
        } else if self.drained_by_publish() > 0 {
            OutputModel { inflight: 0, ..self }
        } else {
            OutputModel { inflight: (self.inflight + 1) as usize, ..self }
        }
    }

    /// The endpoint after `n` publishes.
    pub open spec fn published_all(self, n: nat) -> OutputModel
        decreases n,
    {
        if n == 0 {
            self
        } else {
            self.published_all((n - 1) as nat).published()
        }
    }

    /// How many acknowledgments are to be drained in the course of `n` publishes.
    pub open spec fn drained_by_all(self, n: nat) -> nat
        decreases n,
    {
        if n == 0 {
            0
        } else {
            self.drained_by_all((n - 1) as nat) + self.published_all(
                (n - 1) as nat,
            ).drained_by_publish()
        }
    }

    /// A record for `topic` is held back by the throttle.
    pub open spec fn holds(self, topic: Seq<char>, now: Nanos) -> bool {
        self.dedup matches Some(window) && window.inside(topic, now)
    }
}

/// The output connector, but for the session itself: it publishes serialized view
/// records to a Solace topic.
pub struct SolaceOutputEndpoint {
    config: SolaceOutputConfig,
    static_topic: Option<String>,
    dedup: Option<DedupState>,
    connected: bool,
    registered: bool,
    inflight: usize,
}

impl View for SolaceOutputEndpoint {
    type V = OutputModel;

    closed spec fn view(&self) -> OutputModel {
        OutputModel {
            config: self.config,
            static_topic: match self.static_topic {
                Some(topic) => Some(topic@),
                None => None,
            },
            dedup: match self.dedup {
                Some(state) => Some(state@),
                None => None,
            },
            connected: self.connected,
            registered: self.registered,
            inflight: self.inflight,
        }
    }
}

/// The length of a window of `ms` milliseconds.
pub open spec fn window_nanos(ms: u64) -> Nanos {
    (ms * 1_000_000) as u128
}

impl SolaceOutputEndpoint {
    pub closed spec fn wf(&self) -> bool {
        &&& self@.wf()
        &&& self.dedup matches Some(state) ==> state.wf()
    }

    /// What is known of a well-formed endpoint is well formed.
    pub proof fn model_is_well_formed(&self)
        requires
            self.wf(),
        ensures
            self@.wf(),
    {
    }

    /// Makes an endpoint of a valid configuration. A static topic is the same for
    /// every record, so it is checked here rather than for each publish.
    pub fn new(config: SolaceOutputConfig, now: Nanos) -> (endpoint: Result<Self, String>)
        ensures
            match endpoint {
                Ok(e) => {
                    &&& config.problem() is None
                    &&& e.wf()
                    &&& e@.config == config
                    &&& e@.static_topic == if config.topic@.contains('{') {
                        None
                    } else {
                        Some(config.topic@)
                    }
                    &&& !config.topic@.contains('{') ==> !bad_destination(config.topic@)
                    &&& e@.dedup == match config.dedup_window_ms {
                        Some(ms) => Some(WindowModel::initial(window_nanos(ms), now)),
                        None => None,
                    }
                    &&& config.dedup_window_ms matches Some(ms) ==> {
                        &&& e@.dedup matches Some(throttle)
                        &&& throttle.window == ms * 1_000_000
                        &&& throttle.last_sent == Map::<Seq<char>, Nanos>::empty()
                        &&& throttle.pending == Map::<Seq<char>, Seq<u8>>::empty()
                        &&& throttle.conflated == 0
                        &&& throttle.last_log == now
                        &&& throttle.report is None
                    }
                    &&& !e@.connected
                    &&& !e@.registered
                    &&& e@.inflight == 0
                },
                Err(message) => match config.problem() {
                    Some(problem) => message@ == "invalid Solace output config: "@ + problem,
                    None => !config.topic@.contains('{') && bad_destination(config.topic@)
                        && message@ == destination_error(config.topic@),
                },
            },
    {
        if let Err(e) = config.validate() {
            return Err(with_detail("invalid Solace output config: ", e.as_str()));
        }
        let static_topic = if contains_char(config.topic.as_str(), '{') {
            None
        } else {
            if let Err(e) = check_destination(config.topic.as_str()) {
                return Err(e);
            }
            Some(config.topic.clone())
        };
        let dedup = match config.dedup_window_ms {
            Some(ms) => Some(DedupState::new((ms as u128) * 1_000_000, now)),
            None => None,
        };
        Ok(
            SolaceOutputEndpoint {
                config,
                static_topic,
                dedup,
                connected: false,
                registered: false,
                inflight: 0,
            },
        )
    }

    /// The configuration of the endpoint.
    pub fn config(&self) -> (config: &SolaceOutputConfig)
        ensures
            *config == self@.config,
    {
        &self.config
    }

    /// Records that the controller's error callback is known, so that sessions
    /// can be built.
    pub fn register(&mut self)
        requires
            old(self).wf(),
        ensures
            final(self).wf(),
            final(self)@ == (OutputModel { registered: true, ..old(self)@ }),
    {
        self.registered = true;
    }

    /// Whether a session can be built.
    pub fn check_registered(&self) -> (outcome: Result<(), String>)
        ensures
            match outcome {
                Ok(_) => self@.registered,
                Err(message) => !self@.registered && message@ == "output endpoint not connected"@,
            },
    {
        if self.registered {
            Ok(())
        } else {
            Err("output endpoint not connected".to_owned())
        }
    }

    /// Whether the session can be used: there is one, and it has not reported a
    /// failure that the SDK could not mend.
    pub fn is_healthy(&self, poisoned: bool) -> (healthy: bool)
        ensures
            healthy == (self@.connected && !poisoned),
    {
        self.connected && !poisoned
    }

    /// Gives up the session and the acknowledgments that wait on it, which can
    /// never arrive: how many there are.
    pub fn begin_rebuild(&mut self) -> (lost: usize)
        requires
            old(self).wf(),
        ensures
            final(self).wf(),
            lost == old(self)@.inflight,
            final(self)@ == (OutputModel { connected: false, inflight: 0, ..old(self)@ }),
    {
        let lost: usize = self.inflight;
        self.connected = false;
        self.inflight = 0;
        lost
    }

    /// Records that a session was built, or why not.
    ///
    /// A rebuild that lost acknowledgments fails the current batch even when the
    /// new session is up; the next batch proceeds on it.
    pub fn finish_rebuild(&mut self, lost: usize, built: Result<(), String>) -> (outcome: Result<
        (),
        String,
    >)
        requires
            old(self).wf(),
        ensures
            final(self).wf(),
            final(self)@ == (OutputModel {
                connected: if built is Ok {
                    true
                } else {
                    old(self)@.connected
                },
                ..old(self)@
            }),
            match outcome {
                Ok(_) => built is Ok && lost == 0,
                Err(message) => match built {
                    Ok(_) => lost > 0 && message@ == "Solace session was rebuilt with "@ + decimal(
                        lost as nat,
                    )
                        + " unacknowledged persistent publish(es); their delivery is unconfirmed"@,
                    Err(e) => message@ == e@,
                },
            },
    {
        match built {
            Ok(_) => {
                self.connected = true;
            },
            Err(e) => {
                return Err(e);
            },
        }
        if lost > 0 {
            let mut message = "Solace session was rebuilt with ".to_owned();
            message.append(decimal_text(lost as u64).as_str());
            message.append(
                " unacknowledged persistent publish(es); their delivery is unconfirmed",
            );
            return Err(message);
        }
        Ok(())
    }

    /// The destination of a record. Static topics need no look at the record;
    /// otherwise the placeholders are substituted from it.
    pub fn topic_for(&self, payload: &[u8]) -> (topic: String)
        ensures
            topic@ == self@.topic(json_document(payload@)),
    {
        match &self.static_topic {
            Some(topic) => topic.clone(),
            None => resolve_topic(self.config.topic.as_str(), payload),
        }
    }

    /// Decides whether a record for `topic` is published now. Inside the throttle
    /// window it is kept back, and published at a batch boundary once the window
    /// has expired.
    pub fn should_publish(&mut self, topic: &str, payload: &[u8], now: Nanos) -> (send: bool)
        requires
            old(self).wf(),
            old(self)@.dedup matches Some(window) ==> window.conflated < u64::MAX,
        ensures
            final(self).wf(),
            send == !old(self)@.holds(topic@, now),
            final(self)@ == (OutputModel {
                dedup: match old(self)@.dedup {
                    Some(window) => Some(window.offered(topic@, payload@, now)),
                    None => None,
                },
                ..old(self)@
            }),
    {
        match self.dedup.take() {
            Some(mut state) => {
                let send = state.should_send(topic, payload, now);
                self.dedup = Some(state);
                send
            },
            None => true,
        }
    }

    /// How many records the throttle has conflated since its last report.
    pub fn conflated(&self) -> (n: u64)
        ensures
            n == match self@.dedup {
                Some(window) => window.conflated,
                None => 0,
            },
    {
        match &self.dedup {
            Some(state) => state.conflated(),
            None => 0,
        }
    }

    /// Takes the report of conflated records that is due, if there is one.
    pub fn take_report(&mut self) -> (report: Option<(u64, Nanos)>)
        requires
            old(self).wf(),
        ensures
            final(self).wf(),
            report == match old(self)@.dedup {
                Some(window) => window.report,
                None => None,
            },
            final(self)@ == (OutputModel {
                dedup: match old(self)@.dedup {
                    Some(window) => Some(WindowModel { report: None, ..window }),
                    None => None,
                },
                ..old(self)@
            }),
    {
        match self.dedup.take() {
            Some(mut state) => {
                let report = state.take_report();
                self.dedup = Some(state);
                report
            },
            None => None,
        }
    }

    /// Takes the conflated records whose window has expired, to be published now.
    pub fn take_expired(&mut self, now: Nanos) -> (ready: Vec<(String, Vec<u8>)>)
        requires
            old(self).wf(),
        ensures
            final(self).wf(),
            topics_of(ready@).no_duplicates(),
            match old(self)@.dedup {
                Some(window) => payload_map(ready@) == window.due(now),
                None => ready@.len() == 0,
            },
            final(self)@ == (OutputModel {
                dedup: match old(self)@.dedup {
                    Some(window) => Some(window.flushed(now)),
                    None => None,
                },
                ..old(self)@
            }),
    {
        match self.dedup.take() {
            Some(mut state) => {
                let ready = state.take_expired(now);
                self.dedup = Some(state);
                ready
            },
            None => Vec::new(),
        }
    }

    /// Records a publish. With persistent delivery its acknowledgment is awaited
    /// later; once as many wait as may be in flight, all of them are to be
    /// drained now.
    pub fn record_publish(&mut self, now: Nanos) -> (drain: Option<AckDrain>)
        requires
            old(self).wf(),
            seconds_after(now, old(self)@.config.ack_timeout_secs) <= Nanos::MAX,
        ensures
            final(self).wf(),
            final(self)@ == old(self)@.published(),
            match drain {
                Some(d) => old(self)@.drained_by_publish() > 0 && d == old(self)@.drain(
                    old(self)@.drained_by_publish(),
                    now,
                ),
                None => old(self)@.drained_by_publish() == 0,
            },
    {
        match self.config.delivery_mode {
            OutputDeliveryMode::Direct => None,
            OutputDeliveryMode::Persistent => {
                let waiting: usize = self.inflight + 1;
                if waiting >= self.config.max_inflight_acks {
                    self.inflight = 0;
                    Some(self.drain_of(waiting, now))
                } else {
                    self.inflight = waiting;
                    None
                }
            },
        }
    }

    fn drain_of(&self, total: usize, now: Nanos) -> (drain: AckDrain)
        requires
            seconds_after(now, self@.config.ack_timeout_secs) <= Nanos::MAX,
        ensures
            drain == self@.drain(total as nat, now),
    {
        AckDrain { total, deadline: add_seconds(now, self.config.ack_timeout_secs) }
    }

    /// Begins to drain the acknowledgments in flight. However the drain ends, none
    /// of them is awaited again.
    pub fn begin_drain(&mut self, now: Nanos) -> (drain: AckDrain)
        requires
            old(self).wf(),
            seconds_after(now, old(self)@.config.ack_timeout_secs) <= Nanos::MAX,
        ensures
            final(self).wf(),
            drain == old(self)@.drain(old(self)@.inflight as nat, now),
            final(self)@ == (OutputModel { inflight: 0, ..old(self)@ }),
    {
        let total: usize = self.inflight;
        self.inflight = 0;
        self.drain_of(total, now)
    }

    /// What a drain comes to. The outcomes are in the order of the publishes and end
    /// with the first that is not an acknowledgment, which fails the batch.
    pub fn drain_pending_acks(&self, drain: &AckDrain, outcomes: &Vec<AckOutcome>) -> (outcome:
        Result<(), String>)
        requires
            outcomes.len() <= drain.total,
            outcomes.len() < drain.total ==> outcomes.len() > 0 && !(outcomes@.last() is Acked),
        ensures
            outcome is Ok <==> outcomes.len() == drain.total && forall|k: int|
                0 <= k < drain.total ==> (#[trigger] outcomes@[k]) is Acked,
            match outcome {
                Ok(_) => first_ack_problem(
                    outcomes@,
                    0,
                    drain.total as int,
                    self@.config.ack_timeout_secs,
                ) is None,
                Err(message) => first_ack_problem(
                    outcomes@,
                    0,
                    drain.total as int,
                    self@.config.ack_timeout_secs,
                ) == Some(message@),
            },
    {
        let total: usize = drain.total;
        let secs: u64 = self.config.ack_timeout_secs;
        proof {
            drain_succeeds_when_all_are_acknowledged(outcomes@, 0, total as int, secs);
        }
        let mut i: usize = 0;
        while i < outcomes.len()
            invariant
                i <= outcomes.len() <= total,
                total == drain.total,
                secs == self@.config.ack_timeout_secs,
                first_ack_problem(outcomes@, 0, total as int, secs) == first_ack_problem(
                    outcomes@,
                    i as int,
                    total as int,
                    secs,
                ),
            decreases outcomes.len() - i,
        {
            match &outcomes[i] {
                AckOutcome::Acked => {},
                AckOutcome::Rejected(e) => {
                    return Err(with_detail("broker rejected persistent publish: ", e.as_str()));
                },
                AckOutcome::Closed => {
                    return Err("Solace ack channel closed before broker acknowledgment".to_owned());
                },
                AckOutcome::TimedOut => {
                    let mut message = "broker did not acknowledge ".to_owned();
                    message.append(decimal_text((total - i) as u64).as_str());
                    message.append(" of ");
                    message.append(decimal_text(total as u64).as_str());
                    message.append(" in-flight persistent publish(es) within ");
                    message.append(decimal_text(secs).as_str());
                    message.append("s");
                    return Err(message);
                },
            }
            i += 1;
        }
        Ok(())
    }

    /// Largest buffer that is published as one message: 1 MiB.
    pub fn max_buffer_size_bytes(&self) -> (size: usize)
        ensures
            size == 1_048_576,
    {
        1_048_576
    }

    /// Key-value pairs are refused: publishing only the value would silently
    /// discard the key and the headers.
    pub fn push_key(&self) -> (outcome: Result<(), String>)
        ensures
            outcome matches Err(message) && message@
                == "Solace output transport does not support key-value pairs. This output endpoint was configured with a data format that produces outputs as key-value pairs; however the Solace transport does not support this representation."@,
    {
        Err(
            "Solace output transport does not support key-value pairs. This output endpoint was configured with a data format that produces outputs as key-value pairs; however the Solace transport does not support this representation.".to_owned(),
        )
    }

    /// The endpoint does not take part in checkpoints.
    pub fn is_fault_tolerant(&self) -> (ft: bool)
        ensures
            !ft,
    {
        false
    }
}

/// What is reported when the SDK context could not be made.
pub fn context_error(e: &str) -> (message: String)
    ensures
        message@ == "Solace context init: "@ + e@,
{
    with_detail("Solace context init: ", e)
}

/// What is reported when the session could not be built.
pub fn session_error(e: &str) -> (message: String)
    ensures
        message@ == "Solace session: "@ + e@,
{
    with_detail("Solace session: ", e)
}

/// What is reported when a message could not be built.
pub fn message_error(e: &str) -> (message: String)
    ensures
        message@ == "message build: "@ + e@,
{
    with_detail("message build: ", e)
}

/// What is reported when a publish failed.
pub fn publish_error(topic: &str, e: &str) -> (message: String)
    ensures
        message@ == "publish to '"@ + topic@ + "': "@ + e@,
{
    let mut message = with_detail("publish to '", topic);
    message.append("': ");
    message.append(e);
    message
}

/// A drain succeeds exactly when every outcome is an acknowledgment.
pub proof fn drain_succeeds_when_all_are_acknowledged(
    outcomes: Seq<AckOutcome>,
    i: int,
    total: int,
    timeout_secs: u64,
)
    requires
        0 <= i,
    ensures
        first_ack_problem(outcomes, i, total, timeout_secs) is None <==> (forall|k: int|
            i <= k < outcomes.len() ==> (#[trigger] outcomes[k]) is Acked),
    decreases outcomes.len() - i,
{
    if i < outcomes.len() {
        drain_succeeds_when_all_are_acknowledged(outcomes, i + 1, total, timeout_secs);
        if outcomes[i] is Acked {
            assert forall|k: int|
                i <= k < outcomes.len() && first_ack_problem(outcomes, i, total, timeout_secs)
                    is None implies (#[trigger] outcomes[k]) is Acked by {}
        }
    }
}

/// Every persistent publish is awaited exactly once: those drained in the course of
/// a batch, and those that its end drains, are those that were in flight before,
/// and those published. Never do more wait than may be in flight. Direct delivery
/// awaits nothing.
pub proof fn every_persistent_publish_is_awaited(endpoint: OutputModel, n: nat)
    requires
        endpoint.wf(),
    ensures
        endpoint.published_all(n).wf(),
        endpoint.published_all(n).config == endpoint.config,
        endpoint.published_all(n).inflight < endpoint.config.max_inflight_acks,
        endpoint.drained_by_all(n) + endpoint.published_all(n).inflight == if endpoint.config.delivery_mode
            == OutputDeliveryMode::Persistent {
            endpoint.inflight + n
        } else {
            0
        },
    decreases n,
{
    if n > 0 {
        every_persistent_publish_is_awaited(endpoint, (n - 1) as nat);
    }
}

/// The sum of the waits.
pub open spec fn total_wait(waits: Seq<Nanos>) -> nat
    decreases waits.len(),
{
    if waits.len() == 0 {
        0
    } else {
        waits[0] as nat + total_wait(waits.drop_first())
    }
}

proof fn waits_fit_before_the_deadline(deadline: Nanos, starts: Seq<Nanos>, waits: Seq<Nanos>)
    requires
        starts.len() == waits.len() > 0,
        forall|k: int|
            0 <= k < waits.len() ==> #[trigger] waits[k] <= elapsed(starts[k], deadline),
        forall|k: int|
            0 <= k < waits.len() - 1 ==> (#[trigger] starts[k]) + waits[k] <= starts[k + 1],
    ensures
        total_wait(waits) <= elapsed(starts[0], deadline),
    decreases waits.len(),
{
    let later = starts.drop_first();
    let rest = waits.drop_first();
    assert(waits[0] <= elapsed(starts[0], deadline));
    if rest.len() > 0 {
        assert(starts[0] + waits[0] <= starts[1]);
        assert forall|k: int| 0 <= k < rest.len() implies #[trigger] rest[k] <= elapsed(
            later[k],
            deadline,
        ) by {
            assert(waits[k + 1] <= elapsed(starts[k + 1], deadline));
        }
        assert forall|k: int| 0 <= k < rest.len() - 1 implies (#[trigger] later[k]) + rest[k]
            <= later[k + 1] by {
            assert(starts[k + 1] + waits[k + 1] <= starts[k + 2]);
        }
        waits_fit_before_the_deadline(deadline, later, rest);
        assert(later[0] == starts[1]);
    } else {
        assert(total_wait(rest) == 0);
    }
}

/// One deadline bounds a whole drain: where each acknowledgment is waited for no
/// longer than remains at that time, one after the other, no wait goes beyond the
/// deadline, and all of them together take no longer than `ack_timeout_secs`.
pub proof fn one_deadline_bounds_a_drain(
    endpoint: OutputModel,
    total: nat,
    now: Nanos,
    starts: Seq<Nanos>,
    waits: Seq<Nanos>,
)
    requires
        seconds_after(now, endpoint.config.ack_timeout_secs) <= Nanos::MAX,
        starts.len() == waits.len(),
        forall|k: int| 0 <= k < starts.len() ==> now <= #[trigger] starts[k],
        forall|k: int|
            0 <= k < waits.len() ==> #[trigger] waits[k] <= elapsed(
                starts[k],
                endpoint.drain(total, now).deadline,
            ),
        forall|k: int|
            0 <= k < waits.len() - 1 ==> (#[trigger] starts[k]) + waits[k] <= starts[k + 1],
    ensures
        total_wait(waits) <= endpoint.config.ack_timeout_secs * SECOND,
        forall|k: int|
            0 <= k < waits.len() ==> #[trigger] waits[k] == 0 || starts[k] + waits[k]
                <= endpoint.drain(total, now).deadline,
{
    if waits.len() > 0 {
        assert(now <= starts[0]);
        waits_fit_before_the_deadline(endpoint.drain(total, now).deadline, starts, waits);
    }
}

/// A static topic does not depend on the record.
pub proof fn static_topics_ignore_the_record(
    endpoint: OutputModel,
    one: Option<Seq<crate::solace::routing::MemberModel>>,
    other: Option<Seq<crate::solace::routing::MemberModel>>,
)
    requires
        endpoint.static_topic is Some,
    ensures
        endpoint.topic(one) == endpoint.topic(other),
{
}

/// A window of so many milliseconds lasts a million times as many nanoseconds.
pub proof fn windows_last_their_milliseconds(ms: u64)
    ensures
        window_nanos(ms) == 1_000_000 * ms,
{
}

/// The throttle of an endpoint with a window of `ms` milliseconds holds a record back
/// exactly if something was published to its topic less than `ms * 1_000_000` nanoseconds
/// ago. A record that comes later than that is published. This holds as long as there are
/// fewer than 100,000 topics.
pub proof fn endpoints_hold_records_back_for_their_window(
    endpoint: OutputModel,
    ms: u64,
    start: Nanos,
    events: Seq<WindowEvent>,
    topic: Seq<char>,
    payload: Seq<u8>,
    now: Nanos,
)
    requires
        endpoint.dedup == Some(WindowModel::initial(window_nanos(ms), start).after_all(events)),
        in_order(events.push(WindowEvent::Record { topic, payload, now })),
        record_topics(events.push(WindowEvent::Record { topic, payload, now })).len() < 100_000,
    ensures
        endpoint.holds(topic, now) <==> exists|i: int| #[trigger]
            publishes_at(window_nanos(ms), start, events, i, topic) && now - events[i].now() < ms
                * 1_000_000,
{
    let window = window_nanos(ms);
    records_wait_exactly_within_the_window(window, start, events, topic, payload, now);
    let published = WindowModel::initial(window, start).after_all(events).published(
        WindowEvent::Record { topic, payload, now },
    );
    assert(published.contains_key(topic) <==> !endpoint.holds(topic, now));
    if forall|i: int| #[trigger]
        publishes_at(window, start, events, i, topic) ==> now - events[i].now() >= window {
        assert(published.contains_key(topic));
    } else {
        assert(!published.contains_key(topic));
    }
}

/// Any two messages that an endpoint with a window of `ms` milliseconds publishes to a
/// topic lie at least `ms * 1_000_000` nanoseconds apart, whether a record or a batch
/// boundary made it publish them. This holds as long as there are fewer than 100,000
/// topics.
pub proof fn endpoints_publish_once_per_window(
    ms: u64,
    start: Nanos,
    events: Seq<WindowEvent>,
    i: int,
    j: int,
    topic: Seq<char>,
)
    requires
        in_order(events),
        record_topics(events).len() < 100_000,
        i < j,
        publishes_at(window_nanos(ms), start, events, i, topic),
        publishes_at(window_nanos(ms), start, events, j, topic),
    ensures
        events[j].now() - events[i].now() >= ms * 1_000_000,
{
    publications_lie_a_window_apart(window_nanos(ms), start, events, i, j, topic);
}

/// An endpoint without a throttle holds nothing back; one with a throttle holds back what
/// is inside its window there.
pub proof fn only_the_throttle_holds_records_back(
    endpoint: OutputModel,
    topic: Seq<char>,
    now: Nanos,
)
    ensures
        endpoint.dedup is None ==> !endpoint.holds(topic, now),
        endpoint.dedup matches Some(throttle) ==> (endpoint.holds(topic, now) <==> throttle.inside(
            topic,
            now,
        )),
{
}

/// What a drain reports is how the first wait ended that did not bring an acknowledgment:
/// the error of the broker, the closed channel, or how many of all acknowledgments are
/// still missing after the timeout.
pub proof fn drains_report_their_first_problem(
    outcomes: Seq<AckOutcome>,
    i: int,
    total: int,
    timeout_secs: u64,
)
    requires
        0 <= i < outcomes.len(),
        forall|k: int| 0 <= k < i ==> (#[trigger] outcomes[k]) is Acked,
        !(outcomes[i] is Acked),
    ensures
        first_ack_problem(outcomes, 0, total, timeout_secs) == match outcomes[i] {
            AckOutcome::Rejected(e) => Some("broker rejected persistent publish: "@ + e@),
            AckOutcome::TimedOut => Some(
                "broker did not acknowledge "@ + decimal((total - i) as nat) + " of "@ + decimal(
                    total as nat,
                ) + " in-flight persistent publish(es) within "@ + decimal(timeout_secs as nat)
                    + "s"@,
            ),
            _ => Some("Solace ack channel closed before broker acknowledgment"@),
        },
{
    acknowledged_waits_are_passed_over(outcomes, i, i, total, timeout_secs);
}

proof fn acknowledged_waits_are_passed_over(
    outcomes: Seq<AckOutcome>,
    i: int,
    n: int,
    total: int,
    timeout_secs: u64,
)
    requires
        0 <= n <= i < outcomes.len(),
        forall|k: int| 0 <= k < i ==> (#[trigger] outcomes[k]) is Acked,
    ensures
        first_ack_problem(outcomes, i - n, total, timeout_secs) == first_ack_problem(
            outcomes,
            i,
            total,
            timeout_secs,
        ),
    decreases n,
{
    if n > 0 {
        acknowledged_waits_are_passed_over(outcomes, i, n - 1, total, timeout_secs);
        assert(outcomes[i - n] is Acked);
    }
}

proof fn next_remainder(x: int, m: int)
    requires
        x >= 0,
        m > 0,
    ensures
        x % m + 1 < m ==> (x + 1) % m == x % m + 1,
        x % m + 1 >= m ==> (x + 1) % m == 0,
{
    let q = x / m;
    let r = x % m;
    vstd::arithmetic::div_mod::lemma_fundamental_div_mod(x, m);
    vstd::arithmetic::div_mod::lemma_mod_bound(x, m);
    if r + 1 < m {
        assert(x + 1 == q * m + (r + 1)) by (nonlinear_arith)
            requires
                x == m * q + r,
        ;
        vstd::arithmetic::div_mod::lemma_fundamental_div_mod_converse(x + 1, m, q, r + 1);
    } else {
        assert(x + 1 == (q + 1) * m + 0) by (nonlinear_arith)
            requires
                x == m * q + r,
                r + 1 == m,
        ;
        vstd::arithmetic::div_mod::lemma_fundamental_div_mod_converse(x + 1, m, q + 1, 0);
    }
}

/// With persistent delivery acknowledgments are drained exactly when as many are in flight
/// as may be, and then all of them: after `n` publishes as many are in flight as are left
/// over by the limit, and all others have been drained.
pub proof fn full_flights_are_drained(endpoint: OutputModel, n: nat)
    requires
        endpoint.wf(),
        endpoint.config.delivery_mode is Persistent,
    ensures
        ({
            let limit = endpoint.config.max_inflight_acks as int;
            let all = endpoint.inflight + n;
            &&& endpoint.published_all(n).inflight == all % limit
            &&& endpoint.drained_by_all(n) == all - all % limit
        }),
    decreases n,
{
    let limit = endpoint.config.max_inflight_acks as int;
    every_persistent_publish_is_awaited(endpoint, n);
    if n == 0 {
        vstd::arithmetic::div_mod::lemma_small_mod(endpoint.inflight as nat, limit as nat);
    } else {
        full_flights_are_drained(endpoint, (n - 1) as nat);
        every_persistent_publish_is_awaited(endpoint, (n - 1) as nat);
        next_remainder(endpoint.inflight + n - 1, limit);
    }
}

/// A publish changes nothing but how many acknowledgments are in flight, and with direct
/// delivery not even that.
pub proof fn publishing_changes_only_the_flight(endpoint: OutputModel)
    ensures
        ({
            let after = endpoint.published();
            &&& after.config == endpoint.config
            &&& after.static_topic == endpoint.static_topic
            &&& after.dedup == endpoint.dedup
            &&& after.connected == endpoint.connected
            &&& after.registered == endpoint.registered
            &&& endpoint.config.delivery_mode is Direct ==> after.inflight == endpoint.inflight
                && endpoint.drained_by_publish() == 0
        }),
{
}

/// A drain awaits as many acknowledgments as it was begun for, until
/// `ack_timeout_secs * 1_000_000_000` nanoseconds after it was begun.
pub proof fn drains_last_for_the_timeout(endpoint: OutputModel, total: nat, now: Nanos)
    requires
        total <= usize::MAX,
        now + endpoint.config.ack_timeout_secs * 1_000_000_000 <= Nanos::MAX,
    ensures
        endpoint.drain(total, now).total == total,
        endpoint.drain(total, now).deadline == now + endpoint.config.ack_timeout_secs
            * 1_000_000_000,
{
}

/// The destination of a record is the static topic where there is one; else it is the
/// template, filled in with the fields of the record.
pub proof fn destinations_come_from_the_template(
    endpoint: OutputModel,
    document: Option<Seq<crate::solace::routing::MemberModel>>,
)
    ensures
        endpoint.static_topic matches Some(topic) ==> endpoint.topic(document) == topic,
        endpoint.static_topic is None ==> endpoint.topic(document) == resolved(
            endpoint.config.topic@,
            document,
        ),
{
}

} // verus!
