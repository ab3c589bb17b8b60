//! The input endpoint and the task behind it: connection life cycle, controller
//! commands and deferred acknowledgments.

use vstd::prelude::*;
use vstd::string::*;

use crate::clock::add_seconds;
use crate::clock::seconds_after;
use crate::clock::Nanos;
use crate::solace::acks::acks_ready;
use crate::solace::acks::all_ids;
use crate::solace::acks::all_ids_concat;
use crate::solace::acks::only_a_complete_prefix_is_released;
use crate::solace::acks::only_completed_steps_are_released;
use crate::solace::acks::ordered;
use crate::solace::acks::ready_len;
use crate::solace::acks::released;
use crate::solace::acks::take_all_acks;
use crate::solace::acks::withheld;
use crate::solace::acks::PendingAcks;
use crate::solace::config::SolaceInputConfig;
use crate::solace::events::ConnectorError;

verus! {

/// Fault-tolerance models of an endpoint.
#[derive(Debug, Clone, Copy, PartialEq, Eq, Structural)]
pub enum FtModel {
    AtLeastOnce,
    ExactlyOnce,
}

/// The input endpoint: a validated configuration.
#[derive(Debug)]
pub struct SolaceInputEndpoint {
    config: SolaceInputConfig,
}

impl SolaceInputEndpoint {
    /// The configuration of the endpoint.
    pub closed spec fn spec_config(&self) -> SolaceInputConfig {
        self.config
    }

    /// Makes an endpoint of a valid configuration.
    pub fn new(config: SolaceInputConfig) -> (endpoint: Result<Self, String>)
        ensures
            match endpoint {
                Ok(e) => config.problem() is None && e.spec_config() == config,
                Err(message) => config.problem() matches Some(problem) && message@
                    == "invalid Solace input config: "@ + problem,
            },
    {
        match config.validate() {
            Ok(_) => Ok(SolaceInputEndpoint { config }),
            Err(e) => {
                let mut message = "invalid Solace input config: ".to_owned();
                message.append(e.as_str());
                Err(message)
            },
        }
    }

    /// The configuration of the endpoint.
    pub fn config(&self) -> (config: &SolaceInputConfig)
        ensures
            *config == self.spec_config(),
    {
        &self.config
    }

    /// No fault tolerance is declared: the connector does not take part in
    /// checkpoint and replay. Delivery is at-least-once relative to circuit step
    /// completion.
    pub fn fault_tolerance(&self) -> (model: Option<FtModel>)
        ensures
            model is None,
    {
        None
    }
}

/// The controller-visible run state. Connectivity is tracked separately: the two
/// vary independently.
#[derive(Debug, Clone, Copy, PartialEq, Eq, Structural)]
pub enum State {
    Paused,
    Running,
    Done,
}

/// Source of the count of completed steps that releases deferred
/// acknowledgments.
#[derive(Debug, Clone, Copy, PartialEq, Eq, Structural)]
pub enum CompletionSource {
    /// Steps covered by a durable checkpoint.
    Checkpoint,
    /// Steps completed in memory.
    Completion,
}

impl CompletionSource {
    /// Prefers the checkpoint watcher, which a fault-tolerant pipeline has;
    /// otherwise falls back to the completion watcher.
    pub fn from_consumer(checkpoint_watcher: bool, completion_watcher: bool) -> (source: Option<
        Self,
    >)
        ensures
            source == if checkpoint_watcher {
                Some(CompletionSource::Checkpoint)
            } else if completion_watcher {
                Some(CompletionSource::Completion)
            } else {
                None
            },
    {
        if checkpoint_watcher {
            Some(CompletionSource::Checkpoint)
        } else if completion_watcher {
            Some(CompletionSource::Completion)
        } else {
            None
        }
    }
}

/// Commands of the controller.
#[derive(Debug, Clone, Copy, PartialEq, Eq, Structural)]
pub enum Command {
    /// Flush the input queue into the circuit.
    Queue,
    Replay,
    Extend,
    Pause,
    Disconnect,
}

/// What a command asks of the flow.
#[derive(Debug, Clone, Copy, PartialEq, Eq, Structural)]
pub enum FlowRequest {
    Nothing,
    /// Start the flow; a failure is a lost connection.
    Start,
    /// Stop the flow; a failure is a lost connection, since the broker would go
    /// on pushing messages that nothing drains.
    Stop,
    /// Stop the flow, whether or not that succeeds.
    StopAndForget,
}

/// How a step can be resumed.
#[derive(Debug, Clone, Copy, PartialEq, Eq, Structural)]
pub enum Resume {
    Barrier,
    /// By seeking: the durable queue is the resume cursor, and the broker
    /// redelivers what is unacknowledged.
    Seek,
    Replay,
}

/// The answer to a flush of the input queue.
#[derive(Debug)]
pub struct QueueReply {
    /// What is told to the controller.
    pub resume: Resume,
    /// The messages to acknowledge right away.
    pub acks: Vec<u64>,
    /// How many acknowledgments were discarded for want of a flow.
    pub discarded: usize,
}

/// An error to report to the controller.
#[derive(Debug)]
pub struct Report {
    /// The endpoint stops.
    pub fatal: bool,
    pub message: String,
    pub tag: &'static str,
}

/// The outcome of an attempt to connect.
#[derive(Debug)]
pub enum Attempt {
    /// The session and the flow are up, and the flow is started if it had to be.
    Connected,
    /// The flow did not start.
    StartFailed,
    Failed(ConnectorError),
}

/// What follows an attempt to connect.
#[derive(Debug)]
pub enum AfterAttempt {
    Proceed,
    /// Tear the connection down, and retry after the retry interval.
    TearDownAndRetry,
    /// Report the failure, and retry after the retry interval.
    Retry(Report),
    /// Report the failure and stop the endpoint.
    Stop(Report),
}

/// What the task waits for.
#[derive(Debug, Clone, Copy, PartialEq, Eq, Structural)]
pub enum Wait {
    /// Nothing: the task ends.
    Exit,
    /// The teardown of a connection that is of no more use.
    TearDown,
    /// A command, or this time, at which connecting is tried again.
    Retry { due: Nanos },
    /// A command, a completion, a session event or the flow-event tick; while
    /// running, also a message.
    Events { messages: bool },
}

/// What the task knows.
pub struct TaskModel {
    pub state: State,
    /// There is a live connection.
    pub connected: bool,
    /// When connecting is to be tried again. There is no such time as long as
    /// there is a connection to use or to tear down.
    pub due: Option<Nanos>,
    /// The wait between two attempts to connect, in seconds.
    pub retry_interval_secs: u64,
    /// Message acknowledgments that wait for their step.
    pub pending: Seq<(u64, Vec<u64>)>,
    /// How often the queue was flushed.
    pub step: u64,
    /// The completion source, while it is alive.
    pub source: Option<CompletionSource>,
    /// Acknowledgments wait for step completion.
    pub deferring: bool,
    /// Acknowledgments wait for a durable checkpoint.
    pub strict: bool,
}

/// What can happen to the task.
pub enum TaskEvent {
    /// The queue is flushed: the IDs of the flushed messages, and the count of
    /// completed steps at that time, if it is known.
    Flush { ids: Vec<u64>, completed: Option<u64> },
    Command(Command),
    /// The command channel closed.
    Closed,
    /// The completion source reached this count.
    Frontier(u64),
    /// The completion source is gone; this is the last count that it gave.
    SourceLost(u64),
    /// An attempt to connect was started, and ended so.
    Attempted { started: Nanos, attempt: Attempt, ended: Nanos },
    /// The connection is lost.
    ConnectionLost,
    /// The connection has been torn down.
    TornDown { now: Nanos },
}

impl TaskModel {
    /// The task before anything has happened: disconnected and paused, with an
    /// attempt to connect due at once.
    pub open spec fn initial(
        source: Option<CompletionSource>,
        retry_interval_secs: u64,
        now: Nanos,
    ) -> TaskModel {
        TaskModel {
            state: State::Paused,
            connected: false,
            due: Some(now),
            retry_interval_secs,
            pending: Seq::empty(),
            step: 0,
            source,
            deferring: source is Some,
            strict: source == Some(CompletionSource::Checkpoint),
        }
    }

    /// Acknowledgments wait only while there is a flow to send them on, and only
    /// a task that defers them can be strict.
    pub open spec fn wf(self) -> bool {
        &&& !self.connected ==> self.pending.len() == 0
        &&& !self.deferring ==> self.pending.len() == 0
        &&& self.strict ==> self.deferring
    }

    /// The step that a flush belongs to: the number of steps completed before
    /// it. The number of flushes stands in where that is not known.
    pub open spec fn flush_key(self, completed: Option<u64>) -> u64 {
        match completed {
            Some(completed) => completed,
            None => self.step,
        }
    }

    /// The task after a flush.
    pub open spec fn flushed(self, ids: Vec<u64>, completed: Option<u64>) -> TaskModel {
        TaskModel {
            pending: if self.connected && self.deferring && ids@.len() > 0 {
                self.pending.push((self.flush_key(completed), ids))
            } else {
                self.pending
            },
            step: (self.step + 1) as u64,
            ..self
        }
    }

    /// The task after a command other than a flush.
    pub open spec fn commanded(self, command: Command) -> TaskModel {
        TaskModel {
            state: match command {
                Command::Extend => State::Running,
                Command::Pause => State::Paused,
                Command::Disconnect => State::Done,
                _ => self.state,
            },
            ..self
        }
    }

    /// The task after the completion source has gone.
    pub open spec fn source_lost(self, last: u64) -> TaskModel {
        TaskModel {
            source: None,
            pending: if self.strict {
                withheld(self.pending, last)
            } else {
                Seq::empty()
            },
            ..self
        }
    }

    /// What is acknowledged when the completion source has gone, and at
    /// shutdown: in strict mode what a checkpoint covers, else everything.
    pub open spec fn final_acks(self, last: u64) -> Seq<u64> {
        if self.strict {
            released(self.pending, last)
        } else {
            all_ids(self.pending)
        }
    }

    /// When the retry interval that begins at `now` is over.
    pub open spec fn retry_time(self, now: Nanos) -> int {
        seconds_after(now, self.retry_interval_secs)
    }

    /// The task that tries to connect again after the retry interval.
    pub open spec fn retrying(self, now: Nanos) -> TaskModel {
        TaskModel { due: Some(self.retry_time(now) as u128), ..self }
    }

    /// The task after an attempt to connect that ended at `ended`.
    pub open spec fn attempted(self, attempt: Attempt, ended: Nanos) -> TaskModel {
        match attempt {
            Attempt::Connected => TaskModel { connected: true, due: None, ..self },
            Attempt::StartFailed => TaskModel { due: None, ..self },
            Attempt::Failed(ConnectorError::Fatal(_)) => TaskModel { state: State::Done, ..self },
            Attempt::Failed(ConnectorError::Retryable(_)) => self.retrying(ended),
        }
    }

    /// What the task waits for.
    pub open spec fn wait(self) -> Wait {
        if self.state == State::Done {
            Wait::Exit
        } else if self.connected {
            Wait::Events { messages: self.state == State::Running }
        } else {
            match self.due {
                Some(due) => Wait::Retry { due },
                None => Wait::TearDown,
            }
        }
    }

    /// The task after the connection is lost. The waiting messages belong to the
    /// dead flow; the broker redelivers them on the next one.
    pub open spec fn disconnected(self) -> TaskModel {
        TaskModel { connected: false, due: None, pending: Seq::empty(), ..self }
    }

    /// The task after `event`.
    pub open spec fn after(self, event: TaskEvent) -> TaskModel {
        match event {
            TaskEvent::Flush { ids, completed } => self.flushed(ids, completed),
            TaskEvent::Command(command) => self.commanded(command),
            TaskEvent::Closed => TaskModel { state: State::Done, ..self },
            TaskEvent::Frontier(count) => TaskModel {
                pending: withheld(self.pending, count),
                ..self
            },
            TaskEvent::SourceLost(last) => self.source_lost(last),
            TaskEvent::Attempted { attempt, ended, .. } => self.attempted(attempt, ended),
            TaskEvent::ConnectionLost => self.disconnected(),
            TaskEvent::TornDown { now } => self.retrying(now),
        }
    }

    /// The messages that are acknowledged on `event`.
    pub open spec fn acks_on(self, event: TaskEvent) -> Seq<u64> {
        match event {
            TaskEvent::Flush { ids, .. } => if self.connected && !self.deferring {
                ids@
            } else {
                Seq::empty()
            },
            TaskEvent::Frontier(count) => released(self.pending, count),
            TaskEvent::SourceLost(last) => self.final_acks(last),
            _ => Seq::empty(),
        }
    }
}

/// The decisions of the background task of the input connector.
///
/// A message is acknowledged only after the circuit step that ingested it has
/// been processed. A crash before that leaves the message unacknowledged, so the
/// broker redelivers it. Without a completion source there is no telling when a
/// step is done, and messages are acknowledged on hand-off.
#[derive(Debug)]
pub struct InputTask {
    state: State,
    connected: bool,
    due: Option<Nanos>,
    retry_interval_secs: u64,
    pending: PendingAcks,
    step: u64,
    source: Option<CompletionSource>,
    deferring: bool,
    strict: bool,
}

impl View for InputTask {
    type V = TaskModel;

    closed spec fn view(&self) -> TaskModel {
        TaskModel {
            state: self.state,
            connected: self.connected,
            due: self.due,
            retry_interval_secs: self.retry_interval_secs,
            pending: self.pending@,
            step: self.step,
            source: self.source,
            deferring: self.deferring,
            strict: self.strict,
        }
    }
}

impl InputTask {
    /// A task that starts disconnected, so that the first connection takes the
    /// same path as a reconnect.
    pub fn new(
        config: &SolaceInputConfig,
        source: Option<CompletionSource>,
        now: Nanos,
    ) -> (task: Self)
        ensures
            task@ == TaskModel::initial(source, config.retry_interval_secs, now),
            task@.wf(),
    {
        let strict = match source {
            Some(CompletionSource::Checkpoint) => true,
            _ => false,
        };
        InputTask {
            state: State::Paused,
            connected: false,
            due: Some(now),
            retry_interval_secs: config.retry_interval_secs,
            pending: PendingAcks::new(),
            step: 0,
            source,
            deferring: source.is_some(),
            strict,
        }
    }

    /// The run state that the controller asked for.
    pub fn state(&self) -> (state: State)
        ensures
            state == self@.state,
    {
        self.state
    }

    /// How often the queue was flushed.
    pub fn step(&self) -> (step: u64)
        ensures
            step == self@.step,
    {
        self.step
    }

    /// The completion source, while it is alive.
    pub fn source(&self) -> (source: Option<CompletionSource>)
        ensures
            source == self@.source,
    {
        self.source
    }

    /// How many flushed batches wait for their acknowledgment.
    pub fn pending_batches(&self) -> (n: usize)
        ensures
            n == self@.pending.len(),
    {
        self.pending.len()
    }

    /// What the task waits for next.
    pub fn next_wait(&self) -> (wait: Wait)
        ensures
            wait == self@.wait(),
    {
        if self.state == State::Done {
            Wait::Exit
        } else if self.connected {
            Wait::Events { messages: self.state == State::Running }
        } else {
            match self.due {
                Some(due) => Wait::Retry { due },
                None => Wait::TearDown,
            }
        }
    }

    /// When the retry interval that begins at `now` is over.
    pub fn retry_due(&self, now: Nanos) -> (due: Nanos)
        requires
            self@.retry_time(now) <= Nanos::MAX,
        ensures
            due == self@.retry_time(now),
    {
        add_seconds(now, self.retry_interval_secs)
    }

    /// Routes the IDs of the messages that a flush of the input queue handed to
    /// the circuit.
    ///
    /// The reply never waits for the step, so that the controller's step never
    /// stalls. `completed` is the count of completed steps at the time of the
    /// flush, where a watcher gives it. Without a connection the IDs are
    /// discarded: they belong to a dead flow, and the broker redelivers those
    /// messages.
    pub fn handle_queue_command(&mut self, msg_ids: Vec<u64>, completed: Option<u64>) -> (reply:
        QueueReply)
        requires
            old(self)@.wf(),
            old(self)@.step < u64::MAX,
        ensures
            final(self)@ == old(self)@.after(TaskEvent::Flush { ids: msg_ids, completed }),
            final(self)@.wf(),
            reply.resume == Resume::Seek,
            reply.acks@ == old(self)@.acks_on(TaskEvent::Flush { ids: msg_ids, completed }),
            reply.discarded == if old(self)@.connected {
                0
            } else {
                msg_ids@.len()
            },
    {
        let key: u64 = match completed {
            Some(count) => count,
            None => self.step,
        };
        self.step = self.step + 1;
        if !self.connected {
            let discarded: usize = msg_ids.len();
            return QueueReply { resume: Resume::Seek, acks: Vec::new(), discarded };
        }
        if self.deferring {
            if msg_ids.len() > 0 {
                self.pending.push_back((key, msg_ids));
            }
            return QueueReply { resume: Resume::Seek, acks: Vec::new(), discarded: 0 };
        }
        QueueReply { resume: Resume::Seek, acks: msg_ids, discarded: 0 }
    }

    /// Handles a command other than `Queue`, which does nothing here. Without a
    /// connection the state is recorded only: the flow is started on reconnect
    /// when the recorded state is `Running`.
    pub fn handle_non_queue_command(&mut self, command: Command) -> (request: FlowRequest)
        requires
            old(self)@.wf(),
        ensures
            final(self)@ == old(self)@.after(TaskEvent::Command(command)),
            final(self)@.wf(),
            request == match command {
                Command::Extend if old(self)@.connected => FlowRequest::Start,
                Command::Pause if old(self)@.connected => FlowRequest::Stop,
                Command::Disconnect if old(self)@.connected => FlowRequest::StopAndForget,
                _ => FlowRequest::Nothing,
            },
    {
        match command {
            Command::Queue | Command::Replay => FlowRequest::Nothing,
            Command::Extend => {
                self.state = State::Running;
                if self.connected {
                    FlowRequest::Start
                } else {
                    FlowRequest::Nothing
                }
            },
            Command::Pause => {
                self.state = State::Paused;
                if self.connected {
                    FlowRequest::Stop
                } else {
                    FlowRequest::Nothing
                }
            },
            Command::Disconnect => {
                self.state = State::Done;
                if self.connected {
                    FlowRequest::StopAndForget
                } else {
                    FlowRequest::Nothing
                }
            },
        }
    }

    /// Records that the command channel closed.
    pub fn close(&mut self)
        requires
            old(self)@.wf(),
        ensures
            final(self)@ == old(self)@.after(TaskEvent::Closed),
            final(self)@.wf(),
    {
        self.state = State::Done;
    }

    /// Releases every message whose ingesting step the count covers.
    pub fn ack_completed(&mut self, completed: u64) -> (acks: Vec<u64>)
        requires
            old(self)@.wf(),
        ensures
            final(self)@ == old(self)@.after(TaskEvent::Frontier(completed)),
            final(self)@.wf(),
            acks@ == old(self)@.acks_on(TaskEvent::Frontier(completed)),
    {
        proof {
            crate::solace::acks::release_loses_nothing(self.pending@, completed);
        }
        acks_ready(&mut self.pending, completed)
    }

    /// Records that the completion source is gone. In strict mode only what the
    /// last count covers is released; otherwise everything is.
    pub fn lose_source(&mut self, last: u64) -> (acks: Vec<u64>)
        requires
            old(self)@.wf(),
        ensures
            final(self)@ == old(self)@.after(TaskEvent::SourceLost(last)),
            final(self)@.wf(),
            acks@ == old(self)@.acks_on(TaskEvent::SourceLost(last)),
    {
        self.source = None;
        if self.strict {
            acks_ready(&mut self.pending, last)
        } else {
            take_all_acks(&mut self.pending)
        }
    }

    /// The flow has to be started on a new connection.
    pub fn must_start_flow(&self) -> (start: bool)
        ensures
            start == (self@.state == State::Running),
    {
        self.state == State::Running
    }

    /// Records the outcome of an attempt to connect that was started at `started`
    /// and ended at `ended`.
    pub fn finish_attempt(&mut self, started: Nanos, attempt: Attempt, ended: Nanos) -> (after:
        AfterAttempt)
        requires
            old(self)@.wf(),
            old(self)@.retry_time(ended) <= Nanos::MAX,
        ensures
            final(self)@ == old(self)@.after(TaskEvent::Attempted { started, attempt, ended }),
            final(self)@.wf(),
            match attempt {
                Attempt::Connected => after is Proceed,
                Attempt::StartFailed => after is TearDownAndRetry,
                Attempt::Failed(ConnectorError::Fatal(e)) => after matches AfterAttempt::Stop(r)
                    && r.fatal && r.message@ == e@ && r.tag@ == "solace-connect"@,
                Attempt::Failed(ConnectorError::Retryable(e)) => after matches AfterAttempt::Retry(
                    r,
                ) && !r.fatal && r.message@ == e@ && r.tag@ == "solace-connect"@,
            },
    {
        match attempt {
            Attempt::Connected => {
                self.connected = true;
                self.due = None;
                AfterAttempt::Proceed
            },
            Attempt::StartFailed => {
                self.due = None;
                AfterAttempt::TearDownAndRetry
            },
            Attempt::Failed(ConnectorError::Fatal(message)) => {
                self.state = State::Done;
                AfterAttempt::Stop(Report { fatal: true, message, tag: "solace-connect" })
            },
            Attempt::Failed(ConnectorError::Retryable(message)) => {
                self.due = Some(self.retry_due(ended));
                AfterAttempt::Retry(Report { fatal: false, message, tag: "solace-connect" })
            },
        }
    }

    /// Records that the connection is lost, for the given reason. The waiting
    /// messages cannot be acknowledged on a new flow, so they are dropped.
    pub fn lose_connection(&mut self, reason: String) -> (report: Report)
        requires
            old(self)@.wf(),
        ensures
            final(self)@ == old(self)@.after(TaskEvent::ConnectionLost),
            final(self)@.wf(),
            !report.fatal,
            report.message@ == reason@,
            report.tag@ == "solace-connection-lost"@,
    {
        self.connected = false;
        self.due = None;
        self.pending.clear();
        Report { fatal: false, message: reason, tag: "solace-connection-lost" }
    }

    /// Records that the connection has been torn down: connecting is tried again
    /// once the retry interval is over.
    pub fn finish_teardown(&mut self, now: Nanos)
        requires
            old(self)@.wf(),
            old(self)@.retry_time(now) <= Nanos::MAX,
        ensures
            final(self)@ == old(self)@.after(TaskEvent::TornDown { now }),
            final(self)@.wf(),
    {
        self.due = Some(self.retry_due(now));
    }

    /// The messages to acknowledge when the task ends, so that the broker window
    /// is released. In strict mode what no checkpoint covers stays with the
    /// broker. `last` is the last count of the completion source.
    pub fn shut_down(self, last: u64) -> (acks: Vec<u64>)
        requires
            self@.wf(),
        ensures
            acks@ == self@.final_acks(last),
    {
        let mut pending = self.pending;
        if self.strict {
            acks_ready(&mut pending, last)
        } else {
            take_all_acks(&mut pending)
        }
    }
}

/// The report of a context that could not be made, which stops the endpoint.
pub fn context_failure(e: String) -> (report: Report)
    ensures
        report.fatal,
        report.message@ == e@,
        report.tag@ == "solace-context"@,
{
    Report { fatal: true, message: e, tag: "solace-context" }
}

/// The reason for which the connection is lost when a flow request failed with
/// `e`, if it is.
pub fn flow_request_failure(request: FlowRequest, e: &str) -> (lost: Option<String>)
    ensures
        match request {
            FlowRequest::Start => lost matches Some(m) && m@ == "flow.start: "@ + e@,
            FlowRequest::Stop => lost matches Some(m) && m@ == "flow.stop: "@ + e@,
            FlowRequest::StopAndForget | FlowRequest::Nothing => lost is None,
        },
{
    match request {
        FlowRequest::Start => {
            let mut message = "flow.start: ".to_owned();
            message.append(e);
            Some(message)
        },
        FlowRequest::Stop => {
            let mut message = "flow.stop: ".to_owned();
            message.append(e);
            Some(message)
        },
        FlowRequest::StopAndForget | FlowRequest::Nothing => None,
    }
}

impl TaskModel {
    /// The IDs that `event` hands over for acknowledgment: those flushed while
    /// there is a connection.
    pub open spec fn accepted_on(self, event: TaskEvent) -> Seq<u64> {
        match event {
            TaskEvent::Flush { ids, .. } if self.connected => ids@,
            _ => Seq::empty(),
        }
    }

    /// The task after `events`, in order.
    pub open spec fn after_all(self, events: Seq<TaskEvent>) -> TaskModel
        decreases events.len(),
    {
        if events.len() == 0 {
            self
        } else {
            self.after_all(events.drop_last()).after(events.last())
        }
    }

    /// The messages that are acknowledged during `events`, in order.
    pub open spec fn acks_during(self, events: Seq<TaskEvent>) -> Seq<u64>
        decreases events.len(),
    {
        if events.len() == 0 {
            Seq::empty()
        } else {
            self.acks_during(events.drop_last()) + self.after_all(events.drop_last()).acks_on(
                events.last(),
            )
        }
    }

    /// The IDs that are handed over for acknowledgment during `events`, in order.
    pub open spec fn accepted_during(self, events: Seq<TaskEvent>) -> Seq<u64>
        decreases events.len(),
    {
        if events.len() == 0 {
            Seq::empty()
        } else {
            self.accepted_during(events.drop_last()) + self.after_all(
                events.drop_last(),
            ).accepted_on(events.last())
        }
    }
}

/// Whatever happens, acknowledgments wait only while there is a flow to send them
/// on, and only if the task defers them.
pub proof fn task_stays_well_formed(task: TaskModel, event: TaskEvent)
    requires
        task.wf(),
    ensures
        task.after(event).wf(),
{
    match event {
        TaskEvent::Frontier(count) => only_a_complete_prefix_is_released(task.pending, count),
        TaskEvent::SourceLost(last) => only_a_complete_prefix_is_released(task.pending, last),
        _ => {},
    }
}

/// What the broker allows does not change what the controller asked for: losing
/// the connection does not cancel a pause, a pause survives the reconnect, and
/// only a fatal failure to connect ends the task. A command, in turn, does not
/// change the connection.
pub proof fn run_state_and_connectivity_are_independent(task: TaskModel, event: TaskEvent)
    ensures
        event is ConnectionLost ==> task.after(event).state == task.state,
        event is TornDown ==> task.after(event).state == task.state,
        event matches TaskEvent::Attempted { attempt, .. } ==> (attempt matches Attempt::Failed(
            ConnectorError::Fatal(_),
        ) || task.after(event).state == task.state),
        event is Command || event is Flush || event is Closed ==> task.after(event).connected
            == task.connected,
{
}

/// As long as the connection holds, no message that was handed to the circuit is
/// acknowledged twice or forgotten, whatever happens: those acknowledged,
/// followed by those still waiting, are those handed over, in the same order.
pub proof fn acknowledgments_are_conserved(task: TaskModel, events: Seq<TaskEvent>)
    requires
        task.wf(),
        forall|i: int| 0 <= i < events.len() ==> !((#[trigger] events[i]) is ConnectionLost),
    ensures
        task.acks_during(events) + all_ids(task.after_all(events).pending) == all_ids(task.pending)
            + task.accepted_during(events),
        task.after_all(events).wf(),
    decreases events.len(),
{
    if events.len() == 0 {
        assert(Seq::<u64>::empty() + all_ids(task.pending) == all_ids(task.pending)
            + Seq::<u64>::empty());
    } else {
        let before = events.drop_last();
        let event = events.last();
        assert forall|i: int| 0 <= i < before.len() implies !((
        #[trigger] before[i]) is ConnectionLost) by {
            assert(before[i] == events[i]);
        }
        acknowledgments_are_conserved(task, before);
        let mid = task.after_all(before);
        task_stays_well_formed(mid, event);
        assert(events[events.len() - 1] == event);
        step_conserves(mid, event);
        let a = task.acks_during(before);
        let b = mid.acks_on(event);
        let c = all_ids(mid.after(event).pending);
        let d = all_ids(mid.pending);
        let e = mid.accepted_on(event);
        let f = all_ids(task.pending);
        let g = task.accepted_during(before);
        assert((a + b) + c == a + (b + c));
        assert(a + (d + e) == (a + d) + e);
        assert((f + g) + e == f + (g + e));
    }
}

proof fn step_conserves(task: TaskModel, event: TaskEvent)
    requires
        task.wf(),
        !(event is ConnectionLost),
    ensures
        task.acks_on(event) + all_ids(task.after(event).pending) == all_ids(task.pending)
            + task.accepted_on(event),
{
    let waiting = all_ids(task.pending);
    match event {
        TaskEvent::Flush { ids, completed } => {
            let pending = task.after(event).pending;
            if task.connected && task.deferring && ids@.len() > 0 {
                assert(pending.drop_last() == task.pending);
                assert(all_ids(pending) == waiting + ids@);
            }
            assert(task.acks_on(event) + all_ids(pending) == waiting + task.accepted_on(event));
        },
        TaskEvent::Frontier(count) => {
            crate::solace::acks::release_loses_nothing(task.pending, count);
            assert(waiting + Seq::<u64>::empty() == waiting);
        },
        TaskEvent::SourceLost(last) => {
            crate::solace::acks::release_loses_nothing(task.pending, last);
            assert(waiting + Seq::<u64>::empty() == waiting);
        },
        _ => {
            assert(Seq::<u64>::empty() + waiting == waiting + Seq::<u64>::empty());
        },
    }
}

/// A task that defers its acknowledgments sends none on hand-off, and what a
/// completion count releases belongs to steps that the count covers.
pub proof fn deferred_acks_wait_for_their_step(task: TaskModel, event: TaskEvent)
    requires
        task.deferring,
    ensures
        event is Flush ==> task.acks_on(event) == Seq::<u64>::empty(),
        event matches TaskEvent::Frontier(count) ==> task.acks_on(event) == all_ids(
            task.pending.take(ready_len(task.pending, count) as int),
        ) && forall|i: int|
            0 <= i < ready_len(task.pending, count) ==> (#[trigger] task.pending[i]).0 < count,
{
    if let TaskEvent::Frontier(count) = event {
        only_a_complete_prefix_is_released(task.pending, count);
    }
}

/// In strict mode nothing is ever acknowledged that a durable checkpoint does not
/// cover, not even when the watcher is lost or the task ends.
pub proof fn strict_acks_wait_for_a_checkpoint(task: TaskModel, event: TaskEvent)
    requires
        task.wf(),
        task.strict,
    ensures
        task.acks_on(event) == match event {
            TaskEvent::Frontier(count) => released(task.pending, count),
            TaskEvent::SourceLost(last) => released(task.pending, last),
            _ => Seq::<u64>::empty(),
        },
        forall|last: u64| #[trigger] task.final_acks(last) == released(task.pending, last),
        forall|count: u64, i: int|
            0 <= i < #[trigger] ready_len(task.pending, count) ==> (
            #[trigger] task.pending[i]).0 < count,
        task.after(event).strict,
{
    assert forall|count: u64, i: int|
        0 <= i < #[trigger] ready_len(task.pending, count) implies (
    #[trigger] task.pending[i]).0 < count by {
        only_a_complete_prefix_is_released(task.pending, count);
    }
}

/// A batch that is flushed when `count` steps are complete waits for a step of
/// its own: no count up to that one releases it, however far the count had
/// jumped before.
pub proof fn late_batches_wait_for_their_own_step(
    task: TaskModel,
    ids: Vec<u64>,
    count: u64,
    frontier: u64,
)
    requires
        frontier <= count,
        task.deferring,
        task.connected,
    ensures
        task.flushed(ids, Some(count)).acks_on(TaskEvent::Frontier(frontier)) == task.acks_on(
            TaskEvent::Frontier(frontier),
        ),
{
    if ids@.len() > 0 {
        ready_len_of_pushed(task.pending, (count, ids), frontier);
        let n = ready_len(task.pending, frontier) as int;
        only_a_complete_prefix_is_released(task.pending, frontier);
        assert(task.pending.push((count, ids)).take(n) == task.pending.take(n));
    }
}

impl TaskModel {
    /// The step that the flush at place `i` of `events` belongs to.
    pub open spec fn flush_key_at(self, events: Seq<TaskEvent>, i: int) -> u64 {
        match events[i] {
            TaskEvent::Flush { completed, .. } => self.after_all(events.take(i)).flush_key(
                completed,
            ),
            _ => 0,
        }
    }

    /// The count of completed steps does not go back from one flush to the next,
    /// nor behind the last batch that waits already.
    pub open spec fn flushes_in_order(self, events: Seq<TaskEvent>) -> bool {
        &&& forall|i: int, j: int|
            0 <= i <= j < events.len() && events[i] is Flush && events[j] is Flush
                ==> #[trigger] self.flush_key_at(events, i) <= #[trigger] self.flush_key_at(
                events,
                j,
            )
        &&& forall|i: int|
            0 <= i < events.len() && events[i] is Flush && self.pending.len() > 0
                ==> self.pending.last().0 <= #[trigger] self.flush_key_at(events, i)
    }
}

/// The first events of a run in order are in order.
proof fn shorter_runs_are_in_order(task: TaskModel, events: Seq<TaskEvent>)
    requires
        events.len() > 0,
        task.flushes_in_order(events),
    ensures
        task.flushes_in_order(events.drop_last()),
        forall|i: int|
            0 <= i < events.len() - 1 ==> #[trigger] task.flush_key_at(events.drop_last(), i)
                == task.flush_key_at(events, i),
{
    let before = events.drop_last();
    assert forall|i: int| 0 <= i < before.len() implies #[trigger] task.flush_key_at(before, i)
        == task.flush_key_at(events, i) by {
        assert(before.take(i) == events.take(i));
        assert(before[i] == events[i]);
    }
    assert forall|i: int, j: int|
        0 <= i <= j < before.len() && before[i] is Flush && before[j] is Flush implies
        #[trigger] task.flush_key_at(before, i) <= #[trigger] task.flush_key_at(before, j) by {
        assert(before[i] == events[i] && before[j] == events[j]);
        assert(task.flush_key_at(events, i) <= task.flush_key_at(events, j));
    }
    assert forall|i: int|
        0 <= i < before.len() && before[i] is Flush && task.pending.len() > 0 implies
        task.pending.last().0 <= #[trigger] task.flush_key_at(before, i) by {
        assert(before[i] == events[i]);
        assert(task.pending.last().0 <= task.flush_key_at(events, i));
    }
}

/// No batch waits for a later step than `bound` if none did at first and none was
/// flushed with a later one.
proof fn waiting_steps_are_bounded(task: TaskModel, events: Seq<TaskEvent>, bound: u64)
    requires
        forall|i: int| 0 <= i < task.pending.len() ==> (#[trigger] task.pending[i]).0 <= bound,
        forall|i: int|
            0 <= i < events.len() && events[i] is Flush ==> #[trigger] task.flush_key_at(events, i)
                <= bound,
    ensures
        forall|i: int|
            0 <= i < task.after_all(events).pending.len() ==> (#[trigger] task.after_all(
                events,
            ).pending[i]).0 <= bound,
    decreases events.len(),
{
    if events.len() > 0 {
        let before = events.drop_last();
        let event = events.last();
        assert forall|i: int| 0 <= i < before.len() && before[i] is Flush implies
            #[trigger] task.flush_key_at(before, i) <= bound by {
            assert(before.take(i) == events.take(i));
            assert(before[i] == events[i]);
            assert(task.flush_key_at(events, i) <= bound);
        }
        waiting_steps_are_bounded(task, before, bound);
        let mid = task.after_all(before);
        let after = mid.after(event);
        match event {
            TaskEvent::Flush { ids, completed } => {
                assert(events.take(events.len() - 1) == before);
                assert(events[events.len() - 1] == event);
                assert(task.flush_key_at(events, events.len() - 1) <= bound);
                assert(mid.flush_key(completed) <= bound);
            },
            TaskEvent::Frontier(count) => {
                only_a_complete_prefix_is_released(mid.pending, count);
                rest_is_bounded(mid.pending, ready_len(mid.pending, count) as int, bound);
            },
            TaskEvent::SourceLost(last) => {
                only_a_complete_prefix_is_released(mid.pending, last);
                rest_is_bounded(mid.pending, ready_len(mid.pending, last) as int, bound);
            },
            _ => {},
        }
    }
}

proof fn rest_is_bounded(pending: Seq<(u64, Vec<u64>)>, n: int, bound: u64)
    requires
        0 <= n <= pending.len(),
        forall|i: int| 0 <= i < pending.len() ==> (#[trigger] pending[i]).0 <= bound,
    ensures
        forall|i: int|
            0 <= i < pending.skip(n).len() ==> (#[trigger] pending.skip(n)[i]).0 <= bound,
{
    assert forall|i: int| 0 <= i < pending.skip(n).len() implies (
    #[trigger] pending.skip(n)[i]).0 <= bound by {
        assert(pending.skip(n)[i] == pending[i + n]);
    }
}

/// As long as the count of completed steps does not go back, the batches wait in the
/// order of their steps, whatever happens. So once a count has come, every batch of
/// a step that it covers has been released: none that waits then has such a step.
pub proof fn waiting_batches_stay_ordered(task: TaskModel, events: Seq<TaskEvent>)
    requires
        ordered(task.pending),
        task.flushes_in_order(events),
    ensures
        ordered(task.after_all(events).pending),
        forall|count: u64, i: int|
            0 <= i < task.after_all(events).after(TaskEvent::Frontier(count)).pending.len() ==> (
            #[trigger] task.after_all(events).after(TaskEvent::Frontier(count)).pending[i]).0
                >= count,
    decreases events.len(),
{
    if events.len() > 0 {
        let before = events.drop_last();
        let event = events.last();
        shorter_runs_are_in_order(task, events);
        waiting_batches_stay_ordered(task, before);
        let mid = task.after_all(before);
        match event {
            TaskEvent::Flush { ids, completed } => {
                let n = events.len() - 1;
                let key = mid.flush_key(completed);
                assert(events.take(n) == before);
                assert(events[n] == event);
                assert(task.flush_key_at(events, n) == key);
                assert forall|i: int| 0 <= i < task.pending.len() implies (
                #[trigger] task.pending[i]).0 <= key by {
                    assert(task.pending[i].0 <= task.pending[task.pending.len() - 1].0);
                }
                assert forall|i: int| 0 <= i < before.len() && before[i] is Flush implies
                    #[trigger] task.flush_key_at(before, i) <= key by {
                    assert(before[i] == events[i]);
                    assert(task.flush_key_at(events, i) <= task.flush_key_at(events, n));
                }
                waiting_steps_are_bounded(task, before, key);
            },
            TaskEvent::Frontier(count) => {
                only_completed_steps_are_released(mid.pending, count);
            },
            TaskEvent::SourceLost(last) => {
                only_completed_steps_are_released(mid.pending, last);
            },
            _ => {},
        }
    }
    let after = task.after_all(events);
    assert forall|count: u64, i: int|
        0 <= i < after.after(TaskEvent::Frontier(count)).pending.len() implies (
    #[trigger] after.after(TaskEvent::Frontier(count)).pending[i]).0 >= count by {
        only_completed_steps_are_released(after.pending, count);
    }
}

proof fn runs_stay_well_formed(task: TaskModel, events: Seq<TaskEvent>)
    requires
        task.wf(),
    ensures
        task.after_all(events).wf(),
    decreases events.len(),
{
    if events.len() > 0 {
        runs_stay_well_formed(task, events.drop_last());
        task_stays_well_formed(task.after_all(events.drop_last()), events.last());
    }
}

/// No message is acknowledged twice, and none that still waits has been
/// acknowledged, as long as the connection holds and no message ID is handed over
/// twice.
pub proof fn no_message_is_acknowledged_twice(task: TaskModel, events: Seq<TaskEvent>)
    requires
        task.wf(),
        forall|i: int| 0 <= i < events.len() ==> !((#[trigger] events[i]) is ConnectionLost),
        (all_ids(task.pending) + task.accepted_during(events)).no_duplicates(),
    ensures
        task.acks_during(events).no_duplicates(),
        forall|m: u64| #[trigger]
            task.acks_during(events).contains(m) ==> !all_ids(
                task.after_all(events).pending,
            ).contains(m),
{
    acknowledgments_are_conserved(task, events);
    parts_have_no_duplicates(task.acks_during(events), all_ids(task.after_all(events).pending));
}

proof fn parts_have_no_duplicates(a: Seq<u64>, b: Seq<u64>)
    requires
        (a + b).no_duplicates(),
    ensures
        a.no_duplicates(),
        b.no_duplicates(),
        forall|m: u64| #[trigger] a.contains(m) ==> !b.contains(m),
{
    let both = a + b;
    assert forall|i: int, j: int| 0 <= i < a.len() && 0 <= j < a.len() && i != j implies a[i]
        != a[j] by {
        assert(both[i] == a[i] && both[j] == a[j]);
    }
    assert forall|i: int, j: int| 0 <= i < b.len() && 0 <= j < b.len() && i != j implies b[i]
        != b[j] by {
        assert(both[a.len() + i] == b[i] && both[a.len() + j] == b[j]);
    }
    assert forall|m: u64| #[trigger] a.contains(m) implies !b.contains(m) by {
        if b.contains(m) {
            let i = choose|i: int| 0 <= i < a.len() && a[i] == m;
            let j = choose|j: int| 0 <= j < b.len() && b[j] == m;
            assert(both[i] == both[a.len() + j]);
        }
    }
}

/// The connection and the completion source hold during `events`, and no count
/// covers the given step.
pub open spec fn step_stays_open(events: Seq<TaskEvent>, step: u64) -> bool {
    forall|i: int|
        0 <= i < events.len() ==> match #[trigger] events[i] {
            TaskEvent::ConnectionLost | TaskEvent::SourceLost(_) => false,
            TaskEvent::Frontier(count) => count <= step,
            _ => true,
        }
}

/// As long as no count covers its step, a batch waits behind those that were waiting
/// before it, and only these are acknowledged. Returns its place.
proof fn batch_keeps_waiting(
    task: TaskModel,
    ahead: Seq<(u64, Vec<u64>)>,
    batch: (u64, Vec<u64>),
    events: Seq<TaskEvent>,
) -> (place: int)
    requires
        task.deferring,
        task.pending == ahead.push(batch),
        step_stays_open(events, batch.0),
    ensures
        0 <= place <= ahead.len(),
        place < task.after_all(events).pending.len(),
        task.after_all(events).pending[place] == batch,
        task.after_all(events).pending.take(place) == ahead.skip(ahead.len() - place),
        task.acks_during(events) + all_ids(ahead.skip(ahead.len() - place)) == all_ids(ahead),
        task.after_all(events).deferring,
    decreases events.len(),
{
    if events.len() == 0 {
        assert(task.pending.take(ahead.len() as int) == ahead.skip(0));
        assert(ahead.skip(0) == ahead);
        assert(Seq::<u64>::empty() + all_ids(ahead) == all_ids(ahead));
        ahead.len() as int
    } else {
        let before = events.drop_last();
        let event = events.last();
        assert(events[events.len() - 1] == event);
        assert forall|i: int| 0 <= i < before.len() implies match #[trigger] before[i] {
            TaskEvent::ConnectionLost | TaskEvent::SourceLost(_) => false,
            TaskEvent::Frontier(count) => count <= batch.0,
            _ => true,
        } by {
            assert(before[i] == events[i]);
        }
        let k = batch_keeps_waiting(task, ahead, batch, before);
        let mid = task.after_all(before);
        let acked = task.acks_during(before);
        match event {
            TaskEvent::Frontier(count) => {
                let n = ready_len(mid.pending, count) as int;
                only_a_complete_prefix_is_released(mid.pending, count);
                assert(n <= k) by {
                    if n > k {
                        assert(mid.pending[k].0 < count);
                    }
                }
                let waiting = ahead.skip(ahead.len() - k);
                let rest = ahead.skip(ahead.len() - k + n);
                assert(mid.pending.take(n) == mid.pending.take(k).take(n));
                assert(waiting.take(n) + rest == waiting);
                all_ids_concat(waiting.take(n), rest);
                assert(mid.acks_on(event) == all_ids(waiting.take(n)));
                assert((acked + mid.acks_on(event)) + all_ids(rest) == acked + (mid.acks_on(event)
                    + all_ids(rest)));
                assert(mid.pending.skip(n)[k - n] == mid.pending[k]);
                assert(mid.pending.skip(n).take(k - n) == mid.pending.take(k).skip(n));
                assert(mid.pending.take(k).skip(n) == rest);
                k - n
            },
            TaskEvent::Flush { ids, completed } => {
                let after = mid.after(event).pending;
                assert(after.take(k) == mid.pending.take(k));
                assert(after[k] == mid.pending[k]);
                assert(acked + Seq::<u64>::empty() == acked);
                k
            },
            _ => {
                assert(acked + Seq::<u64>::empty() == acked);
                k
            },
        }
    }
}

/// A message is acknowledged exactly when its step is complete. The flush that hands
/// it over acknowledges nothing and is answered at once; no count up to its step
/// releases the message, whatever else happens; the first later count does, and it
/// is then no longer waiting. It is never acknowledged twice.
///
/// This holds of every run in which the counts do not go back, for a message that is
/// flushed while acknowledgments are deferred, as long as the connection and the
/// completion source hold and no message ID is handed over twice.
pub proof fn messages_are_acknowledged_when_their_step_completes(
    start: TaskModel,
    history: Seq<TaskEvent>,
    ids: Vec<u64>,
    completed: Option<u64>,
    between: Seq<TaskEvent>,
    count: u64,
    m: u64,
)
    requires
        start.wf(),
        ordered(start.pending),
        start.flushes_in_order(history.push(TaskEvent::Flush { ids, completed })),
        start.after_all(history).connected,
        start.after_all(history).deferring,
        ids@.contains(m),
        ({
            let task = start.after_all(history);
            let flushed = task.after(TaskEvent::Flush { ids, completed });
            &&& step_stays_open(between, task.flush_key(completed))
            &&& (all_ids(task.pending) + ids@ + flushed.accepted_during(between)).no_duplicates()
            &&& count > task.flush_key(completed)
        }),
    ensures
        ({
            let task = start.after_all(history);
            let flushed = task.after(TaskEvent::Flush { ids, completed });
            let released = flushed.after_all(between).after(TaskEvent::Frontier(count));
            &&& task.acks_on(TaskEvent::Flush { ids, completed }) == Seq::<u64>::empty()
            &&& forall|n: int|
                0 <= n <= between.len() ==> !(#[trigger] flushed.acks_during(
                    between.take(n),
                )).contains(m)
            &&& flushed.after_all(between).acks_on(TaskEvent::Frontier(count)).contains(m)
            &&& flushed.acks_during(between.push(TaskEvent::Frontier(count))).no_duplicates()
            &&& !all_ids(released.pending).contains(m)
        }),
{
    let task = start.after_all(history);
    let flush = TaskEvent::Flush { ids, completed };
    let frontier = TaskEvent::Frontier(count);
    let flushed = task.after(flush);
    let key = task.flush_key(completed);
    let ahead = task.pending;
    let batch = (key, ids);
    let waiting = flushed.after_all(between);
    // The batches ahead belong to steps up to this one.
    assert(history.push(flush).drop_last() == history);
    waiting_batches_stay_ordered(start, history.push(flush));
    assert(flushed.pending == ahead.push(batch));
    assert forall|i: int| 0 <= i < ahead.len() implies (#[trigger] ahead[i]).0 <= key by {
        assert(flushed.pending[i].0 <= flushed.pending[ahead.len() as int].0);
    }
    // Nothing of the batch is acknowledged before its step is complete.
    let later = flushed.accepted_during(between);
    assert(all_ids(ahead) + ids@ + later == all_ids(ahead) + (ids@ + later));
    parts_have_no_duplicates(all_ids(ahead), ids@ + later);
    let j = choose|j: int| 0 <= j < ids@.len() && ids@[j] == m;
    assert((ids@ + later)[j] == m);
    assert forall|n: int| 0 <= n <= between.len() implies !(#[trigger] flushed.acks_during(
        between.take(n),
    )).contains(m) by {
        assert forall|i: int| 0 <= i < n implies match #[trigger] between.take(n)[i] {
            TaskEvent::ConnectionLost | TaskEvent::SourceLost(_) => false,
            TaskEvent::Frontier(c) => c <= key,
            _ => true,
        } by {
            assert(between.take(n)[i] == between[i]);
        }
        let place = batch_keeps_waiting(flushed, ahead, batch, between.take(n));
        let acked = flushed.acks_during(between.take(n));
        if acked.contains(m) {
            let i = choose|i: int| 0 <= i < acked.len() && acked[i] == m;
            assert((acked + all_ids(ahead.skip(ahead.len() - place)))[i] == m);
            assert(all_ids(ahead).contains(m));
            assert((ids@ + later).contains(m));
        }
    }
    // The count releases it, with all that waits ahead of it.
    let place = batch_keeps_waiting(flushed, ahead, batch, between);
    let n = ready_len(waiting.pending, count) as int;
    only_a_complete_prefix_is_released(waiting.pending, count);
    assert(n > place) by {
        if n < place {
            assert(waiting.pending.take(place)[n] == ahead.skip(ahead.len() - place)[n]);
            assert(waiting.pending[n] == ahead[ahead.len() - place + n]);
        }
    }
    let front = waiting.pending.take(place);
    let behind = waiting.pending.subrange(place + 1, n);
    assert(waiting.pending.take(n) == front + (seq![batch] + behind));
    all_ids_concat(front, seq![batch] + behind);
    all_ids_concat(seq![batch], behind);
    reveal_with_fuel(all_ids, 2);
    assert(seq![batch].drop_last() == Seq::<(u64, Vec<u64>)>::empty());
    assert(all_ids(seq![batch]) == ids@);
    let acks = waiting.acks_on(frontier);
    assert(acks == all_ids(front) + (ids@ + all_ids(behind)));
    assert(acks[all_ids(front).len() + j] == m);
    // Each is acknowledged once.
    let all = between.push(frontier);
    assert(all.drop_last() == between);
    assert(flushed.pending.drop_last() == ahead);
    assert(flushed.accepted_during(all) == later);
    runs_stay_well_formed(start, history);
    task_stays_well_formed(task, flush);
    assert forall|i: int| 0 <= i < all.len() implies !((#[trigger] all[i]) is ConnectionLost) by {
        if i < between.len() {
            assert(all[i] == between[i]);
        }
    }
    no_message_is_acknowledged_twice(flushed, all);
    assert(flushed.acks_during(all)[flushed.acks_during(between).len() + all_ids(front).len() + j]
        == m);
    assert(flushed.acks_during(all).contains(m));
}

impl TaskEvent {
    /// When the event happened, for those after which a retry may be due.
    pub open spec fn time(self) -> Option<Nanos> {
        match self {
            TaskEvent::Attempted { ended, .. } => Some(ended),
            TaskEvent::TornDown { now } => Some(now),
            _ => None,
        }
    }

    /// After the event, the task tries to connect again once the retry interval is
    /// over.
    pub open spec fn starts_retry_interval(self) -> bool {
        match self {
            TaskEvent::Attempted {
                attempt: Attempt::Failed(ConnectorError::Retryable(_)),
                ..
            } => true,
            TaskEvent::TornDown { .. } => true,
            _ => false,
        }
    }

    /// The event leaves a connection to tear down.
    pub open spec fn spoils_connection(self) -> bool {
        match self {
            TaskEvent::ConnectionLost => true,
            TaskEvent::Attempted { attempt: Attempt::StartFailed, .. } => true,
            _ => false,
        }
    }

    /// The event is about neither the connection nor the end of the task.
    pub open spec fn is_quiet(self) -> bool {
        match self {
            TaskEvent::Flush { .. } | TaskEvent::Frontier(_) | TaskEvent::SourceLost(_) => true,
            TaskEvent::Command(command) => command != Command::Disconnect,
            _ => false,
        }
    }
}

/// The clock never goes back, and the retry interval can be added to its readings.
pub open spec fn clock_runs(events: Seq<TaskEvent>, retry_interval_secs: u64) -> bool {
    &&& forall|i: int, j: int|
        0 <= i <= j < events.len() && (#[trigger] events[i]).time() is Some && (
        #[trigger] events[j]).time() is Some ==> events[i].time()->0 <= events[j].time()->0
    &&& forall|i: int|
        0 <= i < events.len() && (#[trigger] events[i]).time() is Some ==> seconds_after(
            events[i].time()->0,
            retry_interval_secs,
        ) <= Nanos::MAX
}

impl TaskModel {
    /// The event is one that the task waits for: connecting is tried when it is
    /// due, a connection is torn down when that is called for, and nothing happens
    /// after the end.
    pub open spec fn awaits(self, event: TaskEvent) -> bool {
        match self.wait() {
            Wait::Exit => false,
            Wait::TearDown => event is TornDown,
            Wait::Retry { due } => match event {
                TaskEvent::Attempted { started, .. } => started >= due,
                TaskEvent::Flush { .. } | TaskEvent::Command(_) | TaskEvent::Closed => true,
                _ => false,
            },
            Wait::Events { .. } => !(event is Attempted) && !(event is TornDown),
        }
    }

    /// Each of the events is one that the task waits for at that point.
    pub open spec fn awaits_all(self, events: Seq<TaskEvent>) -> bool {
        forall|i: int|
            0 <= i < events.len() ==> #[trigger] self.after_all(events.take(i)).awaits(events[i])
    }
}

proof fn next_state(task: TaskModel, events: Seq<TaskEvent>, i: int)
    requires
        0 <= i < events.len(),
    ensures
        task.after_all(events.take(i + 1)) == task.after_all(events.take(i)).after(events[i]),
{
    assert(events.take(i + 1).drop_last() == events.take(i));
}

proof fn interval_stays(task: TaskModel, events: Seq<TaskEvent>)
    ensures
        task.after_all(events).retry_interval_secs == task.retry_interval_secs,
    decreases events.len(),
{
    if events.len() > 0 {
        interval_stays(task, events.drop_last());
    }
}

/// Once event `i` has started the retry interval, no attempt is due before its end.
proof fn due_is_after_the_interval(task: TaskModel, events: Seq<TaskEvent>, i: int, k: int)
    requires
        clock_runs(events, task.retry_interval_secs),
        0 <= i < k <= events.len(),
        events[i].starts_retry_interval(),
    ensures
        task.after_all(events.take(k)).due matches Some(due) ==> due >= task.retry_time(
            events[i].time()->0,
        ),
    decreases k,
{
    let e = events[k - 1];
    next_state(task, events, k - 1);
    interval_stays(task, events.take(k - 1));
    if e.time() is Some {
        assert(seconds_after(e.time()->0, task.retry_interval_secs) <= Nanos::MAX);
        assert(events[i].time()->0 <= e.time()->0);
    }
    if k - 1 > i {
        due_is_after_the_interval(task, events, i, k - 1);
    }
}

/// No attempt to connect is started before the retry interval is over that began
/// with the end of an attempt that failed, or with the teardown of a connection.
pub proof fn no_attempt_before_the_retry_interval(
    task: TaskModel,
    events: Seq<TaskEvent>,
    i: int,
    j: int,
)
    requires
        task.awaits_all(events),
        clock_runs(events, task.retry_interval_secs),
        0 <= i < j < events.len(),
        events[i].starts_retry_interval(),
    ensures
        events[j] matches TaskEvent::Attempted { started, .. } ==> started >= task.retry_time(
            events[i].time()->0,
        ),
{
    due_is_after_the_interval(task, events, i, j);
    assert(task.after_all(events.take(j)).awaits(events[j]));
}

/// Between the loss of a connection, or a flow that did not start, and the next
/// attempt to connect, the connection is torn down. With
/// [`no_attempt_before_the_retry_interval`], the attempt comes no sooner than the
/// retry interval after the loss. Returns the place of the teardown.
pub proof fn lost_connections_are_torn_down(
    task: TaskModel,
    events: Seq<TaskEvent>,
    i: int,
    j: int,
) -> (k: int)
    requires
        task.awaits_all(events),
        0 <= i < j < events.len(),
        events[i].spoils_connection(),
        events[j] is Attempted,
    ensures
        i < k < j,
        events[k] is TornDown,
{
    let n = i + 1;
    assert(task.after_all(events.take(i)).awaits(events[i]));
    next_state(task, events, i);
    assert(task.after_all(events.take(n)).awaits(events[n]));
    n
}

/// A connection is tried again, however often that failed before: after a lost
/// connection that was torn down, and after a failure that is not fatal, the task
/// waits for the end of the retry interval, and it still does after whatever happens
/// short of a command to disconnect or the end of the commands.
pub proof fn connecting_is_tried_again(
    task: TaskModel,
    event: TaskEvent,
    events: Seq<TaskEvent>,
)
    requires
        task.awaits(event),
        event.starts_retry_interval(),
        task.retry_time(event.time()->0) <= Nanos::MAX,
        forall|i: int| 0 <= i < events.len() ==> (#[trigger] events[i]).is_quiet(),
    ensures
        task.after(event).after_all(events).wait() == (Wait::Retry {
            due: task.retry_time(event.time()->0) as u128,
        }),
        event is TornDown ==> task.after(event).state == task.state,
    decreases events.len(),
{
    if events.len() > 0 {
        let before = events.drop_last();
        assert forall|i: int| 0 <= i < before.len() implies (#[trigger] before[i]).is_quiet() by {
            assert(before[i] == events[i]);
        }
        connecting_is_tried_again(task, event, before);
        assert(events[events.len() - 1].is_quiet());
    }
}

/// A lost connection is torn down unless the task ends, and its waiting
/// acknowledgments are never sent: on a later flow only messages are acknowledged
/// that were handed over since.
pub proof fn lost_acknowledgments_are_not_sent_later(task: TaskModel, events: Seq<TaskEvent>)
    requires
        task.wf(),
        forall|i: int| 0 <= i < events.len() ==> !((#[trigger] events[i]) is ConnectionLost),
    ensures
        task.state != State::Done ==> task.after(TaskEvent::ConnectionLost).wait() is TearDown,
        task.after(TaskEvent::ConnectionLost).acks_during(events).is_prefix_of(
            task.after(TaskEvent::ConnectionLost).accepted_during(events),
        ),
{
    let lost = task.after(TaskEvent::ConnectionLost);
    acknowledgments_are_conserved(lost, events);
    let acks = lost.acks_during(events);
    let accepted = lost.accepted_during(events);
    assert(all_ids(lost.pending) + accepted == accepted);
    assert(accepted.take(acks.len() as int) == acks);
}

/// A fatal failure to connect ends the task: no event follows it.
pub proof fn a_fatal_failure_ends_the_task(task: TaskModel, events: Seq<TaskEvent>, i: int)
    requires
        task.awaits_all(events),
        0 <= i < events.len(),
        events[i] matches TaskEvent::Attempted {
            attempt: Attempt::Failed(ConnectorError::Fatal(_)),
            ..
        },
    ensures
        i == events.len() - 1,
        task.after_all(events).wait() is Exit,
{
    next_state(task, events, i);
    if i + 1 < events.len() {
        assert(task.after_all(events.take(i + 1)).awaits(events[i + 1]));
    }
    assert(events.take(i + 1) == events);
}

proof fn ready_len_of_pushed(pending: Seq<(u64, Vec<u64>)>, entry: (u64, Vec<u64>), frontier: u64)
    requires
        frontier <= entry.0,
    ensures
        ready_len(pending.push(entry), frontier) == ready_len(pending, frontier),
    decreases pending.len(),
{
    if pending.len() > 0 && pending[0].0 < frontier {
        ready_len_of_pushed(pending.drop_first(), entry, frontier);
        assert(pending.push(entry).drop_first() == pending.drop_first().push(entry));
    }
}

/// The run state is what the controller asked for last: running, paused, or done. Only
/// the end of the commands and a fatal failure to connect end the task besides.
pub proof fn run_state_is_what_was_asked_for(task: TaskModel, event: TaskEvent)
    ensures
        ({
            let fatal = event matches TaskEvent::Attempted {
                attempt: Attempt::Failed(ConnectorError::Fatal(_)),
                ..
            };
            let after = task.after(event).state;
            &&& event == TaskEvent::Command(Command::Extend) ==> after is Running
            &&& event == TaskEvent::Command(Command::Pause) ==> after is Paused
            &&& event == TaskEvent::Command(Command::Disconnect) || event is Closed || fatal
                ==> after is Done
            &&& after != task.state ==> event is Closed || fatal || event == TaskEvent::Command(
                Command::Extend,
            ) || event == TaskEvent::Command(Command::Pause) || event == TaskEvent::Command(
                Command::Disconnect,
            )
        }),
{
}

/// There is a connection from an attempt that succeeded until it is lost.
pub proof fn connections_last_until_they_are_lost(task: TaskModel, event: TaskEvent)
    ensures
        task.after(event).connected <==> (event matches TaskEvent::Attempted {
            attempt: Attempt::Connected,
            ..
        }) || (task.connected && !(event is ConnectionLost)),
{
}

/// Connecting is due `retry_interval_secs * 1_000_000_000` nanoseconds after an attempt
/// failed that may be repeated, or after a connection was torn down. It is not due while
/// there is a connection to use or to tear down, and nothing else changes when it is.
pub proof fn connecting_is_due_after_the_interval(task: TaskModel, event: TaskEvent)
    requires
        event.time() matches Some(time) ==> time + task.retry_interval_secs * 1_000_000_000
            <= Nanos::MAX,
    ensures
        ({
            let due = task.after(event).due;
            match event {
                TaskEvent::TornDown { now } => due matches Some(time) && time == now
                    + task.retry_interval_secs * 1_000_000_000,
                TaskEvent::Attempted { attempt, ended, .. } => match attempt {
                    Attempt::Connected | Attempt::StartFailed => due is None,
                    Attempt::Failed(ConnectorError::Fatal(_)) => due == task.due,
                    Attempt::Failed(ConnectorError::Retryable(_)) => due matches Some(time) && time
                        == ended + task.retry_interval_secs * 1_000_000_000,
                },
                TaskEvent::ConnectionLost => due is None,
                _ => due == task.due,
            }
        }),
        task.after(event).retry_interval_secs == task.retry_interval_secs,
{
}

/// Every flush counts as a step, and nothing else does. Whether and how acknowledgments
/// are deferred never changes; the completion source is there until it is lost.
pub proof fn flushes_are_counted(task: TaskModel, event: TaskEvent)
    requires
        task.step < u64::MAX,
    ensures
        task.after(event).step == task.step + if event is Flush {
            1int
        } else {
            0
        },
        task.after(event).deferring == task.deferring,
        task.after(event).strict == task.strict,
        task.after(event).source == if event is SourceLost {
            None
        } else {
            task.source
        },
{
}

/// A flush makes its messages wait, under the count of completed steps or, where that is
/// not known, under the number of flushes before it, exactly if there is a connection and
/// acknowledgments are deferred; an empty flush makes nothing wait. What waits leaves when
/// a count covers its step, when the source is lost, and when the connection is lost. No
/// other event changes what waits.
pub proof fn messages_wait_from_their_flush_on(task: TaskModel, event: TaskEvent)
    ensures
        match event {
            TaskEvent::Flush { ids, completed } => if task.connected && task.deferring
                && ids@.len() > 0 {
                &&& task.after(event).pending.len() == task.pending.len() + 1
                &&& task.after(event).pending.drop_last() == task.pending
                &&& task.after(event).pending.last().1 == ids
                &&& task.after(event).pending.last().0 == if completed is Some {
                    completed->0
                } else {
                    task.step
                }
            } else {
                task.after(event).pending == task.pending
            },
            TaskEvent::Frontier(count) => task.after(event).pending == withheld(
                task.pending,
                count,
            ),
            TaskEvent::SourceLost(last) => if task.strict {
                task.after(event).pending == withheld(task.pending, last)
            } else {
                task.after(event).pending.len() == 0
            },
            TaskEvent::ConnectionLost => task.after(event).pending.len() == 0,
            _ => task.after(event).pending == task.pending,
        },
{
}

/// Messages are acknowledged on hand-off exactly if there is a connection and nothing is
/// deferred. Of what waits, a count releases the steps that it covers. When the source is
/// lost, and when the task ends, everything is released, but in strict mode only what the
/// last count covers. On no other event is anything acknowledged.
pub proof fn only_these_events_acknowledge(task: TaskModel, event: TaskEvent, last: u64)
    ensures
        match event {
            TaskEvent::Flush { ids, .. } => task.acks_on(event) == if task.connected
                && !task.deferring {
                ids@
            } else {
                Seq::<u64>::empty()
            },
            TaskEvent::Frontier(count) => task.acks_on(event) == released(task.pending, count),
            TaskEvent::SourceLost(count) => task.acks_on(event) == if task.strict {
                released(task.pending, count)
            } else {
                all_ids(task.pending)
            },
            _ => task.acks_on(event).len() == 0,
        },
        task.strict ==> task.final_acks(last) == released(task.pending, last),
        !task.strict ==> task.final_acks(last) == all_ids(task.pending),
{
}

/// The task ends exactly if it is done. While there is a connection it waits for what
/// happens on it, and for messages exactly if it is running. Without one it waits for the
/// time at which connecting is due, or else tears down what is left of the last one.
pub proof fn the_task_waits_for_what_it_needs(task: TaskModel)
    ensures
        task.wait() is Exit <==> task.state is Done,
        task.wait() is Events <==> !(task.state is Done) && task.connected,
        task.wait() matches Wait::Events { messages } ==> (messages <==> task.state is Running),
        task.wait() is Retry <==> !(task.state is Done) && !task.connected && task.due is Some,
        task.wait() matches Wait::Retry { due } ==> task.due == Some(due),
        task.wait() is TearDown <==> !(task.state is Done) && !task.connected && task.due is None,
{
}

/// A task starts paused and without a connection, and connects at once. It defers
/// acknowledgments exactly if it has a completion source, and is strict exactly if that
/// is a durable checkpoint.
pub proof fn tasks_connect_at_once(
    source: Option<CompletionSource>,
    retry_interval_secs: u64,
    now: Nanos,
)
    ensures
        ({
            let task = TaskModel::initial(source, retry_interval_secs, now);
            &&& task.state is Paused
            &&& !task.connected
            &&& task.wait() == (Wait::Retry { due: now })
            &&& task.retry_interval_secs == retry_interval_secs
            &&& task.pending.len() == 0
            &&& task.step == 0
            &&& task.source == source
            &&& task.deferring <==> source is Some
            &&& task.strict <==> source == Some(CompletionSource::Checkpoint)
        }),
{
}

} // verus!
