//! Broker events and failures, and what they mean for a connection.

use vstd::prelude::*;
use vstd::string::*;

use crate::text::contained_texts_are_parts;
use crate::text::contains;
use crate::text::contains_text;
use crate::text::occurs_at;

verus! {

/// Events of a queue flow.
#[derive(Debug, Clone, Copy, PartialEq, Eq, Structural)]
pub enum FlowEvent {
    UpNotice,
    DownError,
    BindFailedError,
    RejectedMsgError,
    SessionDown,
    Active,
    Inactive,
    Reconnecting,
    Reconnected,
}

/// Events of a broker session.
#[derive(Debug, Clone, Copy, PartialEq, Eq, Structural)]
pub enum SessionEvent {
    UpNotice,
    DownError,
    ConnectFailedError,
    RejectedMsgError,
    SubscriptionError,
    RxMsgTooBigError,
    Acknowledgement,
    AssuredPublishingUp,
    AssuredDeliveryDown,
    TeUnsubscribeError,
    TeUnsubscribeOk,
    CanSend,
    ReconnectingNotice,
    ReconnectedNotice,
    ProvisionError,
    ProvisionOk,
    SubscriptionOk,
    VirtualRouterNameChanged,
    ModifypropOk,
    ModifypropFail,
    RepublishUnackedMessages,
}

/// Flow events that invalidate the connection.
pub open spec fn kills_flow(event: FlowEvent) -> bool {
    event == FlowEvent::DownError || event == FlowEvent::BindFailedError || event
        == FlowEvent::SessionDown
}

/// Session events that invalidate the connection.
pub open spec fn kills_session(event: SessionEvent) -> bool {
    event == SessionEvent::DownError || event == SessionEvent::ConnectFailedError
}

/// Flow events that invalidate the connection. Reconnect notices are the SDK
/// handling a blip within its own retry budget.
pub fn is_flow_failure(event: FlowEvent) -> (failure: bool)
    ensures
        failure == kills_flow(event),
        failure <==> event is DownError || event is BindFailedError || event is SessionDown,
{
    match event {
        FlowEvent::DownError | FlowEvent::BindFailedError | FlowEvent::SessionDown => true,
        _ => false,
    }
}

/// Session events that invalidate the connection. `DownError` comes after the
/// SDK's own retries are exhausted; from there recovery needs a fresh session.
pub fn is_session_failure(event: SessionEvent) -> (failure: bool)
    ensures
        failure == kills_session(event),
        failure <==> event is DownError || event is ConnectFailedError,
{
    match event {
        SessionEvent::DownError | SessionEvent::ConnectFailedError => true,
        _ => false,
    }
}

/// What one attempt to receive a buffered flow event gave.
#[derive(Debug, Clone, Copy, PartialEq, Eq, Structural)]
pub enum FlowPoll {
    Event(FlowEvent),
    Empty,
    Disconnected,
}

/// What to do after one attempt to receive a buffered flow event.
#[derive(Debug)]
pub enum DrainStep {
    /// The event is informational: receive the next one.
    More,
    /// No event is left and the flow is healthy.
    Healthy,
    /// The connection is lost, for this reason.
    Lost(String),
}

/// Decides what one buffered flow event means for the connection. `shown` is the
/// event's text.
pub fn drain_flow_events(poll: FlowPoll, shown: &str) -> (step: DrainStep)
    ensures
        match poll {
            FlowPoll::Event(event) => if kills_flow(event) {
                step matches DrainStep::Lost(m) && m@ == "flow failure event: "@ + shown@
            } else {
                step is More
            },
            FlowPoll::Empty => step is Healthy,
            FlowPoll::Disconnected => step matches DrainStep::Lost(m) && m@
                == "flow event channel closed"@,
        },
{
    match poll {
        FlowPoll::Event(event) => {
            if is_flow_failure(event) {
                let mut message = "flow failure event: ".to_owned();
                message.append(shown);
                DrainStep::Lost(message)
            } else {
                DrainStep::More
            }
        },
        FlowPoll::Empty => DrainStep::Healthy,
        FlowPoll::Disconnected => DrainStep::Lost("flow event channel closed".to_owned()),
    }
}

/// Decides what a session event means for the input connection: the reason for
/// which the connection is lost, if it is. `None` stands for a closed event
/// channel; `shown` is the event's text.
pub fn session_event_failure(event: Option<SessionEvent>, shown: &str) -> (lost: Option<String>)
    ensures
        match event {
            Some(event) => if kills_session(event) {
                lost matches Some(m) && m@ == "session failure event: "@ + shown@
            } else {
                lost is None
            },
            None => lost matches Some(m) && m@ == "session event channel closed"@,
        },
{
    match event {
        Some(event) => {
            if is_session_failure(event) {
                let mut message = "session failure event: ".to_owned();
                message.append(shown);
                Some(message)
            } else {
                None
            }
        },
        None => Some("session event channel closed".to_owned()),
    }
}

/// What the output connector does about a session event.
#[derive(Debug)]
pub struct OutputEventAction {
    /// The session cannot recover: the next publish builds a fresh one.
    pub poison: bool,
    /// The error to report through the controller's callback, which never stops
    /// the endpoint, and its tag.
    pub report: Option<(String, &'static str)>,
}

/// Decides what a session event of the output connector calls for. Failures of
/// the connection are reported without stopping the endpoint and poison the
/// session; everything else but a rejected message is informational.
pub fn drain_session_event(event: SessionEvent) -> (action: OutputEventAction)
    ensures
        action.poison == kills_session(event),
        action.poison <==> event is DownError || event is ConnectFailedError,
        match event {
            SessionEvent::DownError => action.report matches Some(r) && r.0@
                == "Solace session down; rebuilding on the next publish"@ && r.1@
                == "solace_output_down"@,
            SessionEvent::ConnectFailedError => action.report matches Some(r) && r.0@
                == "Solace connection failed; rebuilding on the next publish"@ && r.1@
                == "solace_output_connect_failed"@,
            SessionEvent::RejectedMsgError => action.report matches Some(r) && r.0@
                == "Solace rejected a published message"@ && r.1@ == "solace_output_rejected"@,
            _ => action.report is None,
        },
{
    match event {
        SessionEvent::DownError => OutputEventAction {
            poison: true,
            report: Some(
                (
                    "Solace session down; rebuilding on the next publish".to_owned(),
                    "solace_output_down",
                ),
            ),
        },
        SessionEvent::ConnectFailedError => OutputEventAction {
            poison: true,
            report: Some(
                (
                    "Solace connection failed; rebuilding on the next publish".to_owned(),
                    "solace_output_connect_failed",
                ),
            ),
        },
        SessionEvent::RejectedMsgError => OutputEventAction {
            poison: false,
            report: Some(
                ("Solace rejected a published message".to_owned(), "solace_output_rejected"),
            ),
        },
        _ => OutputEventAction { poison: false, report: None },
    }
}

/// The text `s` in lower case, as the Unicode derived core property Lowercase
/// has it: what `str::to_lowercase` returns for `s`.
pub uninterp spec fn lower_case(s: Seq<char>) -> Seq<char>;

/// Every character is an ASCII character.
pub open spec fn is_ascii_text(s: Seq<char>) -> bool {
    forall|i: int| 0 <= i < s.len() ==> (#[trigger] s[i]) <= '\u{7f}'
}

/// The lower-case letter for an ASCII upper-case one; any other character is
/// left as it is.
pub open spec fn ascii_lower(c: char) -> char {
    if 'A' <= c <= 'Z' {
        (c as u32 + 32) as char
    } else {
        c
    }
}

/// `s` with each ASCII upper-case letter in lower case.
pub open spec fn ascii_lower_text(s: Seq<char>) -> Seq<char> {
    s.map_values(|c: char| ascii_lower(c))
}

/// `str::to_lowercase` of the standard library: the lower-case equivalent of the
/// text, which depends on the text alone. In an ASCII text the letters `A` to `Z`
/// become `a` to `z` and nothing else changes; what becomes of other characters
/// is left to Unicode.
#[verifier::external_body]
fn to_lower_case(s: &str) -> (lower: String)
    ensures
        lower@ == lower_case(s@),
        is_ascii_text(s@) ==> lower@ == ascii_lower_text(s@),
{
    s.to_lowercase()
}

/// A lower-case error text that holds one of the markers of a permanent failure:
/// bad credentials, missing authorization, or a queue that does not exist.
pub open spec fn marks_fatal(lower: Seq<char>) -> bool {
    ||| contains_text(lower, "login failure"@)
    ||| contains_text(lower, "unauthorized"@)
    ||| contains_text(lower, "acl denied"@)
    ||| contains_text(lower, "unknown queue"@)
    ||| contains_text(lower, "queue not found"@)
}

/// Reports whether a lower-case error text indicates a permanent failure.
pub fn is_fatal_lower_case(lower: &str) -> (fatal: bool)
    ensures
        fatal == marks_fatal(lower@),
        fatal <==> contains_text(lower@, "login failure"@) || contains_text(
            lower@,
            "unauthorized"@,
        ) || contains_text(lower@, "acl denied"@) || contains_text(lower@, "unknown queue"@)
            || contains_text(lower@, "queue not found"@),
{
    contains(lower, "login failure") || contains(lower, "unauthorized") || contains(
        lower,
        "acl denied",
    ) || contains(lower, "unknown queue") || contains(lower, "queue not found")
}

/// Reports whether an SDK error text indicates a permanent failure. Upper and
/// lower case make no difference; anything unrecognized is retryable.
pub fn is_fatal_error_text(text: &str) -> (fatal: bool)
    ensures
        fatal == marks_fatal(lower_case(text@)),
        is_ascii_text(text@) ==> fatal == marks_fatal(ascii_lower_text(text@)),
{
    let lower = to_lower_case(text);
    is_fatal_lower_case(lower.as_str())
}

/// Failure classification for connection attempts.
///
/// Classification errs toward `Retryable`: a wrong `Fatal` permanently stops the
/// endpoint, while a wrong `Retryable` merely retries noisily.
#[derive(Debug)]
pub enum ConnectorError {
    /// Authentication, authorization, or configuration failure that a retry
    /// cannot fix.
    Fatal(String),
    /// Transient failure, retried with a fresh session.
    Retryable(String),
}

impl ConnectorError {
    /// The error text.
    pub open spec fn message(&self) -> Seq<char> {
        match *self {
            ConnectorError::Fatal(m) => m@,
            ConnectorError::Retryable(m) => m@,
        }
    }
}

/// Classifies a connection-attempt failure as fatal or retryable.
pub fn classify_connect_failure(err: String) -> (classified: ConnectorError)
    ensures
        classified is Fatal <==> marks_fatal(lower_case(err@)),
        is_ascii_text(err@) ==> (classified is Fatal <==> marks_fatal(ascii_lower_text(err@))),
        classified.message() == err@,
        classified matches ConnectorError::Fatal(m) ==> m@ == err@,
        classified matches ConnectorError::Retryable(m) ==> m@ == err@,
{
    if is_fatal_error_text(err.as_str()) {
        ConnectorError::Fatal(err)
    } else {
        ConnectorError::Retryable(err)
    }
}

/// The failure of building a session, for the SDK error `e`.
pub fn session_connect_failure(e: &str) -> (classified: ConnectorError)
    ensures
        classified.message() == "session connect: "@ + e@,
        classified is Fatal <==> marks_fatal(lower_case("session connect: "@ + e@)),
        is_ascii_text(e@) ==> (classified is Fatal <==> marks_fatal(ascii_lower_text(e@))),
{
    proof {
        reveal_strlit("session connect: ");
        passing_session_failures_are_retried(ascii_lower_text(e@));
        assert(ascii_lower_text("session connect: "@ + e@) == "session connect: "@
            + ascii_lower_text(e@));
    }
    let mut message = "session connect: ".to_owned();
    message.append(e);
    classify_connect_failure(message)
}

/// The failure of binding a flow to `queue`, for the SDK error `e`.
pub fn flow_bind_failure(queue: &str, e: &str) -> (classified: ConnectorError)
    ensures
        classified.message() == "flow bind to queue "@ + queue@ + ": "@ + e@,
        classified is Fatal <==> marks_fatal(
            lower_case("flow bind to queue "@ + queue@ + ": "@ + e@),
        ),
        is_ascii_text(queue@) && is_ascii_text(e@) ==> (classified is Fatal <==> marks_fatal(
            ascii_lower_text(queue@),
        ) || marks_fatal(ascii_lower_text(e@)) || occurs_at(
            ascii_lower_text(queue@),
            "not found"@,
            0,
        )),
{
    proof {
        reveal_strlit("flow bind to queue ");
        reveal_strlit(": ");
        passing_bind_failures_are_retried(ascii_lower_text(queue@), ascii_lower_text(e@));
        assert(ascii_lower_text("flow bind to queue "@ + queue@ + ": "@ + e@)
            == "flow bind to queue "@ + ascii_lower_text(queue@) + ": "@ + ascii_lower_text(e@));
    }
    let mut message = "flow bind to queue ".to_owned();
    message.append(queue);
    message.append(": ");
    message.append(e);
    classify_connect_failure(message)
}

/// The failure of the task that connects, which is always retried.
pub fn connect_task_failure(e: &str) -> (classified: ConnectorError)
    ensures
        classified is Retryable,
        classified.message() == "connect task failed: "@ + e@,
{
    let mut message = "connect task failed: ".to_owned();
    message.append(e);
    ConnectorError::Retryable(message)
}

/// A failure is fatal exactly if its lower-case text holds one of five texts:
/// `login failure`, `unauthorized`, `acl denied`, `unknown queue` and `queue not
/// found`. Anything else is retried.
pub proof fn only_five_texts_are_fatal(lower: Seq<char>)
    ensures
        marks_fatal(lower) <==> ({
            ||| exists|a: Seq<char>, b: Seq<char>| lower == #[trigger] (a + "login failure"@ + b)
            ||| exists|a: Seq<char>, b: Seq<char>| lower == #[trigger] (a + "unauthorized"@ + b)
            ||| exists|a: Seq<char>, b: Seq<char>| lower == #[trigger] (a + "acl denied"@ + b)
            ||| exists|a: Seq<char>, b: Seq<char>| lower == #[trigger] (a + "unknown queue"@ + b)
            ||| exists|a: Seq<char>, b: Seq<char>| lower == #[trigger] (a + "queue not found"@ + b)
        }),
{
    contained_texts_are_parts(lower, "login failure"@);
    contained_texts_are_parts(lower, "unauthorized"@);
    contained_texts_are_parts(lower, "acl denied"@);
    contained_texts_are_parts(lower, "unknown queue"@);
    contained_texts_are_parts(lower, "queue not found"@);
}

/// In an ASCII text, each letter from `A` to `Z` becomes the one that stands 32 code
/// points behind it, and nothing else changes.
pub proof fn ascii_letters_become_lower_case(s: Seq<char>)
    ensures
        ascii_lower_text(s).len() == s.len(),
        forall|i: int|
            0 <= i < s.len() ==> #[trigger] ascii_lower_text(s)[i] as int == s[i] as int + if 65
                <= s[i] as int <= 90 {
                32int
            } else {
                0
            },
{
}

/// What occurs in a part of a text occurs in the text.
proof fn parts_are_contained(a: Seq<char>, b: Seq<char>, c: Seq<char>, needle: Seq<char>)
    requires
        contains_text(b, needle),
    ensures
        contains_text(a + b + c, needle),
{
    let at = choose|at: int| occurs_at(b, needle, at);
    let whole = a + b + c;
    let n = a.len() + at;
    assert(whole.subrange(n, n + needle.len()) == b.subrange(at, at + needle.len()));
    assert(occurs_at(whole, needle, n));
}

/// Where a text without a colon and without a blank in front occurs in `left`, a colon
/// and a blank, and `right`, it occurs on one side of them.
proof fn colons_part_texts(left: Seq<char>, right: Seq<char>, needle: Seq<char>)
    requires
        needle.len() > 0,
        needle[0] != ' ',
        forall|i: int| 0 <= i < needle.len() ==> #[trigger] needle[i] != ':',
        contains_text(left + ": "@ + right, needle),
    ensures
        contains_text(left, needle) || contains_text(right, needle),
{
    reveal_strlit(": ");
    let whole = left + ": "@ + right;
    let at = choose|at: int| occurs_at(whole, needle, at);
    let found = whole.subrange(at, at + needle.len());
    let n = left.len() as int;
    assert(whole[n] == ':');
    assert(whole[n + 1] == ' ');
    if at + needle.len() <= n {
        assert(left.subrange(at, at + needle.len()) == found);
        assert(occurs_at(left, needle, at));
    } else if at <= n {
        assert(found[n - at] == ':');
        assert(needle[n - at] != ':');
    } else if at == n + 1 {
        assert(found[0] == ' ');
    } else {
        let m = at - n - 2;
        assert(right.subrange(m, m + needle.len()) == found);
        assert(occurs_at(right, needle, m));
    }
}

/// Where a text occurs in `"flow bind to queue "` and a name, it occurs in the name,
/// or is `queue not found` for a name that begins with `not found`.
proof fn bind_prefix_holds_no_marker(name: Seq<char>, needle: Seq<char>)
    requires
        contains_text("flow bind to queue "@ + name, needle),
        ({
            ||| needle == "login failure"@
            ||| needle == "unauthorized"@
            ||| needle == "acl denied"@
            ||| needle == "unknown queue"@
            ||| needle == "queue not found"@
        }),
    ensures
        contains_text(name, needle) || (needle == "queue not found"@ && occurs_at(
            name,
            "not found"@,
            0,
        )),
{
    reveal_strlit("flow bind to queue ");
    reveal_strlit("login failure");
    reveal_strlit("unauthorized");
    reveal_strlit("acl denied");
    reveal_strlit("unknown queue");
    reveal_strlit("queue not found");
    reveal_strlit("not found");
    let prefix = "flow bind to queue "@;
    let whole = prefix + name;
    let at = choose|at: int| occurs_at(whole, needle, at);
    let found = whole.subrange(at, at + needle.len());
    if at >= prefix.len() {
        let m = at - prefix.len();
        assert(name.subrange(m, m + needle.len()) == found);
        assert(occurs_at(name, needle, m));
    } else {
        assert(found[0] == prefix[at]);
        assert(found[1] == whole[at + 1]);
        assert(found[2] == whole[at + 2]);
        assert(at == 13 && needle == "queue not found"@);
        assert forall|i: int| 0 <= i < 9 implies #[trigger] name[i] == "not found"@[i] by {
            assert(found[i + 6] == whole[19 + i]);
        }
        assert(name.subrange(0, 9) == "not found"@);
    }
}

/// The failure to bind a flow is fatal exactly if the queue name or the SDK error
/// tells of a permanent failure, or the queue name begins with `not found`, which the
/// text of the failure turns into `queue not found`. Any other one is retried.
pub proof fn passing_bind_failures_are_retried(queue: Seq<char>, e: Seq<char>)
    ensures
        marks_fatal("flow bind to queue "@ + queue + ": "@ + e) <==> marks_fatal(queue)
            || marks_fatal(e) || occurs_at(queue, "not found"@, 0),
{
    reveal_strlit("flow bind to queue ");
    reveal_strlit("login failure");
    reveal_strlit("unauthorized");
    reveal_strlit("acl denied");
    reveal_strlit("unknown queue");
    reveal_strlit("queue not found");
    reveal_strlit("not found");
    let prefix = "flow bind to queue "@;
    let whole = prefix + queue + ": "@ + e;
    let markers = seq![
        "login failure"@,
        "unauthorized"@,
        "acl denied"@,
        "unknown queue"@,
        "queue not found"@,
    ];
    assert forall|i: int| 0 <= i < 5 implies (contains_text(whole, #[trigger] markers[i])
        <==> contains_text(queue, markers[i]) || contains_text(e, markers[i]) || (i == 4
        && occurs_at(queue, "not found"@, 0))) by {
        let marker = markers[i];
        if contains_text(whole, marker) {
            colons_part_texts(prefix + queue, e, marker);
            if contains_text(prefix + queue, marker) {
                bind_prefix_holds_no_marker(queue, marker);
                assert(marker.len() == 15 <==> i == 4);
            }
        }
        if contains_text(queue, marker) {
            parts_are_contained(prefix, queue, ": "@ + e, marker);
            assert(prefix + queue + (": "@ + e) == whole);
        }
        if contains_text(e, marker) {
            parts_are_contained(prefix + queue + ": "@, e, Seq::empty(), marker);
            assert(whole + Seq::<char>::empty() == whole);
        }
        if i == 4 && occurs_at(queue, "not found"@, 0) {
            let found = whole.subrange(13, 28);
            assert forall|k: int| 0 <= k < 15 implies #[trigger] found[k] == marker[k] by {
                assert(found[k] == whole[13 + k]);
                if k >= 6 {
                    assert(queue.subrange(0, 9)[k - 6] == queue[k - 6]);
                }
            }
            assert(found == marker);
            assert(occurs_at(whole, marker, 13));
        }
    }
    assert(markers[0] == "login failure"@ && markers[1] == "unauthorized"@ && markers[2]
        == "acl denied"@ && markers[3] == "unknown queue"@ && markers[4] == "queue not found"@);
}

/// The failure to build a session is fatal exactly if the SDK error tells of a
/// permanent failure.
pub proof fn passing_session_failures_are_retried(e: Seq<char>)
    ensures
        marks_fatal("session connect: "@ + e) <==> marks_fatal(e),
{
    reveal_strlit("session connect: ");
    reveal_strlit(": ");
    reveal_strlit("login failure");
    reveal_strlit("unauthorized");
    reveal_strlit("acl denied");
    reveal_strlit("unknown queue");
    reveal_strlit("queue not found");
    let prefix = "session connect: "@;
    let left = prefix.take(15);
    let whole = prefix + e;
    assert(left + ": "@ == prefix);
    let markers = seq![
        "login failure"@,
        "unauthorized"@,
        "acl denied"@,
        "unknown queue"@,
        "queue not found"@,
    ];
    assert forall|i: int| 0 <= i < 5 implies (contains_text(whole, #[trigger] markers[i])
        <==> contains_text(e, markers[i])) by {
        let marker = markers[i];
        if contains_text(whole, marker) {
            colons_part_texts(left, e, marker);
            if contains_text(left, marker) {
                let at = choose|at: int| occurs_at(left, marker, at);
                assert(left.subrange(at, at + marker.len())[0] == left[at]);
                assert(left[at] == prefix[at]);
            }
        }
        if contains_text(e, marker) {
            parts_are_contained(prefix, e, Seq::empty(), marker);
            assert(whole + Seq::<char>::empty() == whole);
        }
    }
    assert(markers[0] == "login failure"@ && markers[1] == "unauthorized"@ && markers[2]
        == "acl denied"@ && markers[3] == "unknown queue"@ && markers[4] == "queue not found"@);
}

} // verus!
