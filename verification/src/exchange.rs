//! One request from its start to its end: what to do next, what to say, what to record, and
//! what comes out, for each thing that can happen on the way.

use axum::http::{HeaderMap, HeaderValue};
use vstd::prelude::*;
use vstd::string::*;
use vstd::utf8::encode_utf8;

use crate::headers::{empty_headers, header_values, lower, only, set_header};
use crate::laws::the_last_state_wins;
use crate::run_state::{next_count, phase_name, phase_text, RunState, RunView};
use crate::text::{decimal, decimal_is_digits, decimal_text, is_visible};
use crate::tracker::{
    new_status, recorded, request_id, request_id_is_visible, thread_text, updated, without,
    RequestTracker, StatusView,
};

verus! {

/// How far a request has come.
#[derive(Clone, Copy, Debug, PartialEq, Eq, Structural)]
pub enum Stage {
    /// It waits to be let through.
    AwaitingPermit,
    /// It was sent, and waits for the head of the response.
    AwaitingResponse,
    /// It waits for the body of the response.
    ReadingBody,
    /// It has come to its end.
    Finished,
}

/// What can happen to a request.
#[derive(Debug)]
pub enum ExchangeEvent {
    /// It was let through.
    PermitAcquired,
    /// It was not let through in time.
    PermitTimedOut,
    /// The head of the response came, with this status.
    Responded(String),
    /// Sending it failed, for this reason.
    SendFailed(String),
    /// The head of the response did not come in time.
    SendTimedOut,
    /// The body of the response came.
    BodyRead(String),
    /// Reading the body failed, for this reason.
    BodyFailed(String),
    /// The body of the response did not come in time.
    BodyTimedOut,
}

/// What to do next for a request.
pub enum ExchangeAction {
    /// Send it with these headers, and wait this many seconds for the head of the response.
    Send { headers: HeaderMap<HeaderValue>, wait_secs: u64 },
    /// Read the body of the response, and wait this many seconds for it.
    ReadBody { wait_secs: u64 },
    /// Hand out the result.
    Finish(Result<String, String>),
}

/// What to say about a request, and what to do next for it.
pub struct ExchangeStep {
    pub line: String,
    pub action: ExchangeAction,
}

/// A request between its start and its end.
pub struct Exchange {
    id: String,
    task_id: u32,
    timeout_secs: u64,
    stage: Stage,
}

/// What an [`Exchange`] holds.
pub struct ExchangeView {
    /// The name under which the request is tracked.
    pub id: Seq<char>,
    /// The number that the caller gave it.
    pub task_id: u32,
    /// The seconds that each of its waits for the server lasts at most.
    pub timeout_secs: u64,
    /// How far it has come.
    pub stage: Stage,
}

impl View for Exchange {
    type V = ExchangeView;

    closed spec fn view(&self) -> ExchangeView {
        ExchangeView {
            id: self.id@,
            task_id: self.task_id,
            timeout_secs: self.timeout_secs,
            stage: self.stage,
        }
    }
}

/// What an event does to a request at a stage.
pub struct Transition {
    /// The stage after it.
    pub stage: Stage,
    /// The state that is recorded for the request.
    pub state: Seq<char>,
    /// The request is no longer tracked after it.
    pub completed: bool,
    /// It is a hang.
    pub hang: bool,
}

/// What an event does to a request at a stage, or nothing where it cannot happen there.
pub open spec fn transition(stage: Stage, event: ExchangeEvent) -> Option<Transition> {
    match (stage, event) {
        (Stage::AwaitingPermit, ExchangeEvent::PermitAcquired) => Some(
            Transition {
                stage: Stage::AwaitingResponse,
                state: "connecting"@,
                completed: false,
                hang: false,
            },
        ),
        (Stage::AwaitingPermit, ExchangeEvent::PermitTimedOut) => Some(
            Transition {
                stage: Stage::AwaitingResponse,
                state: "connecting"@,
                completed: false,
                hang: false,
            },
        ),
        (Stage::AwaitingResponse, ExchangeEvent::Responded(_)) => Some(
            Transition {
                stage: Stage::ReadingBody,
                state: "reading_body"@,
                completed: false,
                hang: false,
            },
        ),
        (Stage::AwaitingResponse, ExchangeEvent::SendFailed(_)) => Some(
            Transition {
                stage: Stage::Finished,
                state: "request_error"@,
                completed: true,
                hang: false,
            },
        ),
        (Stage::AwaitingResponse, ExchangeEvent::SendTimedOut) => Some(
            Transition {
                stage: Stage::Finished,
                state: "request_timeout"@,
                completed: false,
                hang: true,
            },
        ),
        (Stage::ReadingBody, ExchangeEvent::BodyRead(_)) => Some(
            Transition {
                stage: Stage::Finished,
                state: "completed"@,
                completed: true,
                hang: false,
            },
        ),
        (Stage::ReadingBody, ExchangeEvent::BodyFailed(_)) => Some(
            Transition {
                stage: Stage::Finished,
                state: "body_error"@,
                completed: true,
                hang: false,
            },
        ),
        (Stage::ReadingBody, ExchangeEvent::BodyTimedOut) => Some(
            Transition {
                stage: Stage::Finished,
                state: "body_timeout"@,
                completed: false,
                hang: true,
            },
        ),
        _ => None,
    }
}

/// What is said when a request starts.
pub open spec fn start_line(id: Seq<char>, timeout_secs: u64) -> Seq<char> {
    "📤 "@ + id + " started (timeout: "@ + decimal(timeout_secs as nat) + "s)"@
}

/// The number of bytes of a text.
pub open spec fn byte_length(text: Seq<char>) -> usize {
    encode_utf8(text).len() as usize
}

/// What is said about a request when something happens to it.
pub open spec fn event_line(id: Seq<char>, event: ExchangeEvent) -> Seq<char> {
    match event {
        ExchangeEvent::PermitAcquired => "   "@ + id + " acquired throttle permit"@,
        ExchangeEvent::PermitTimedOut => "   "@ + id + " failed to acquire throttle permit"@,
        ExchangeEvent::Responded(status) => "   "@ + id + " got response: "@ + status@,
        ExchangeEvent::SendFailed(error) => "❌ "@ + id + " request error: "@ + error@,
        ExchangeEvent::SendTimedOut => "⏱️ "@ + id + " request TIMED OUT"@,
        ExchangeEvent::BodyRead(body) => "📩 "@ + id + " completed with body of "@ + decimal(
            byte_length(body@) as nat,
        ) + " bytes"@,
        ExchangeEvent::BodyFailed(error) => "❌ "@ + id + " body read error: "@ + error@,
        ExchangeEvent::BodyTimedOut => "⏱️ "@ + id + " body read TIMED OUT"@,
    }
}

/// The result of a request that ends with an event; nothing for an event that ends none.
pub open spec fn outcome(event: ExchangeEvent) -> Option<Result<Seq<char>, Seq<char>>> {
    match event {
        ExchangeEvent::SendFailed(error) => Some(Err("Request error: "@ + error@)),
        ExchangeEvent::SendTimedOut => Some(Err("HANG DETECTED: Request timed out"@)),
        ExchangeEvent::BodyRead(body) => Some(Ok(body@)),
        ExchangeEvent::BodyFailed(error) => Some(Err("Body read error: "@ + error@)),
        ExchangeEvent::BodyTimedOut => Some(Err("HANG DETECTED: Body read timed out"@)),
        _ => None,
    }
}

/// The text of a result.
pub open spec fn result_text(result: Result<String, String>) -> Result<Seq<char>, Seq<char>> {
    match result {
        Ok(text) => Ok(text@),
        Err(text) => Err(text@),
    }
}

/// The headers of a request.
pub open spec fn request_headers(
    id: Seq<char>,
    task_id: u32,
    post_drop: bool,
) -> Map<Seq<char>, Seq<Seq<u8>>> {
    map![
        "x-request-id"@ => only(id),
        "x-task-id"@ => only(decimal(task_id as nat)),
        "x-phase"@ => only(phase_text(post_drop)),
        "user-agent"@ => only("hyper-tokio-test-agent/1.0"@),
        "connection"@ => only("keep-alive"@),
    ]
}

/// What to do next for a request that has come to a stage through an event.
pub open spec fn is_next_action(
    action: ExchangeAction,
    exchange: ExchangeView,
    post_drop: bool,
    stage: Stage,
    event: ExchangeEvent,
) -> bool {
    match stage {
        Stage::AwaitingResponse => {
            &&& action matches ExchangeAction::Send { headers, wait_secs }
            &&& header_values(headers) == request_headers(exchange.id, exchange.task_id, post_drop)
            &&& wait_secs == exchange.timeout_secs
        },
        Stage::ReadingBody => {
            &&& action matches ExchangeAction::ReadBody { wait_secs }
            &&& wait_secs == exchange.timeout_secs
        },
        Stage::Finished => {
            &&& action matches ExchangeAction::Finish(result)
            &&& outcome(event) == Some(result_text(result))
        },
        Stage::AwaitingPermit => false,
    }
}

/// The requests after a transition of the one with this name.
pub open spec fn requests_after(
    requests: Seq<StatusView>,
    id: Seq<char>,
    change: Transition,
    now: u64,
) -> Seq<StatusView> {
    let moved = updated(requests, id, change.state, now);
    if change.completed {
        without(moved, id)
    } else {
        moved
    }
}

/// The shared state after a transition.
pub open spec fn run_after(run: RunView, change: Transition) -> RunView {
    if change.hang {
        run.with_hang()
    } else {
        run
    }
}

/// The headers of a request.
fn build_request_headers(id: &str, task_id: u32, post_drop: bool) -> (headers: HeaderMap<
    HeaderValue,
>)
    requires
        is_visible(id@),
    ensures
        header_values(headers) == request_headers(id@, task_id, post_drop),
{
    proof {
        reveal_strlit("X-Request-Id");
        reveal_strlit("x-request-id");
        reveal_strlit("X-Task-Id");
        reveal_strlit("x-task-id");
        reveal_strlit("X-Phase");
        reveal_strlit("x-phase");
        reveal_strlit("User-Agent");
        reveal_strlit("user-agent");
        reveal_strlit("Connection");
        reveal_strlit("connection");
        reveal_strlit("post-drop");
        reveal_strlit("normal");
        reveal_strlit("hyper-tokio-test-agent/1.0");
        reveal_strlit("keep-alive");
        assert(lower("X-Request-Id"@) =~= "x-request-id"@);
        assert(lower("X-Task-Id"@) =~= "x-task-id"@);
        assert(lower("X-Phase"@) =~= "x-phase"@);
        assert(lower("User-Agent"@) =~= "user-agent"@);
        assert(lower("Connection"@) =~= "connection"@);
        decimal_is_digits(task_id as nat);
    }
    let mut headers = empty_headers();
    set_header(&mut headers, "X-Request-Id", id);
    set_header(&mut headers, "X-Task-Id", decimal_text(task_id as u64).as_str());
    set_header(&mut headers, "X-Phase", phase_name(post_drop));
    set_header(&mut headers, "User-Agent", "hyper-tokio-test-agent/1.0");
    set_header(&mut headers, "Connection", "keep-alive");
    headers
}

/// Three texts in a row.
fn joined(first: &str, second: &str, third: &str) -> (text: String)
    ensures
        text@ == first@ + second@ + third@,
{
    let mut text: String = String::from_str(first);
    text.append(second);
    text.append(third);
    text
}

impl Exchange {
    /// The name of the request can stand in a header.
    pub open spec fn wf(&self) -> bool {
        is_visible(self@.id)
    }

    /// The name under which the request is tracked.
    pub fn id(&self) -> (id: &str)
        ensures
            id@ == self@.id,
    {
        self.id.as_str()
    }

    /// How far the request has come.
    pub fn stage(&self) -> (stage: Stage)
        ensures
            stage == self@.stage,
    {
        self.stage
    }

    /// Starts a request: tracks it, and returns it with what to say and the seconds to wait
    /// until it is let through.
    pub fn start(
        tracker: &mut RequestTracker,
        run: &mut RunState,
        task_id: u32,
        url: &str,
        timeout_secs: u64,
        now: u64,
        thread_name: Option<&str>,
    ) -> (started: (Exchange, String, u64))
        requires
            old(tracker).wf(),
        ensures
            final(tracker).wf(),
            started.0.wf(),
            started.0@ == (ExchangeView {
                id: request_id(task_id, old(run)@.next_serial),
                task_id,
                timeout_secs,
                stage: Stage::AwaitingPermit,
            }),
            started.1@ == start_line(started.0@.id, timeout_secs),
            started.2 == timeout_secs / 2,
            final(tracker)@ == updated(
                recorded(
                    old(tracker)@,
                    new_status(old(run)@, task_id, url@, now, thread_text(thread_name)),
                ),
                started.0@.id,
                "acquiring_permit"@,
                now,
            ),
            final(run)@ == (RunView {
                next_serial: next_count(old(run)@.next_serial),
                ..old(run)@
            }),
    {
        let ghost serial = run@.next_serial;
        let id: String = tracker.create_request(run, task_id, url, now, thread_name);
        let ghost made = tracker@;
        proof {
            request_id_is_visible(task_id, serial);
        }
        let mut line: String = String::from_str("📤 ");
        line.append(id.as_str());
        line.append(" started (timeout: ");
        line.append(decimal_text(timeout_secs).as_str());
        line.append("s)");
        tracker.update_state(id.as_str(), "started", now);
        tracker.update_state(id.as_str(), "acquiring_permit", now);
        proof {
            the_last_state_wins(made, id@, "started"@, now, "acquiring_permit"@, now);
        }
        let exchange = Exchange { id, task_id, timeout_secs, stage: Stage::AwaitingPermit };
        (exchange, line, timeout_secs / 2)
    }

    /// Takes the request from one stage to the next: records what happened, and returns what to
    /// say and what to do. An event that cannot happen at the stage changes nothing, and nothing
    /// is returned.
    pub fn advance(
        &mut self,
        event: ExchangeEvent,
        tracker: &mut RequestTracker,
        run: &mut RunState,
        now: u64,
    ) -> (step: Option<ExchangeStep>)
        requires
            old(self).wf(),
            old(tracker).wf(),
        ensures
            final(self).wf(),
            final(tracker).wf(),
            match transition(old(self)@.stage, event) {
                Some(change) => {
                    &&& final(self)@ == (ExchangeView { stage: change.stage, ..old(self)@ })
                    &&& final(tracker)@ == requests_after(
                        old(tracker)@,
                        old(self)@.id,
                        change,
                        now,
                    )
                    &&& final(run)@ == run_after(old(run)@, change)
                    &&& step matches Some(next)
                    &&& next.line@ == event_line(old(self)@.id, event)
                    &&& is_next_action(
                        next.action,
                        old(self)@,
                        old(run)@.post_drop_phase,
                        change.stage,
                        event,
                    )
                },
                None => {
                    &&& step is None
                    &&& final(self)@ == old(self)@
                    &&& final(tracker)@ == old(tracker)@
                    &&& final(run)@ == old(run)@
                },
            },
            step is Some ==> final(run)@.hang_detected == (old(run)@.hang_detected || event
                is SendTimedOut || event is BodyTimedOut),
            event matches ExchangeEvent::BodyRead(body) ==> step is Some ==> (step->0.action
                matches ExchangeAction::Finish(result) && result matches Ok(text) && text@
                == body@),
    {
        match (self.stage, event) {
            (Stage::AwaitingPermit, ExchangeEvent::PermitAcquired) => {
                let line = joined("   ", self.id.as_str(), " acquired throttle permit");
                Some(self.send("permit_acquired", line, tracker, run.post_drop_phase(), now))
            },
            (Stage::AwaitingPermit, ExchangeEvent::PermitTimedOut) => {
                let line = joined("   ", self.id.as_str(), " failed to acquire throttle permit");
                Some(self.send("permit_timeout", line, tracker, run.post_drop_phase(), now))
            },
            (Stage::AwaitingResponse, ExchangeEvent::Responded(status)) => {
                let mut line = joined("   ", self.id.as_str(), " got response: ");
                line.append(status.as_str());
                tracker.update_state(self.id.as_str(), "reading_body", now);
                self.stage = Stage::ReadingBody;
                let action = ExchangeAction::ReadBody { wait_secs: self.timeout_secs };
                Some(ExchangeStep { line, action })
            },
            (Stage::AwaitingResponse, ExchangeEvent::SendFailed(error)) => {
                let mut line = joined("❌ ", self.id.as_str(), " request error: ");
                line.append(error.as_str());
                tracker.update_state(self.id.as_str(), "request_error", now);
                tracker.mark_completed(self.id.as_str());
                let mut text: String = String::from_str("Request error: ");
                text.append(error.as_str());
                Some(self.finish(line, Err(text)))
            },
            (Stage::AwaitingResponse, ExchangeEvent::SendTimedOut) => {
                let line = joined("⏱️ ", self.id.as_str(), " request TIMED OUT");
                tracker.update_state(self.id.as_str(), "request_timeout", now);
                run.report_hang();
                let text: String = String::from_str("HANG DETECTED: Request timed out");
                Some(self.finish(line, Err(text)))
            },
            (Stage::ReadingBody, ExchangeEvent::BodyRead(body)) => {
                let mut line = joined("📩 ", self.id.as_str(), " completed with body of ");
                line.append(decimal_text(body.as_str().len() as u64).as_str());
                line.append(" bytes");
                tracker.update_state(self.id.as_str(), "completed", now);
                tracker.mark_completed(self.id.as_str());
                Some(self.finish(line, Ok(body)))
            },
            (Stage::ReadingBody, ExchangeEvent::BodyFailed(error)) => {
                let mut line = joined("❌ ", self.id.as_str(), " body read error: ");
                line.append(error.as_str());
                tracker.update_state(self.id.as_str(), "body_error", now);
                tracker.mark_completed(self.id.as_str());
                let mut text: String = String::from_str("Body read error: ");
                text.append(error.as_str());
                Some(self.finish(line, Err(text)))
            },
            (Stage::ReadingBody, ExchangeEvent::BodyTimedOut) => {
                let line = joined("⏱️ ", self.id.as_str(), " body read TIMED OUT");
                tracker.update_state(self.id.as_str(), "body_timeout", now);
                run.report_hang();
                let text: String = String::from_str("HANG DETECTED: Body read timed out");
                Some(self.finish(line, Err(text)))
            },
            _ => None,
        }
    }

    /// Prepares the request and moves it on to be sent; `state` says how it was let through.
    fn send(
        &mut self,
        state: &str,
        line: String,
        tracker: &mut RequestTracker,
        post_drop: bool,
        now: u64,
    ) -> (step: ExchangeStep)
        requires
            old(self).wf(),
            old(tracker).wf(),
        ensures
            final(tracker).wf(),
            final(self)@ == (ExchangeView { stage: Stage::AwaitingResponse, ..old(self)@ }),
            final(tracker)@ == updated(old(tracker)@, old(self)@.id, "connecting"@, now),
            step.line == line,
            step.action matches ExchangeAction::Send { headers, wait_secs } && header_values(
                headers,
            ) == request_headers(old(self)@.id, old(self)@.task_id, post_drop) && wait_secs
                == old(self)@.timeout_secs,
    {
        let ghost requests = tracker@;
        tracker.update_state(self.id.as_str(), state, now);
        tracker.update_state(self.id.as_str(), "preparing_request", now);
        let headers = build_request_headers(self.id.as_str(), self.task_id, post_drop);
        tracker.update_state(self.id.as_str(), "connecting", now);
        proof {
            the_last_state_wins(requests, self.id@, state@, now, "preparing_request"@, now);
            the_last_state_wins(requests, self.id@, "preparing_request"@, now, "connecting"@, now);
        }
        self.stage = Stage::AwaitingResponse;
        ExchangeStep {
            line,
            action: ExchangeAction::Send { headers, wait_secs: self.timeout_secs },
        }
    }

    /// Ends the request with a result.
    fn finish(&mut self, line: String, result: Result<String, String>) -> (step: ExchangeStep)
        ensures
            final(self)@ == (ExchangeView { stage: Stage::Finished, ..old(self)@ }),
            step.line == line,
            step.action == ExchangeAction::Finish(result),
    {
        self.stage = Stage::Finished;
        ExchangeStep { line, action: ExchangeAction::Finish(result) }
    }
}

} // verus!
