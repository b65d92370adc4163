//! How the results of single operations relate to what went into them: texts to the numbers and
//! names in them, records to requests, events to what follows from them.

use vstd::prelude::*;
use vstd::utf8::encode_utf8;

use crate::answers::{passing_places, places_beyond, places_in_state};
use crate::exchange::{
    byte_length, event_line, is_next_action, outcome, request_headers, requests_after, result_text,
    run_after, start_line, transition, ExchangeAction, ExchangeEvent, ExchangeView, Stage,
};
use crate::headers::{header_values, lower, only};
use crate::post_drop::{
    as_numbers, is_task, post_drop_id, post_drop_sub_id, sub_result_text, PostDropTask,
    JOIN_TIMEOUT_SECS, NESTED_REQUEST_ID, NESTED_TIMEOUT_SECS, POST_DROP_TIMEOUT_SECS,
};
use crate::laws::completing_forgets_moves;
use crate::report::{elapsed, long_count, runs_long, state_count};
use crate::run_state::{next_count, phase_text, previous_count, RunView};
use crate::server::{
    delay_lines, handling_text, induced_delay, response_headers, sum_below, url_text, wrapped,
};
use crate::tasks::{
    background_text, run_after_background, shared_work_headers, task_request_id, task_text,
    work_item_text, work_label_text, BackgroundEvent,
};
use crate::text::{
    all_digits, bracketed, comma_separated, decimal, decimal_is_digits, padded, signed_decimal,
    texts,
};
use crate::tracker::{
    lookup, new_status, phase_timeout, recorded, request_id, thread_text, tracks, updated,
    without, RequestStatus, StatusView,
};

verus! {

/// The number that a text of digits stands for.
pub open spec fn value(text: Seq<char>) -> int
    decreases text.len(),
{
    if text.len() == 0 {
        0
    } else {
        value(text.drop_last()) * 10 + (text.last() as int - 48)
    }
}

/// The decimal text of a number stands for that number, and begins with a zero only for zero.
pub proof fn decimal_stands_for_its_number(n: nat)
    ensures
        value(decimal(n)) == n,
        all_digits(decimal(n)),
        decimal(n).len() > 0,
        n > 0 ==> decimal(n)[0] != '0',
        n < 10 ==> decimal(n).len() == 1,
    decreases n,
{
    decimal_is_digits(n);
    if n < 10 {
        assert(decimal(n).drop_last() =~= Seq::empty());
        assert(value(Seq::empty()) == 0);
    } else {
        decimal_stands_for_its_number(n / 10);
        decimal_is_digits(n / 10);
        assert(decimal(n).drop_last() =~= decimal(n / 10));
        assert(decimal(n)[0] == decimal(n / 10)[0]);
    }
}

/// The text of a signed number has a minus sign exactly where the number is negative, and its
/// digits stand for the size of the number.
pub proof fn signed_text_stands_for_its_number(n: int)
    ensures
        n >= 0 ==> value(signed_decimal(n)) == n && all_digits(signed_decimal(n)),
        n < 0 ==> signed_decimal(n)[0] == '-' && value(signed_decimal(n).skip(1)) == -n
            && all_digits(signed_decimal(n).skip(1)),
{
    reveal_strlit("-");
    if n < 0 {
        decimal_stands_for_its_number((-n) as nat);
        assert(signed_decimal(n).skip(1) =~= decimal((-n) as nat));
    } else {
        decimal_stands_for_its_number(n as nat);
    }
}

/// Padding keeps the text, adds nothing but spaces behind it, and reaches the width exactly where
/// the text does not.
pub proof fn padding_adds_spaces(text: Seq<char>, width: nat)
    ensures
        padded(text, width).len() == if text.len() < width {
            width
        } else {
            text.len()
        },
        padded(text, width).take(text.len() as int) == text,
        forall|i: int|
            text.len() <= i < padded(text, width).len() ==> #[trigger] padded(text, width)[i]
                == ' ',
{
    assert(padded(text, width).take(text.len() as int) =~= text);
}

/// A list is its parts with a comma and a space between them; a list of one number is that
/// number; the brackets stand round the whole.
pub proof fn lists_are_made_of_their_parts(a: Seq<usize>, b: Seq<usize>, n: usize)
    requires
        a.len() > 0,
        b.len() > 0,
    ensures
        comma_separated(a + b) == comma_separated(a) + ", "@ + comma_separated(b),
        comma_separated(seq![n]) == decimal(n as nat),
        comma_separated(Seq::empty()) == Seq::<char>::empty(),
        bracketed(a) == "["@ + comma_separated(a) + "]"@,
        bracketed(Seq::empty()) == "["@ + "]"@,
    decreases b.len(),
{
    if b.len() == 1 {
        assert((a + b).drop_last() =~= a);
    } else {
        lists_are_made_of_their_parts(a, b.drop_last(), n);
        assert((a + b).drop_last() =~= a + b.drop_last());
        assert(comma_separated(a + b) =~= comma_separated(a) + ", "@ + comma_separated(b));
    }
    assert("["@ + Seq::<char>::empty() + "]"@ =~= "["@ + "]"@);
}

/// The texts of lines are the lines, one for one.
pub proof fn texts_are_the_lines(lines: Seq<String>)
    ensures
        texts(lines).len() == lines.len(),
        forall|i: int| 0 <= i < lines.len() ==> #[trigger] texts(lines)[i] == lines[i]@,
{
}

/// A counter goes up and down by one, and round where it has no further value.
pub proof fn counters_go_round(n: usize)
    ensures
        next_count(n) == (n + 1) % (usize::MAX + 1),
        previous_count(n) == (n - 1) % (usize::MAX + 1),
{
    let size = usize::MAX + 1;
    if n < usize::MAX {
        vstd::arithmetic::div_mod::lemma_small_mod((n + 1) as nat, size as nat);
    } else {
        vstd::arithmetic::div_mod::lemma_mod_self_0(size);
    }
    if n > 0 {
        vstd::arithmetic::div_mod::lemma_small_mod((n - 1) as nat, size as nat);
    } else {
        vstd::arithmetic::div_mod::lemma_mod_add_multiples_vanish(-1, size);
        vstd::arithmetic::div_mod::lemma_small_mod((size - 1) as nat, size as nat);
    }
}

/// Noting a hang notes it, whatever the run, and changes nothing else.
pub proof fn a_noted_hang_is_seen(run: RunView)
    ensures
        run.with_hang().hang_detected,
        run.with_hang().post_drop_phase == run.post_drop_phase,
        run.with_hang().induce_delays == run.induce_delays,
        run.with_hang().connections == run.connections,
        run.with_hang().active == run.active,
        run.with_hang().leaked == run.leaked,
        run.with_hang().reproduced_at == run.reproduced_at,
        run.with_hang().next_serial == run.next_serial,
{
}

/// What a record shows is what it holds.
pub proof fn a_record_shows_its_fields(status: RequestStatus)
    ensures
        status@.id == status.id@,
        status@.task_id == status.task_id,
        status@.url == status.url@,
        status@.phase == status.phase@,
        status@.start_time == status.start_time,
        status@.last_update == status.last_update,
        status@.state == status.state@,
        status@.timeout_secs == status.timeout_secs,
        status@.runtime_name == status.runtime_name@,
{
}

/// The name of a request gives its task number and its serial number back: they are the numbers
/// that stand before and behind the second hyphen.
pub proof fn a_name_gives_its_numbers_back(task_id: u32, serial: usize)
    ensures
        ({
            let name = request_id(task_id, serial);
            exists|at: int|
                4 < at < name.len() - 1 && #[trigger] name[at] == '-' && name.take(4) == "REQ-"@
                    && all_digits(name.subrange(4, at)) && value(name.subrange(4, at)) == task_id
                    && all_digits(name.skip(at + 1)) && value(name.skip(at + 1)) == serial
        }),
{
    reveal_strlit("REQ-");
    reveal_strlit("-");
    let name = request_id(task_id, serial);
    let first = decimal(task_id as nat);
    decimal_stands_for_its_number(task_id as nat);
    decimal_stands_for_its_number(serial as nat);
    let at = 4 + first.len() as int;
    assert(name[at] == '-');
    assert(name.take(4) =~= "REQ-"@);
    assert(name.subrange(4, at) =~= first);
    assert(name.skip(at + 1) =~= decimal(serial as nat));
}

/// A new record holds what the request was made with, the time at which it was made, and the
/// phase of the run with the timeout of that phase: eight seconds after the drop, else five.
pub proof fn a_new_record_holds_what_it_was_made_with(
    run: RunView,
    task_id: u32,
    url: Seq<char>,
    now: u64,
    name: Option<&str>,
)
    ensures
        ({
            let made = new_status(run, task_id, url, now, thread_text(name));
            &&& made.id == request_id(task_id, run.next_serial)
            &&& made.task_id == task_id
            &&& made.url == url
            &&& made.start_time == now
            &&& made.last_update == now
            &&& made.state == "created"@
            &&& run.post_drop_phase ==> made.phase == "post-drop"@ && made.timeout_secs == 8
            &&& !run.post_drop_phase ==> made.phase == "normal"@ && made.timeout_secs == 5
            &&& name matches Some(name) ==> made.runtime_name == name@
            &&& name is None ==> made.runtime_name == "unknown"@
        }),
        phase_text(true) == "post-drop"@,
        phase_text(false) == "normal"@,
        phase_timeout(true) == 8,
        phase_timeout(false) == 5,
{
}

/// Recording a request puts its record in the place of each with its name, or behind the others
/// where there is none, and leaves the others in their places.
pub proof fn recording_keeps_the_others(requests: Seq<StatusView>, status: StatusView)
    ensures
        ({
            let after = recorded(requests, status);
            let n = requests.len() as int;
            let known = exists|i: int| 0 <= i < n && (#[trigger] requests[i]).id == status.id;
            &&& known ==> after.len() == n
            &&& !known ==> after.len() == n + 1 && after[n] == status
            &&& forall|i: int|
                0 <= i < n ==> if (#[trigger] requests[i]).id == status.id {
                    after[i] == status
                } else {
                    after[i] == requests[i]
                }
        }),
{
    let n = requests.len() as int;
    if exists|i: int| 0 <= i < n && (#[trigger] requests[i]).id == status.id {
        assert(tracks(requests, status.id));
    }
}

/// Moving a request sets the state and the time of the last change of the records with its name,
/// and nothing else in them or in others.
pub proof fn moving_sets_state_and_time(
    requests: Seq<StatusView>,
    id: Seq<char>,
    state: Seq<char>,
    now: u64,
)
    ensures
        ({
            let after = updated(requests, id, state, now);
            &&& after.len() == requests.len()
            &&& forall|i: int|
                0 <= i < requests.len() ==> {
                    let (old_status, new_status) = (#[trigger] requests[i], after[i]);
                    &&& old_status.id != id ==> new_status == old_status
                    &&& old_status.id == id ==> {
                        &&& new_status.state == state
                        &&& new_status.last_update == now
                        &&& new_status.id == old_status.id
                        &&& new_status.task_id == old_status.task_id
                        &&& new_status.url == old_status.url
                        &&& new_status.phase == old_status.phase
                        &&& new_status.start_time == old_status.start_time
                        &&& new_status.timeout_secs == old_status.timeout_secs
                        &&& new_status.runtime_name == old_status.runtime_name
                    }
                }
        }),
{
}

/// Completing a request takes out the records with its name, one by one, and leaves the others in
/// their order.
pub proof fn completing_takes_out_one_by_one(
    a: Seq<StatusView>,
    b: Seq<StatusView>,
    status: StatusView,
    id: Seq<char>,
)
    ensures
        without(a + b, id) == without(a, id) + without(b, id),
        status.id == id ==> without(seq![status], id) == Seq::<StatusView>::empty(),
        status.id != id ==> without(seq![status], id) == seq![status],
        without(Seq::empty(), id) == Seq::<StatusView>::empty(),
{
    let keep = |other: StatusView| other.id != id;
    Seq::filter_distributes_over_add(a, b, keep);
    reveal(Seq::filter);
    assert(seq![status].drop_last() =~= Seq::empty());
    assert(Seq::<StatusView>::empty().filter(keep) =~= Seq::empty());
}

/// A name gives a record that stands among the requests under that name, and gives none exactly
/// where no request has that name.
pub proof fn a_name_gives_its_record(requests: Seq<StatusView>, id: Seq<char>)
    ensures
        lookup(requests, id) matches Some(status) ==> status.id == id && requests.contains(status),
        lookup(requests, id) is None <==> forall|i: int|
            0 <= i < requests.len() ==> (#[trigger] requests[i]).id != id,
{
    if tracks(requests, id) {
        let i = choose|i: int| 0 <= i < requests.len() && #[trigger] requests[i].id == id;
        assert(requests.contains(requests[i]));
    }
}

/// The time since a request was made runs with the clock from its start, and not before.
pub proof fn time_runs_from_the_start(status: StatusView, now: u64)
    ensures
        now >= status.start_time ==> elapsed(status, now) + status.start_time == now,
        now < status.start_time ==> elapsed(status, now) == 0,
{
}

/// The requests in a state, and those that run long, are counted by their places.
pub proof fn requests_are_counted_by_place(
    requests: Seq<StatusView>,
    state: Seq<char>,
    now: u64,
)
    ensures
        state_count(requests, state) == places_in_state(requests, state).len(),
        long_count(requests, now) == places_beyond(requests, now, 3).len(),
{
    passing_places(requests, |status: StatusView| status.state == state);
    passing_places(
        requests,
        |status: StatusView| runs_long(status, now),
    );
    assert(places_in_state(requests, state) =~= Set::new(
        |i: int|
            0 <= i < requests.len() && (|status: StatusView| status.state == state)(requests[i]),
    ));
    assert(places_beyond(requests, now, 3) =~= Set::new(
        |i: int|
            0 <= i < requests.len() && (|status: StatusView| runs_long(status, now))(
                requests[i],
            ),
    ));
}

/// Each event can happen at one stage alone, and leads from there to one stage alone: what a
/// permit brings leads to the wait for the response, a response leads to the wait for its body,
/// and everything else ends the request.
pub proof fn events_happen_at_one_stage(stage: Stage, event: ExchangeEvent)
    ensures
        ({
            let permit = event is PermitAcquired || event is PermitTimedOut;
            let head = event is Responded || event is SendFailed || event is SendTimedOut;
            let body = event is BodyRead || event is BodyFailed || event is BodyTimedOut;
            let change = transition(stage, event);
            &&& change is Some <==> (stage is AwaitingPermit && permit) || (stage
                is AwaitingResponse && head) || (stage is ReadingBody && body)
            &&& change matches Some(change) ==> {
                &&& change.stage is AwaitingResponse <==> permit
                &&& change.stage is ReadingBody <==> event is Responded
                &&& change.stage is Finished <==> !permit && event !is Responded
                &&& change.stage is Finished <==> outcome(event) is Some
            }
        }),
{
}

/// A request that fails, or whose body was read, is tracked no more. One whose wait for the
/// server took too long stays, in a state that says so, as does one that goes on. A wait for the
/// server that took too long is a hang, in whatever phase, and nothing else is.
pub proof fn what_an_event_does(
    requests: Seq<StatusView>,
    id: Seq<char>,
    run: RunView,
    stage: Stage,
    event: ExchangeEvent,
    now: u64,
)
    requires
        transition(stage, event) is Some,
    ensures
        ({
            let change = transition(stage, event)->0;
            let after = requests_after(requests, id, change, now);
            let told = run_after(run, change);
            let gone = event is SendFailed || event is BodyRead || event is BodyFailed;
            let timed_out = event is SendTimedOut || event is BodyTimedOut;
            &&& told.hang_detected == (run.hang_detected || timed_out)
            &&& told == (RunView { hang_detected: told.hang_detected, ..run })
            &&& gone ==> forall|i: int| 0 <= i < after.len() ==> (#[trigger] after[i]).id != id
            &&& gone ==> after == without(requests, id)
            &&& !gone ==> after.len() == requests.len() && forall|i: int|
                0 <= i < requests.len() ==> {
                    &&& (#[trigger] requests[i]).id != id ==> after[i] == requests[i]
                    &&& requests[i].id == id ==> after[i] == (StatusView {
                        state: if event is SendTimedOut {
                            "request_timeout"@
                        } else if event is BodyTimedOut {
                            "body_timeout"@
                        } else if event is Responded {
                            "reading_body"@
                        } else {
                            "connecting"@
                        },
                        last_update: now,
                        ..requests[i]
                    })
                }
        }),
{
    let change = transition(stage, event)->0;
    let after = requests_after(requests, id, change, now);
    completing_forgets_moves(requests, id, change.state, now);
    if change.completed {
        let keep = |status: StatusView| status.id != id;
        assert forall|i: int| 0 <= i < after.len() implies (#[trigger] after[i]).id != id by {
            updated(requests, id, change.state, now).lemma_filter_pred(keep, i);
        }
    }
}

/// A request ends well exactly when its body was read, and its result is then that body, as it
/// came. Every other end gives an error that says what happened, with the reason behind it where
/// there is one.
pub proof fn a_request_results_in_its_body(event: ExchangeEvent)
    ensures
        event matches ExchangeEvent::BodyRead(body) ==> outcome(event) == Some(
            Result::<Seq<char>, Seq<char>>::Ok(body@),
        ),
        (outcome(event) matches Some(result) && result is Ok) <==> event is BodyRead,
        event matches ExchangeEvent::SendFailed(error) ==> outcome(event) == Some(
            Result::<Seq<char>, Seq<char>>::Err("Request error: "@ + error@),
        ),
        event matches ExchangeEvent::BodyFailed(error) ==> outcome(event) == Some(
            Result::<Seq<char>, Seq<char>>::Err("Body read error: "@ + error@),
        ),
        event is SendTimedOut ==> outcome(event) == Some(
            Result::<Seq<char>, Seq<char>>::Err("HANG DETECTED: Request timed out"@),
        ),
        event is BodyTimedOut ==> outcome(event) == Some(
            Result::<Seq<char>, Seq<char>>::Err("HANG DETECTED: Body read timed out"@),
        ),
        outcome(event) is None <==> event is PermitAcquired || event is PermitTimedOut || event
            is Responded,
{
}

/// The next thing to do after an event is to send the request after what a permit brings, to read
/// the body after a response, each time with the whole timeout of the request, and otherwise to
/// hand out the result of the event.
pub proof fn what_follows_an_event(
    action: ExchangeAction,
    exchange: ExchangeView,
    post_drop: bool,
    stage: Stage,
    event: ExchangeEvent,
)
    requires
        transition(stage, event) matches Some(change) && is_next_action(
            action,
            exchange,
            post_drop,
            change.stage,
            event,
        ),
    ensures
        event is PermitAcquired || event is PermitTimedOut ==> {
            &&& action matches ExchangeAction::Send { headers, wait_secs }
            &&& wait_secs == exchange.timeout_secs
            &&& header_values(headers) == request_headers(
                exchange.id,
                exchange.task_id,
                post_drop,
            )
        },
        event is Responded ==> {
            &&& action matches ExchangeAction::ReadBody { wait_secs }
            &&& wait_secs == exchange.timeout_secs
        },
        event matches ExchangeEvent::BodyRead(body) ==> {
            &&& action matches ExchangeAction::Finish(result)
            &&& result matches Ok(text)
            &&& text@ == body@
        },
        event is SendFailed || event is SendTimedOut || event is BodyFailed || event
            is BodyTimedOut ==> {
            &&& action matches ExchangeAction::Finish(result)
            &&& result matches Err(text)
            &&& outcome(event) == Some(Result::<Seq<char>, Seq<char>>::Err(text@))
        },
{
}

/// The text of a result is the text in it.
pub proof fn a_result_shows_its_text(result: Result<String, String>)
    ensures
        result matches Ok(text) ==> result_text(result) == Result::<Seq<char>, Seq<char>>::Ok(
            text@,
        ),
        result matches Err(text) ==> result_text(result) == Result::<Seq<char>, Seq<char>>::Err(
            text@,
        ),
{
}

/// A request carries its name, its task number and the phase of the run, under five names.
pub proof fn a_request_carries_its_name(id: Seq<char>, task_id: u32, post_drop: bool)
    ensures
        ({
            let headers = request_headers(id, task_id, post_drop);
            &&& headers["x-request-id"@] == seq![encode_utf8(id)]
            &&& headers["x-task-id"@] == seq![encode_utf8(decimal(task_id as nat))]
            &&& post_drop ==> headers["x-phase"@] == seq![encode_utf8("post-drop"@)]
            &&& !post_drop ==> headers["x-phase"@] == seq![encode_utf8("normal"@)]
            &&& headers["user-agent"@] == seq![encode_utf8("hyper-tokio-test-agent/1.0"@)]
            &&& headers["connection"@] == seq![encode_utf8("keep-alive"@)]
            &&& forall|name: Seq<char>| #[trigger]
                headers.contains_key(name) <==> name == "x-request-id"@ || name == "x-task-id"@
                    || name == "x-phase"@ || name == "user-agent"@ || name == "connection"@
        }),
{
    reveal_strlit("x-request-id");
    reveal_strlit("x-task-id");
    reveal_strlit("x-phase");
    reveal_strlit("user-agent");
    reveal_strlit("connection");
    assert("x-request-id"@.len() == 12 && "x-task-id"@.len() == 9 && "x-phase"@.len() == 7);
    assert("user-agent"@.len() == 10 && "connection"@.len() == 10);
    assert("user-agent"@[0] != "connection"@[0]);
}

/// What is said about a request names it, and gives the status, the reason or the number of bytes
/// that came with the event.
pub proof fn what_is_said_about_a_request(id: Seq<char>, event: ExchangeEvent, timeout_secs: u64)
    ensures
        start_line(id, timeout_secs) == "📤 "@ + id + " started (timeout: "@ + decimal(
            timeout_secs as nat,
        ) + "s)"@,
        event is PermitAcquired ==> event_line(id, event) == "   "@ + id
            + " acquired throttle permit"@,
        event is PermitTimedOut ==> event_line(id, event) == "   "@ + id
            + " failed to acquire throttle permit"@,
        event is SendTimedOut ==> event_line(id, event) == "⏱️ "@ + id + " request TIMED OUT"@,
        event is BodyTimedOut ==> event_line(id, event) == "⏱️ "@ + id + " body read TIMED OUT"@,
        event matches ExchangeEvent::Responded(status) ==> event_line(id, event) == "   "@ + id
            + " got response: "@ + status@,
        event matches ExchangeEvent::SendFailed(error) ==> event_line(id, event) == "❌ "@ + id
            + " request error: "@ + error@,
        event matches ExchangeEvent::BodyFailed(error) ==> event_line(id, event) == "❌ "@ + id
            + " body read error: "@ + error@,
        event matches ExchangeEvent::BodyRead(body) ==> event_line(id, event) == "📩 "@ + id
            + " completed with body of "@ + decimal(encode_utf8(body@).len() as usize as nat)
            + " bytes"@,
        byte_length(id) == encode_utf8(id).len() as usize,
{
}

/// Every third request waits a second and every other one three tenths of it; every fifth one
/// also works; and what is said first tells which.
pub proof fn how_the_server_delays(req_num: usize)
    ensures
        induced_delay(req_num) == if req_num % 3 == 0 {
            1000u64
        } else {
            300
        },
        delay_lines(req_num).len() == if req_num % 5 == 0 {
            2int
        } else {
            1
        },
        req_num % 3 == 0 ==> delay_lines(req_num)[0]
            == "   [Server] Adding LONG delay for request #"@ + decimal(req_num as nat),
        req_num % 3 != 0 ==> delay_lines(req_num)[0]
            == "   [Server] Adding normal delay for request #"@ + decimal(req_num as nat),
        req_num % 5 == 0 ==> delay_lines(req_num)[1]
            == "   [Server] Adding CPU-intensive work for request #"@ + decimal(req_num as nat),
{
}

/// What is said when a request reaches the server gives its number, and the number of requests
/// that are being handled with it.
pub proof fn what_the_server_says_first(req_num: usize, active: usize)
    ensures
        handling_text(req_num, active) == "🔄 Server handling request #"@ + decimal(req_num as nat)
            + " (active: "@ + decimal((active as nat) + 1) + ")"@,
{
}

/// A sum that is brought into 32 bits lies there, and differs from the sum by whole rounds; the
/// sum of the numbers below one more is one number more.
pub proof fn sums_go_round(n: int, below: nat)
    ensures
        -0x8000_0000 <= wrapped(n) < 0x8000_0000,
        (wrapped(n) - n) % 0x1_0000_0000 == 0,
        sum_below(0) == 0,
        sum_below(below + 1) == sum_below(below) + below,
{
}

/// An answer carries the number of its request, and four fixed headers.
pub proof fn an_answer_carries_its_number(req_num: usize)
    ensures
        ({
            let headers = response_headers(req_num);
            &&& headers["connection"@] == seq![encode_utf8("keep-alive"@)]
            &&& headers["cache-control"@] == seq![encode_utf8("no-cache, no-store"@)]
            &&& headers["pragma"@] == seq![encode_utf8("no-cache"@)]
            &&& headers["x-request-id"@] == seq![encode_utf8(decimal(req_num as nat))]
            &&& headers["set-cookie"@] == seq![
                encode_utf8("session=test-value; Path=/; HttpOnly"@),
            ]
            &&& forall|name: Seq<char>| #[trigger]
                headers.contains_key(name) <==> name == "connection"@ || name == "cache-control"@
                    || name == "pragma"@ || name == "x-request-id"@ || name == "set-cookie"@
        }),
{
    reveal_strlit("connection");
    reveal_strlit("cache-control");
    reveal_strlit("pragma");
    reveal_strlit("x-request-id");
    reveal_strlit("set-cookie");
    assert("connection"@.len() == 10 && "cache-control"@.len() == 13 && "pragma"@.len() == 6);
    assert("x-request-id"@.len() == 12 && "set-cookie"@.len() == 10);
    assert("connection"@[0] != "set-cookie"@[0]);
}

/// The URL of a server is its address behind the scheme.
pub proof fn a_url_ends_in_its_address(address: Seq<char>)
    ensures
        url_text(address) == "http://"@ + address,
        url_text(address).skip(7) == address,
{
    reveal_strlit("http://");
    assert(url_text(address).skip(7) =~= address);
}

/// A header holds its text as its only value; names lose nothing but the case of their letters.
pub proof fn a_header_holds_its_text(text: Seq<char>)
    ensures
        only(text).len() == 1,
        only(text)[0] == encode_utf8(text),
        lower(text).len() == text.len(),
        forall|i: int|
            0 <= i < text.len() ==> if 'A' <= (#[trigger] text[i]) <= 'Z' {
                lower(text)[i] as int == text[i] as int + 32
            } else {
                lower(text)[i] == text[i]
            },
{
}

/// The names and numbers of a task and of its work are made of the number of the task and of the
/// place of the request among those of the task.
pub proof fn what_a_task_is_called(task_id: u32, index: usize)
    ensures
        task_text(task_id) == "task-"@ + decimal(task_id as nat),
        work_item_text(task_id, index) == "task-"@ + decimal(task_id as nat) + "-request-"@
            + decimal(index as nat),
        work_label_text(task_id, index) == "task-"@ + decimal(task_id as nat) + "-"@ + decimal(
            index as nat,
        ),
        index <= u32::MAX ==> task_request_id(task_id, index) == 100 * task_id + index,
        task_request_id(task_id, index) == 100 * task_id + (index as u32),
{
}

/// The request that does the work of a task carries that work.
pub proof fn shared_work_carries_its_item(work_item: Seq<char>)
    ensures
        ({
            let headers = shared_work_headers(work_item);
            &&& headers["x-shared-work"@] == seq![encode_utf8(work_item)]
            &&& headers["x-connection-test"@] == seq![encode_utf8("keep-alive"@)]
            &&& forall|name: Seq<char>| #[trigger]
                headers.contains_key(name) <==> name == "x-shared-work"@ || name
                    == "x-connection-test"@
        }),
{
    reveal_strlit("x-shared-work");
    reveal_strlit("x-connection-test");
    assert("x-shared-work"@.len() != "x-connection-test"@.len());
}

/// A connection that was held in the background is one leaked connection more; nothing else that
/// happens there changes the run. Only the held one is passed over in silence.
pub proof fn what_happens_in_the_background(run: RunView, task_id: u32, event: BackgroundEvent)
    ensures
        ({
            let after = run_after_background(run, event);
            &&& event !is Held ==> after == run
            &&& event is Held && run.leaked < usize::MAX ==> after.leaked == run.leaked + 1
            &&& event is Held && run.leaked == usize::MAX ==> after.leaked == 0
            &&& after == (RunView { leaked: after.leaked, ..run })
        }),
        (background_text(task_id, event) is None) == (event is Held),
        event is Cancelled ==> background_text(task_id, event) == Some(
            "   Task "@ + decimal(task_id as nat)
                + " background task received cancellation, but ignoring it!"@,
        ),
        event matches BackgroundEvent::Failed(error) ==> background_text(task_id, event) == Some(
            "Task "@ + decimal(task_id as nat) + " background task error: "@ + error@,
        ),
{
}

/// A task of the phase after the drop has the number five hundred and its index, waits by
/// steps of fifty milliseconds that start again after six, makes three requests with numbers that
/// extend its own by a digit, and is followed by a pause where its index is even.
pub proof fn what_a_post_drop_task_does(task: PostDropTask, index: usize)
    requires
        is_task(task, index),
    ensures
        task.req_id == 500 + (index as u32),
        index <= u32::MAX ==> task.req_id == 500 + index,
        task.stagger_ms == 50 * (index % 6),
        task.sub_ids@.len() == 3,
        task.sub_ids@[0] == task.req_id * 10,
        task.sub_ids@[1] == task.req_id * 10 + 1,
        task.sub_ids@[2] == task.req_id * 10 + 2,
        index % 2 == 0 ==> task.pause_ms == Some(10u64),
        index % 2 != 0 ==> task.pause_ms is None,
        post_drop_id(index) == task.req_id,
        forall|sub: int| #[trigger] post_drop_sub_id(index, sub) == task.req_id * 10 + sub,
{
    let numbers = as_numbers(task.sub_ids@);
    assert(numbers.len() == task.sub_ids@.len());
    assert(numbers[0] == task.sub_ids@[0] as int);
    assert(numbers[1] == task.sub_ids@[1] as int);
    assert(numbers[2] == task.sub_ids@[2] as int);
}

/// What is said about a request of the phase after the drop names it, and gives the number of
/// bytes of its body or the reason of its failure.
pub proof fn what_is_said_after_the_drop(sub_id: u32, result: Result<String, String>)
    ensures
        result matches Ok(body) ==> sub_result_text(sub_id, result) == "Post-drop req "@ + decimal(
            sub_id as nat,
        ) + " succeeded with "@ + decimal(encode_utf8(body@).len() as usize as nat) + " bytes"@,
        result matches Err(error) ==> sub_result_text(sub_id, result) == "Post-drop req "@
            + decimal(sub_id as nat) + " failed: "@ + error@,
{
}

/// Requests after the drop wait as long as their records say, and so does the one on a runtime
/// inside another, which has the time of a request before the drop; a task is waited for longer
/// than any of its requests.
pub proof fn waits_fit_the_phases()
    ensures
        POST_DROP_TIMEOUT_SECS == phase_timeout(true),
        NESTED_TIMEOUT_SECS == phase_timeout(false),
        JOIN_TIMEOUT_SECS == POST_DROP_TIMEOUT_SECS + 2,
        NESTED_REQUEST_ID == 999,
{
}

} // verus!
