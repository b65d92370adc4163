//! What holds of the library as a whole: of any requests, any run and any course of events.

use vstd::prelude::*;

use crate::exchange::{requests_after, run_after, transition, ExchangeEvent, Stage};
use crate::monitor::{
    ending, not_decreasing, recent, run_after_look, run_after_verdict, trend_is_hang, Ending,
    LAST_TICK, TREND,
};
use crate::post_drop::{run_after_join, JoinOutcome};
use crate::report::{
    elapsed_secs, findings, hanging_section, long_count, long_running_may_hang, may_hang,
    runs_long, state_count,
};
use crate::run_state::{next_count, previous_count, RunView};
use crate::text::{decimal, decimal_is_digits, decimal_is_injective};
use crate::tracker::{
    filter_keeps_all, filter_removes_one, fits_phase, lookup, moved, new_status, recorded,
    request_id, tracks, updated, updated_is_well_formed, well_formed, without, StatusView,
};

verus! {

/// Where a request stands, its record is what a lookup of its name gives.
proof fn lookup_at(requests: Seq<StatusView>, i: int)
    requires
        well_formed(requests),
        0 <= i < requests.len(),
    ensures
        lookup(requests, requests[i].id) == Some(requests[i]),
{
    let id = requests[i].id;
    assert(tracks(requests, id));
    let found = choose|k: int| 0 <= k < requests.len() && #[trigger] requests[k].id == id;
    if found < i {
        assert(requests[found].id != requests[i].id);
    }
    if i < found {
        assert(requests[i].id != requests[found].id);
    }
}

/// Where a name is looked up, the record that is found stands somewhere under that name.
proof fn place_of(requests: Seq<StatusView>, id: Seq<char>) -> (i: int)
    requires
        tracks(requests, id),
    ensures
        0 <= i < requests.len(),
        requests[i].id == id,
        lookup(requests, id) == Some(requests[i]),
{
    choose|k: int| 0 <= k < requests.len() && #[trigger] requests[k].id == id
}

/// Recording a request keeps the requests well formed, if it has the phase and the timeout of one
/// phase. Its name then gives its record, and every other name gives what it gave before.
pub proof fn recorded_is_found(requests: Seq<StatusView>, status: StatusView, other: Seq<char>)
    requires
        well_formed(requests),
        fits_phase(status, false) || fits_phase(status, true),
        other != status.id,
    ensures
        well_formed(recorded(requests, status)),
        lookup(recorded(requests, status), status.id) == Some(status),
        lookup(recorded(requests, status), other) == lookup(requests, other),
{
    let after = recorded(requests, status);
    assert forall|i: int| #![trigger after[i]] 0 <= i < requests.len() implies after[i] == (
    if requests[i].id == status.id {
        status
    } else {
        requests[i]
    }) by {
        if !tracks(requests, status.id) {
            assert(requests[i].id != status.id);
        }
    }
    if tracks(requests, status.id) {
        let at = place_of(requests, status.id);
        lookup_at(after, at);
    } else {
        assert(after[requests.len() as int] == status);
        lookup_at(after, requests.len() as int);
    }
    assert forall|i: int|
        0 <= i < requests.len() && #[trigger] requests[i].id == other implies after.contains(
        requests[i],
    ) by {
        assert(after[i] == requests[i]);
    }
    same_elsewhere(requests, after, other);
}

/// Where the records under a name are the same before and after, so is what the name gives.
proof fn same_elsewhere(before: Seq<StatusView>, after: Seq<StatusView>, id: Seq<char>)
    requires
        well_formed(before),
        well_formed(after),
        forall|i: int|
            0 <= i < before.len() && #[trigger] before[i].id == id ==> after.contains(before[i]),
        forall|i: int|
            0 <= i < after.len() && #[trigger] after[i].id == id ==> before.contains(after[i]),
    ensures
        lookup(before, id) == lookup(after, id),
{
    if tracks(before, id) {
        let i = place_of(before, id);
        assert(after.contains(before[i]));
        let j = choose|j: int| 0 <= j < after.len() && after[j] == before[i];
        lookup_at(after, j);
    } else if tracks(after, id) {
        let j = place_of(after, id);
        assert(before.contains(after[j]));
        let i = choose|i: int| 0 <= i < before.len() && before[i] == after[j];
        assert(before[i].id == id);
    }
}

/// Moving a request to a state keeps the requests well formed. Its name then gives its record in
/// that state, every other name gives what it gave before, and where the name was not tracked
/// nothing changes.
pub proof fn updated_is_found(
    requests: Seq<StatusView>,
    id: Seq<char>,
    state: Seq<char>,
    now: u64,
    other: Seq<char>,
)
    requires
        well_formed(requests),
        other != id,
    ensures
        well_formed(updated(requests, id, state, now)),
        tracks(updated(requests, id, state, now), id) == tracks(requests, id),
        lookup(updated(requests, id, state, now), id) == match lookup(requests, id) {
            Some(status) => Some(moved(status, state, now)),
            None => None,
        },
        lookup(updated(requests, id, state, now), other) == lookup(requests, other),
        !tracks(requests, id) ==> updated(requests, id, state, now) == requests,
{
    let after = updated(requests, id, state, now);
    updated_is_well_formed(requests, id, state, now);
    if tracks(requests, id) {
        let at = place_of(requests, id);
        assert(after[at].id == id);
        lookup_at(after, at);
    } else {
        assert(after =~= requests);
    }
    assert forall|i: int|
        0 <= i < requests.len() && #[trigger] requests[i].id == other implies after.contains(
        requests[i],
    ) by {
        assert(after[i] == requests[i]);
    }
    assert forall|i: int|
        0 <= i < after.len() && #[trigger] after[i].id == other implies requests.contains(
        after[i],
    ) by {
        assert(after[i] == requests[i]);
    }
    same_elsewhere(requests, after, other);
}

/// Completing a request keeps the requests well formed. Its name is then not tracked, every other
/// name gives what it gave before, and where the name was not tracked nothing changes.
pub proof fn completed_is_gone(requests: Seq<StatusView>, id: Seq<char>, other: Seq<char>)
    requires
        well_formed(requests),
        other != id,
    ensures
        well_formed(without(requests, id)),
        !tracks(without(requests, id), id),
        lookup(without(requests, id), other) == lookup(requests, other),
        !tracks(requests, id) ==> without(requests, id) == requests,
{
    let keep = |status: StatusView| status.id != id;
    let after = without(requests, id);
    if tracks(requests, id) {
        let at = place_of(requests, id);
        assert forall|i: int| 0 <= i < requests.len() && i != at implies keep(
            #[trigger] requests[i],
        ) by {
            if i < at {
                assert(requests[i].id != requests[at].id);
            } else {
                assert(requests[at].id != requests[i].id);
            }
        }
        filter_removes_one(requests, keep, at);
        assert forall|i: int|
            0 <= i < requests.len() && #[trigger] requests[i].id == other implies after.contains(
            requests[i],
        ) by {
            if i < at {
                assert(after[i] == requests[i]);
            } else {
                assert(after[i - 1] == requests[i]);
            }
        }
    } else {
        filter_keeps_all(requests, keep);
    }
    same_elsewhere(requests, after, other);
}

/// Where two lists of requests differ only in requests with a name, they are the same without it.
proof fn same_without(a: Seq<StatusView>, b: Seq<StatusView>, id: Seq<char>)
    requires
        a.len() == b.len(),
        forall|i: int|
            #![trigger a[i]]
            #![trigger b[i]]
            0 <= i < a.len() ==> a[i] == b[i] || a[i].id == id && b[i].id == id,
    ensures
        without(a, id) == without(b, id),
    decreases a.len(),
{
    reveal(Seq::filter);
    if a.len() > 0 {
        let last = a.len() - 1;
        assert(a[last] == b[last] || a[last].id == id && b[last].id == id);
        same_without(a.drop_last(), b.drop_last(), id);
    }
}

/// Completing a request forgets that it was recorded. Where its name was not tracked before, that
/// restores the requests.
pub proof fn completing_undoes_recording(requests: Seq<StatusView>, status: StatusView)
    ensures
        without(recorded(requests, status), status.id) == without(requests, status.id),
        !tracks(requests, status.id) ==> without(recorded(requests, status), status.id)
            == requests,
{
    let keep = |other: StatusView| other.id != status.id;
    if tracks(requests, status.id) {
        same_without(requests, recorded(requests, status), status.id);
    } else {
        reveal(Seq::filter);
        assert forall|i: int| 0 <= i < requests.len() implies keep(#[trigger] requests[i]) by {
            assert(requests[i].id != status.id);
        }
        filter_keeps_all(requests, keep);
        assert(requests.push(status).drop_last() =~= requests);
    }
}

/// Completing a request forgets that it was moved to a state.
pub proof fn completing_forgets_moves(
    requests: Seq<StatusView>,
    id: Seq<char>,
    state: Seq<char>,
    now: u64,
)
    ensures
        without(updated(requests, id, state, now), id) == without(requests, id),
{
    same_without(requests, updated(requests, id, state, now), id);
}

/// The requests after the one with this name was moved to states at times.
pub open spec fn moved_through(
    requests: Seq<StatusView>,
    id: Seq<char>,
    moves: Seq<(Seq<char>, u64)>,
) -> Seq<StatusView>
    decreases moves.len(),
{
    if moves.len() == 0 {
        requests
    } else {
        updated(
            moved_through(requests, id, moves.drop_last()),
            id,
            moves.last().0,
            moves.last().1,
        )
    }
}

/// Recording a request, moving it any number of times and completing it leaves what was tracked
/// before, without its name; where its name was not tracked, that is what was tracked before.
pub proof fn a_completed_request_leaves_no_trace(
    requests: Seq<StatusView>,
    status: StatusView,
    moves: Seq<(Seq<char>, u64)>,
)
    ensures
        without(moved_through(recorded(requests, status), status.id, moves), status.id)
            == without(requests, status.id),
        !tracks(requests, status.id) ==> without(
            moved_through(recorded(requests, status), status.id, moves),
            status.id,
        ) == requests,
    decreases moves.len(),
{
    completing_undoes_recording(requests, status);
    if moves.len() > 0 {
        let before = moves.drop_last();
        a_completed_request_leaves_no_trace(requests, status, before);
        completing_forgets_moves(
            moved_through(recorded(requests, status), status.id, before),
            status.id,
            moves.last().0,
            moves.last().1,
        );
    }
}

/// A request that was started waits to be let through: its name gives the record that was made
/// for it, in that state, and what is tracked stays well formed.
pub proof fn a_started_request_waits(
    requests: Seq<StatusView>,
    run: RunView,
    task_id: u32,
    url: Seq<char>,
    now: u64,
    thread_name: Seq<char>,
)
    requires
        well_formed(requests),
    ensures
        ({
            let made = new_status(run, task_id, url, now, thread_name);
            let after = updated(recorded(requests, made), made.id, "acquiring_permit"@, now);
            &&& well_formed(after)
            &&& tracks(after, made.id)
            &&& lookup(after, made.id) == Some(moved(made, "acquiring_permit"@, now))
        }),
{
    let made = new_status(run, task_id, url, now, thread_name);
    let other = made.id.push('x');
    assert(other.len() != made.id.len());
    assert(fits_phase(made, run.post_drop_phase));
    recorded_is_found(requests, made, other);
    updated_is_found(recorded(requests, made), made.id, "acquiring_permit"@, now, other);
}

/// The names of requests with distinct task numbers or distinct serial numbers are distinct.
pub proof fn request_ids_are_distinct(task_a: u32, a: usize, task_b: u32, b: usize)
    requires
        request_id(task_a, a) == request_id(task_b, b),
    ensures
        task_a == task_b,
        a == b,
{
    reveal_strlit("REQ-");
    reveal_strlit("-");
    let first_a = decimal(task_a as nat);
    let first_b = decimal(task_b as nat);
    let second_a = decimal(a as nat);
    let second_b = decimal(b as nat);
    let name = request_id(task_a, a);
    decimal_is_digits(task_a as nat);
    decimal_is_digits(task_b as nat);
    assert(name[4int + first_a.len()] == '-');
    assert(name[4int + first_b.len()] == '-');
    if first_a.len() < first_b.len() {
        assert(name[4int + first_a.len()] == first_b[first_a.len() as int]);
    }
    if first_b.len() < first_a.len() {
        assert(name[4int + first_b.len()] == first_a[first_b.len() as int]);
    }
    let middle = 4 + first_a.len() as int;
    assert(name.subrange(4, middle) =~= first_a);
    assert(name.subrange(4, middle) =~= first_b);
    assert(name.skip(middle + 1) =~= second_a);
    assert(name.skip(middle + 1) =~= second_b);
    decimal_is_injective(task_a as nat, task_b as nat);
    decimal_is_injective(a as nat, b as nat);
}

/// A name that was given to a request with a serial number below a limit.
pub open spec fn is_issued(id: Seq<char>, limit: usize) -> bool {
    exists|task_id: u32, serial: usize|
        serial < limit && id == #[trigger] request_id(task_id, serial)
}

/// Every name that is tracked was given to a request with a serial number below a limit.
pub open spec fn all_issued(requests: Seq<StatusView>, limit: usize) -> bool {
    forall|i: int| #![trigger requests[i]] 0 <= i < requests.len() ==> is_issued(
        requests[i].id,
        limit,
    )
}

/// While every name that is tracked was given to a request with an earlier serial number, a new
/// request gets a name that is not tracked.
pub proof fn new_names_are_fresh(requests: Seq<StatusView>, task_id: u32, serial: usize)
    requires
        all_issued(requests, serial),
    ensures
        !tracks(requests, request_id(task_id, serial)),
{
    let id = request_id(task_id, serial);
    if tracks(requests, id) {
        let i = place_of(requests, id);
        assert(is_issued(requests[i].id, serial));
        let (task, earlier) = choose|task: u32, earlier: usize|
            earlier < serial && requests[i].id == #[trigger] request_id(task, earlier);
        request_ids_are_distinct(task, earlier, task_id, serial);
    }
}

/// While the serial numbers do not start again from zero, every name that is tracked after a new
/// request was recorded was given out.
pub proof fn new_names_are_issued(
    requests: Seq<StatusView>,
    run: RunView,
    task_id: u32,
    url: Seq<char>,
    now: u64,
    thread_name: Seq<char>,
)
    requires
        all_issued(requests, run.next_serial),
        run.next_serial < usize::MAX,
    ensures
        all_issued(
            recorded(requests, new_status(run, task_id, url, now, thread_name)),
            next_count(run.next_serial),
        ),
{
    let id = request_id(task_id, run.next_serial);
    let limit = next_count(run.next_serial);
    new_names_are_fresh(requests, task_id, run.next_serial);
    let after = recorded(requests, new_status(run, task_id, url, now, thread_name));
    assert forall|i: int| #![trigger after[i]] 0 <= i < after.len() implies is_issued(
        after[i].id,
        limit,
    ) by {
        if i < requests.len() {
            assert(after[i] == requests[i]);
            assert(is_issued(requests[i].id, run.next_serial));
            let (task, serial) = choose|task: u32, serial: usize|
                serial < run.next_serial && requests[i].id == #[trigger] request_id(task, serial);
            assert(serial < limit && after[i].id == request_id(task, serial));
        } else {
            assert(run.next_serial < limit && after[i].id == id);
        }
    }
}

/// Moving and completing requests tracks no name that was not tracked before.
pub proof fn names_stay_issued(
    requests: Seq<StatusView>,
    limit: usize,
    id: Seq<char>,
    state: Seq<char>,
    now: u64,
)
    requires
        all_issued(requests, limit),
    ensures
        all_issued(updated(requests, id, state, now), limit),
        all_issued(without(requests, id), limit),
{
    let after = updated(requests, id, state, now);
    assert forall|i: int| #![trigger after[i]] 0 <= i < after.len() implies is_issued(
        after[i].id,
        limit,
    ) by {
        assert(is_issued(requests[i].id, limit));
    }
    let keep = |status: StatusView| status.id != id;
    let rest = without(requests, id);
    assert forall|i: int| #![trigger rest[i]] 0 <= i < rest.len() implies is_issued(
        rest[i].id,
        limit,
    ) by {
        requests.lemma_filter_contains_rev(keep, rest[i]);
        let k = choose|k: int| 0 <= k < requests.len() && requests[k] == rest[i];
        assert(is_issued(requests[k].id, limit));
    }
}

/// How far a stage is from the start of a request.
pub open spec fn rank(stage: Stage) -> nat {
    match stage {
        Stage::AwaitingPermit => 0,
        Stage::AwaitingResponse => 1,
        Stage::ReadingBody => 2,
        Stage::Finished => 3,
    }
}

/// Something can happen to a request that has not ended, and whatever can happen brings it
/// further; nothing can happen to one that has ended.
pub proof fn requests_move_on(stage: Stage, event: ExchangeEvent)
    ensures
        stage is Finished ==> transition(stage, event) is None,
        stage !is Finished ==> exists|possible: ExchangeEvent|
            (#[trigger] transition(stage, possible)) is Some,
        transition(stage, event) matches Some(change) ==> rank(change.stage) > rank(stage),
{
    if stage is AwaitingPermit {
        assert(transition(stage, ExchangeEvent::PermitAcquired) is Some);
    } else if stage is AwaitingResponse {
        assert(transition(stage, ExchangeEvent::SendTimedOut) is Some);
    } else if stage is ReadingBody {
        assert(transition(stage, ExchangeEvent::BodyTimedOut) is Some);
    }
}

/// A request on its way, with the requests that are tracked and the shared state.
pub struct Course {
    pub stage: Stage,
    pub requests: Seq<StatusView>,
    pub run: RunView,
}

/// Where the course of a request leads through events at times; nowhere if one of them cannot
/// happen when it should.
pub open spec fn replay(
    id: Seq<char>,
    from: Course,
    events: Seq<(ExchangeEvent, u64)>,
) -> Option<Course>
    decreases events.len(),
{
    if events.len() == 0 {
        Some(from)
    } else {
        match replay(id, from, events.drop_last()) {
            None => None,
            Some(mid) => match transition(mid.stage, events.last().0) {
                None => None,
                Some(change) => Some(
                    Course {
                        stage: change.stage,
                        requests: requests_after(mid.requests, id, change, events.last().1),
                        run: run_after(mid.run, change),
                    },
                ),
            },
        }
    }
}

/// The event is a wait for the server that took too long.
pub open spec fn is_hang(event: ExchangeEvent) -> bool {
    event is SendTimedOut || event is BodyTimedOut
}

/// A request ends after at most three events. As long as it has not ended it is tracked. When it
/// has ended it is still tracked if and only if it ended because the server took too long, and
/// then, and only then, the shared state is told of a hang. If it ended in any other way, what is
/// tracked is what was tracked before, without it. What is tracked of other requests never
/// changes.
pub proof fn a_request_ends(id: Seq<char>, from: Course, events: Seq<(ExchangeEvent, u64)>)
    requires
        from.stage is AwaitingPermit,
        well_formed(from.requests),
        tracks(from.requests, id),
        replay(id, from, events) is Some,
    ensures
        replay(id, from, events) matches Some(end) && {
            &&& events.len() <= rank(end.stage) <= 3
            &&& well_formed(end.requests)
            &&& without(end.requests, id) == without(from.requests, id)
            &&& end.stage !is Finished ==> tracks(end.requests, id) && end.run == from.run
            &&& end.stage is Finished ==> {
                &&& events.len() >= 2
                &&& tracks(end.requests, id) == is_hang(events.last().0)
                &&& end.run == (if is_hang(events.last().0) {
                    from.run.with_hang()
                } else {
                    from.run
                })
                &&& !is_hang(events.last().0) ==> end.requests == without(from.requests, id)
            }
            &&& forall|other: Seq<char>|
                other != id ==> #[trigger] lookup(end.requests, other) == lookup(
                    from.requests,
                    other,
                )
        },
    decreases events.len(),
{
    if events.len() > 0 {
        let before = events.drop_last();
        a_request_ends(id, from, before);
        let mid = replay(id, from, before)->0;
        let (event, now) = events.last();
        let change = transition(mid.stage, event)->0;
        let end = replay(id, from, events)->0;
        requests_move_on(mid.stage, event);
        let moved = updated(mid.requests, id, change.state, now);
        let some_other = id.push('x');
        assert(some_other.len() != id.len());
        updated_is_found(mid.requests, id, change.state, now, some_other);
        completed_is_gone(moved, id, some_other);
        completing_forgets_moves(mid.requests, id, change.state, now);
        completed_is_gone(without(moved, id), id, some_other);
        assert forall|other: Seq<char>| other != id implies #[trigger] lookup(end.requests, other)
            == lookup(from.requests, other) by {
            updated_is_found(mid.requests, id, change.state, now, other);
            completed_is_gone(moved, id, other);
            assert(lookup(mid.requests, other) == lookup(from.requests, other));
        }
        if before.len() == 0 {
            assert(mid == from);
        }
    }
}

/// A hang that was seen stays seen, whatever happens to a request, however the wait for a task
/// ends, whatever the watch looks at, and whatever it decides.
pub proof fn a_hang_stays_seen(
    run: RunView,
    stage: Stage,
    event: ExchangeEvent,
    outcome: JoinOutcome,
    history: Seq<usize>,
)
    requires
        run.hang_detected,
    ensures
        transition(stage, event) matches Some(change) ==> run_after(run, change).hang_detected,
        run_after_join(run, outcome).hang_detected,
        run_after_look(run, history).hang_detected,
        run_after_verdict(run, history) == run,
{
}

/// Before the task runtimes were dropped, and while no connection is active, the watch itself
/// finds no hang.
pub proof fn a_quiet_run_is_no_hang(run: RunView, history: Seq<usize>)
    requires
        history.len() > 0,
        !run.post_drop_phase || history.last() == 0,
    ensures
        run_after_look(run, history) == run,
        run_after_verdict(run, history) == run,
{
    if history.last() == 0 && history.len() >= TREND {
        assert(recent(history)[TREND - 1] == history.last());
        assert(!not_decreasing(history));
    }
}

/// Where the analysis speaks of requests that run long, the report lists requests that may be
/// hanging.
pub proof fn long_running_requests_are_listed(
    requests: Seq<StatusView>,
    now: u64,
    seconds: Seq<Seq<char>>,
)
    requires
        long_count(requests, now) > 0,
    ensures
        hanging_section(requests, now, seconds).len() > 0,
{
    let long = |status: StatusView| runs_long(status, now);
    let found = requests.filter(long);
    requests.lemma_filter_contains_rev(long, found[0]);
    let i = choose|i: int| 0 <= i < requests.len() && requests[i] == found[0];
    requests.lemma_filter_pred(long, 0);
    long_running_may_hang(requests[i], now);
    assert(may_hang(requests[i], now));
}

/// A second of a run under watch.
pub struct Tick {
    /// The shared state when the watch looks.
    pub look: RunView,
    /// What others make of the shared state until the watch decides.
    pub decision: RunView,
}

/// How a watch stands.
pub enum Outcome {
    /// It goes on.
    Watching,
    /// It was stopped.
    Ended(Ending),
    /// It is over, and nothing stopped it.
    AllClear,
}

/// A watch: the numbers of active connections that it has seen, and how it stands.
pub struct Watch {
    pub history: Seq<usize>,
    pub outcome: Outcome,
}

/// The shared state that the watch decides on: a hang that the look found stays seen.
pub open spec fn found(history: Seq<usize>, tick: Tick) -> RunView {
    if run_after_look(tick.look, history).hang_detected {
        tick.decision.with_hang()
    } else {
        tick.decision
    }
}

/// A watch after one more second. One that does not go on stays as it is.
pub open spec fn after_tick(watch: Watch, tick: Tick) -> Watch {
    if watch.outcome !is Watching {
        watch
    } else {
        let history = watch.history.push(tick.look.active);
        let outcome = match ending(history, found(history, tick)) {
            Some(ending) => Outcome::Ended(ending),
            None => if history.len() >= LAST_TICK {
                Outcome::AllClear
            } else {
                Outcome::Watching
            },
        };
        Watch { history, outcome }
    }
}

/// A watch over the seconds of a run.
pub open spec fn watch_over(ticks: Seq<Tick>) -> Watch
    decreases ticks.len(),
{
    if ticks.len() == 0 {
        Watch { history: Seq::empty(), outcome: Outcome::Watching }
    } else {
        after_tick(watch_over(ticks.drop_last()), ticks.last())
    }
}

/// The numbers of active connections in the first seconds of a run.
pub open spec fn samples(ticks: Seq<Tick>, seconds: int) -> Seq<usize> {
    Seq::new(seconds as nat, |i: int| ticks[i].look.active)
}

/// A hang was seen before the watch decides at a look: by others, or in the trend.
pub open spec fn hang_at(ticks: Seq<Tick>, i: int) -> bool {
    ||| ticks[i].look.hang_detected
    ||| ticks[i].decision.hang_detected
    ||| trend_is_hang(samples(ticks, i + 1), ticks[i].look.post_drop_phase)
}

/// The run takes too long at a look: fifteen seconds have gone by, the task runtimes were
/// dropped, and connections are active.
pub open spec fn overdue_at(ticks: Seq<Tick>, i: int) -> bool {
    i + 1 >= 15 && ticks[i].decision.post_drop_phase && ticks[i].look.active > 0
}

/// Something stops the watch at a look.
pub open spec fn stops_at(ticks: Seq<Tick>, i: int) -> bool {
    hang_at(ticks, i) || overdue_at(ticks, i)
}

/// Nothing stops the watch in the first seconds of a run.
pub open spec fn nothing_stops(ticks: Seq<Tick>, seconds: int) -> bool {
    forall|i: int| 0 <= i < seconds ==> !#[trigger] stops_at(ticks, i)
}

/// How a watch stands after the seconds of a run.
proof fn how_a_watch_stands(ticks: Seq<Tick>)
    ensures
        ({
            let watch = watch_over(ticks);
            let looks = watch.history.len() as int;
            let last = ticks[looks - 1];
            let left = run_after_verdict(found(watch.history, last), watch.history);
            &&& looks <= ticks.len()
            &&& looks <= LAST_TICK
            &&& watch.history == samples(ticks, looks)
            &&& match watch.outcome {
                Outcome::Ended(ending) => {
                    &&& looks > 0
                    &&& stops_at(ticks, looks - 1)
                    &&& nothing_stops(ticks, looks - 1)
                    &&& (ending is Hang <==> hang_at(ticks, looks - 1))
                    &&& left.hang_detected
                },
                Outcome::AllClear => {
                    &&& looks == LAST_TICK
                    &&& nothing_stops(ticks, looks)
                    &&& !left.hang_detected
                },
                Outcome::Watching => {
                    &&& looks == ticks.len() < LAST_TICK
                    &&& nothing_stops(ticks, looks)
                },
            }
        }),
    decreases ticks.len(),
{
    if ticks.len() > 0 {
        let before = ticks.drop_last();
        how_a_watch_stands(before);
        let past = watch_over(before);
        let watch = watch_over(ticks);
        assert forall|i: int| 0 <= i < before.len() implies #[trigger] stops_at(ticks, i)
            == stops_at(before, i) && hang_at(ticks, i) == hang_at(before, i) by {
            assert(samples(ticks, i + 1) =~= samples(before, i + 1));
            assert(ticks[i] == before[i]);
        }
        assert(watch.history =~= samples(ticks, watch.history.len() as int));
        if past.outcome is Watching {
            let at = ticks.len() - 1;
            assert(watch.history == samples(ticks, at + 1));
            assert(ending(watch.history, found(watch.history, ticks[at])) is Some <==> stops_at(
                ticks,
                at,
            ));
        } else {
            assert(ticks[past.history.len() - 1] == before[past.history.len() - 1]);
        }
    }
}

/// A watch looks once in each second, and at most fifty-nine times. It ends at the first look at
/// which a hang was seen or the run takes too long, in that order of precedence, and then leaves
/// a hang seen. It goes on as long as there was no such look, and is all clear exactly when there
/// was none in fifty-nine seconds: then it leaves no hang seen.
pub proof fn the_watch_ends_at_the_first_sign(ticks: Seq<Tick>)
    ensures
        ({
            let watch = watch_over(ticks);
            let looks = watch.history.len() as int;
            let last = ticks[looks - 1];
            let left = run_after_verdict(found(watch.history, last), watch.history);
            &&& looks <= ticks.len()
            &&& looks <= LAST_TICK
            &&& watch.history == samples(ticks, looks)
            &&& match watch.outcome {
                Outcome::Ended(ending) => {
                    &&& looks > 0
                    &&& stops_at(ticks, looks - 1)
                    &&& nothing_stops(ticks, looks - 1)
                    &&& (ending is Hang <==> hang_at(ticks, looks - 1))
                    &&& left.hang_detected
                },
                Outcome::AllClear => {
                    &&& looks == LAST_TICK
                    &&& nothing_stops(ticks, looks)
                    &&& !left.hang_detected
                },
                Outcome::Watching => {
                    &&& looks == ticks.len() < LAST_TICK
                    &&& nothing_stops(ticks, looks)
                },
            }
        }),
        watch_over(ticks).outcome is AllClear <==> ticks.len() >= LAST_TICK && nothing_stops(
            ticks,
            LAST_TICK as int,
        ),
        watch_over(ticks).outcome is Ended <==> exists|i: int|
            0 <= i < ticks.len() && i < LAST_TICK && #[trigger] stops_at(ticks, i),
{
    how_a_watch_stands(ticks);
    let watch = watch_over(ticks);
    let looks = watch.history.len() as int;
    if watch.outcome is Ended {
        assert(stops_at(ticks, looks - 1));
    } else {
        assert forall|i: int| 0 <= i < ticks.len() && i < LAST_TICK implies !#[trigger] stops_at(
            ticks,
            i,
        ) by {
            assert(nothing_stops(ticks, looks));
        }
    }
}

/// The active connections after some were begun (`true`) and some ended (`false`), in any order.
pub open spec fn active_after(start: usize, events: Seq<bool>) -> usize
    decreases events.len(),
{
    if events.len() == 0 {
        start
    } else if events.last() {
        next_count(active_after(start, events.drop_last()))
    } else {
        previous_count(active_after(start, events.drop_last()))
    }
}

/// How many more connections were begun than ended.
pub open spec fn net(events: Seq<bool>) -> int
    decreases events.len(),
{
    if events.len() == 0 {
        0
    } else {
        net(events.drop_last()) + if events.last() {
            1int
        } else {
            -1
        }
    }
}

/// How often the counter went round on the way to the active connections.
proof fn rounds_of(start: usize, events: Seq<bool>) -> (rounds: int)
    ensures
        active_after(start, events) == start + net(events) + rounds * (usize::MAX + 1),
    decreases events.len(),
{
    if events.len() == 0 {
        0
    } else {
        let past = active_after(start, events.drop_last());
        let rounds = rounds_of(start, events.drop_last());
        let size = usize::MAX + 1;
        assert((rounds - 1) * size == rounds * size - size) by (nonlinear_arith);
        assert((rounds + 1) * size == rounds * size + size) by (nonlinear_arith);
        if events.last() && past == usize::MAX {
            rounds - 1
        } else if !events.last() && past == 0 {
            rounds + 1
        } else {
            rounds
        }
    }
}

/// However connections overlap, the number of active ones is the number at the start, plus those
/// that were begun, minus those that ended, if that is a number that the counter can hold.
pub proof fn overlapping_connections_balance(start: usize, events: Seq<bool>)
    requires
        0 <= start + net(events) <= usize::MAX,
    ensures
        active_after(start, events) == start + net(events),
{
    let rounds = rounds_of(start, events);
    let size = usize::MAX + 1;
    let expected = start + net(events);
    let active = active_after(start, events) as int;
    assert(rounds == 0) by (nonlinear_arith)
        requires
            0 <= expected < size,
            0 <= active < size,
            active == expected + rounds * size,
    ;
}

/// A record is named after its task number and a serial number, and its last change came neither
/// before it was made nor after the present.
pub open spec fn is_sound(status: StatusView, now: u64) -> bool {
    &&& status.start_time <= status.last_update <= now
    &&& exists|serial: usize| status.id == #[trigger] request_id(status.task_id, serial)
}

/// Every record is sound.
pub open spec fn all_sound(requests: Seq<StatusView>, now: u64) -> bool {
    forall|i: int| 0 <= i < requests.len() ==> is_sound(#[trigger] requests[i], now)
}

/// While the clock does not go back, making, moving and completing requests keeps every record
/// sound; without requests every record is.
pub proof fn records_stay_sound(
    requests: Seq<StatusView>,
    before: u64,
    now: u64,
    run: RunView,
    task_id: u32,
    url: Seq<char>,
    thread_name: Seq<char>,
    id: Seq<char>,
    state: Seq<char>,
)
    requires
        all_sound(requests, before),
        before <= now,
    ensures
        all_sound(Seq::empty(), now),
        all_sound(recorded(requests, new_status(run, task_id, url, now, thread_name)), now),
        all_sound(updated(requests, id, state, now), now),
        all_sound(without(requests, id), now),
{
    let made = new_status(run, task_id, url, now, thread_name);
    assert(made.id == request_id(made.task_id, run.next_serial));
    let after = recorded(requests, made);
    assert forall|i: int| 0 <= i < after.len() implies is_sound(#[trigger] after[i], now) by {
        if i < requests.len() {
            assert(is_sound(requests[i], before));
        }
    }
    let changed = updated(requests, id, state, now);
    assert forall|i: int| 0 <= i < changed.len() implies is_sound(#[trigger] changed[i], now) by {
        let status = requests[i];
        assert(is_sound(status, before));
        let serial = choose|serial: usize|
            status.id == #[trigger] request_id(status.task_id, serial);
        assert(changed[i].id == request_id(changed[i].task_id, serial));
    }
    let keep = |status: StatusView| status.id != id;
    let rest = without(requests, id);
    assert forall|i: int| 0 <= i < rest.len() implies is_sound(#[trigger] rest[i], now) by {
        requests.lemma_filter_contains_rev(keep, rest[i]);
        let k = choose|k: int| 0 <= k < requests.len() && requests[k] == rest[i];
        assert(is_sound(requests[k], before));
    }
}

/// Of two states to which a request is moved, the last one wins.
pub proof fn the_last_state_wins(
    requests: Seq<StatusView>,
    id: Seq<char>,
    first: Seq<char>,
    earlier: u64,
    second: Seq<char>,
    now: u64,
)
    ensures
        updated(updated(requests, id, first, earlier), id, second, now) == updated(
            requests,
            id,
            second,
            now,
        ),
{
    assert(updated(updated(requests, id, first, earlier), id, second, now) =~= updated(
        requests,
        id,
        second,
        now,
    ));
}

/// The order in which two requests are moved does not matter.
pub proof fn moves_of_two_requests_commute(
    requests: Seq<StatusView>,
    a: Seq<char>,
    state_a: Seq<char>,
    now_a: u64,
    b: Seq<char>,
    state_b: Seq<char>,
    now_b: u64,
)
    requires
        a != b,
    ensures
        updated(updated(requests, a, state_a, now_a), b, state_b, now_b) == updated(
            updated(requests, b, state_b, now_b),
            a,
            state_a,
            now_a,
        ),
{
    assert(updated(updated(requests, a, state_a, now_a), b, state_b, now_b) =~= updated(
        updated(requests, b, state_b, now_b),
        a,
        state_a,
        now_a,
    ));
}

/// How many elements pass does not depend on the order of the elements.
proof fn passing_count_ignores_order<A>(a: Seq<A>, b: Seq<A>, keep: spec_fn(A) -> bool)
    requires
        a.to_multiset() == b.to_multiset(),
    ensures
        a.filter(keep).len() == b.filter(keep).len(),
    decreases a.len(),
{
    broadcast use vstd::seq_lib::group_to_multiset_ensures;

    assert(a.len() == a.to_multiset().len() && b.len() == b.to_multiset().len());
    reveal(Seq::filter);
    if a.len() > 0 {
        let last = a.last();
        assert(a.contains(last));
        assert(b.to_multiset().count(last) > 0);
        let at = choose|at: int| 0 <= at < b.len() && b[at] == last;
        let rest = b.remove(at);
        assert(a.drop_last() =~= a.remove(a.len() - 1));
        assert(a.drop_last().to_multiset() =~= rest.to_multiset());
        passing_count_ignores_order(a.drop_last(), rest, keep);
        filter_without_one(b, keep, at);
    }
}

/// Taking out an element takes it out of those that pass, if it passes.
proof fn filter_without_one<A>(s: Seq<A>, keep: spec_fn(A) -> bool, at: int)
    requires
        0 <= at < s.len(),
    ensures
        s.filter(keep).len() == s.remove(at).filter(keep).len() + if keep(s[at]) {
            1int
        } else {
            0
        },
    decreases s.len(),
{
    reveal(Seq::filter);
    if at == s.len() - 1 {
        assert(s.remove(at) =~= s.drop_last());
    } else {
        filter_without_one(s.drop_last(), keep, at);
        assert(s.remove(at).drop_last() =~= s.drop_last().remove(at));
        assert(s.remove(at).last() == s.last());
    }
}

/// What the analysis looks at in a request: its state, its timeout, and the whole seconds since
/// it was made.
pub struct Standing {
    pub state: Seq<char>,
    pub timeout_secs: u64,
    pub seconds: nat,
}

/// What the analysis looks at in each request at a time.
pub open spec fn standings(requests: Seq<StatusView>, now: u64) -> Seq<Standing> {
    requests.map_values(
        |status: StatusView|
            Standing {
                state: status.state,
                timeout_secs: status.timeout_secs,
                seconds: elapsed_secs(status, now),
            },
    )
}

/// As many requests pass as what is looked at in them passes.
proof fn standings_pass_alike(
    requests: Seq<StatusView>,
    now: u64,
    keep: spec_fn(StatusView) -> bool,
    passes: spec_fn(Standing) -> bool,
)
    requires
        forall|i: int|
            0 <= i < requests.len() ==> keep(#[trigger] requests[i]) == passes(
                standings(requests, now)[i],
            ),
    ensures
        requests.filter(keep).len() == standings(requests, now).filter(passes).len(),
    decreases requests.len(),
{
    reveal(Seq::filter);
    if requests.len() > 0 {
        let rest = requests.drop_last();
        assert(standings(requests, now).drop_last() =~= standings(rest, now));
        assert forall|i: int| 0 <= i < rest.len() implies keep(#[trigger] rest[i]) == passes(
            standings(rest, now)[i],
        ) by {
            assert(keep(requests[i]) == passes(standings(requests, now)[i]));
        }
        standings_pass_alike(rest, now, keep, passes);
        assert(keep(requests[rest.len() as int]) == passes(
            standings(requests, now)[rest.len() as int],
        ));
    }
}

/// What the analysis finds depends on the states, the timeouts and the whole seconds elapsed
/// alone, however often each of them occurs together: not on the order of the requests, not on
/// anything else in them, and not on the time itself.
pub proof fn findings_depend_on_standings(
    a: Seq<StatusView>,
    now_a: u64,
    b: Seq<StatusView>,
    now_b: u64,
)
    requires
        standings(a, now_a).to_multiset() == standings(b, now_b).to_multiset(),
    ensures
        findings(a, now_a) == findings(b, now_b),
{
    let in_connecting = |status: StatusView| status.state == "connecting"@;
    let in_reading = |status: StatusView| status.state == "reading_body"@;
    let long_a = |status: StatusView| runs_long(status, now_a);
    let long_b = |status: StatusView| runs_long(status, now_b);
    let connecting = |standing: Standing| standing.state == "connecting"@;
    let reading = |standing: Standing| standing.state == "reading_body"@;
    let long = |standing: Standing| standing.seconds > (standing.timeout_secs * 3) / 4;
    standings_pass_alike(a, now_a, in_connecting, connecting);
    standings_pass_alike(b, now_b, in_connecting, connecting);
    standings_pass_alike(a, now_a, in_reading, reading);
    standings_pass_alike(b, now_b, in_reading, reading);
    standings_pass_alike(a, now_a, long_a, long);
    standings_pass_alike(b, now_b, long_b, long);
    passing_count_ignores_order(standings(a, now_a), standings(b, now_b), connecting);
    passing_count_ignores_order(standings(a, now_a), standings(b, now_b), reading);
    passing_count_ignores_order(standings(a, now_a), standings(b, now_b), long);
    assert(state_count(a, "connecting"@) == state_count(b, "connecting"@));
    assert(state_count(a, "reading_body"@) == state_count(b, "reading_body"@));
    assert(long_count(a, now_a) == long_count(b, now_b));
}

} // verus!
