//! What the answers of the library mean, told from the counts, the times and the states that they
//! are answers to.

use vstd::prelude::*;
use vstd::set_lib::lemma_len_subset;

use crate::monitor::{
    ending, hang_lines, hang_text, not_decreasing, observation_lines, overdue_text, recent,
    reports_at, run_after_look, run_after_verdict, Ending,
};
use crate::post_drop::{join_text, run_after_join, JoinOutcome};
use crate::report::{
    analysis_lines, findings, hanging_details, hanging_line, may_hang, origin_line, pending_lines,
    runs_long,
};
use crate::run_state::RunView;
use crate::text::{bracketed, decimal, decimal_is_injective, padded};
use crate::tracker::StatusView;
use crate::verdict::verdict_texts;

verus! {

/// The last six counts are positive, and none is smaller than the one before it.
proof fn trend_of_last_six(counts: Seq<usize>)
    ensures
        not_decreasing(counts) == {
            let n = counts.len() as int;
            &&& n >= 6
            &&& forall|i: int| n - 6 <= i < n ==> #[trigger] counts[i] > 0
            &&& forall|i: int| n - 6 < i < n ==> counts[i - 1] <= #[trigger] counts[i]
        },
{
    let n = counts.len() as int;
    let window = recent(counts);
    if n >= 6 {
        assert(forall|k: int| 0 <= k < 6 ==> #[trigger] window[k] == counts[n - 6 + k]);
        if not_decreasing(counts) {
            assert forall|i: int| n - 6 <= i < n implies #[trigger] counts[i] > 0 by {
                assert(window[i - (n - 6)] > 0);
            }
            assert forall|i: int| n - 6 < i < n implies counts[i - 1] <= #[trigger] counts[i] by {
                assert(window[i - 1 - (n - 6)] <= window[i - (n - 6)]);
            }
        }
        if forall|i: int| n - 6 < i < n ==> counts[i - 1] <= #[trigger] counts[i] {
            assert(counts[n - 6] <= counts[n - 5]);
            assert(counts[n - 5] <= counts[n - 4]);
            assert(counts[n - 4] <= counts[n - 3]);
            assert(counts[n - 3] <= counts[n - 2]);
            assert(counts[n - 2] <= counts[n - 1]);
        }
    }
}

/// A look in the phase after the drop finds a hang exactly when its number is a multiple of two
/// or three, six counts were seen, and each of the last six is positive and no smaller than the
/// one before it: a count that grows, as well as one that stays. Nothing else about the run
/// changes, and what is said at the look speaks of a hang exactly when it finds one.
pub proof fn a_count_that_does_not_fall_is_a_hang(run: RunView, counts: Seq<usize>)
    requires
        counts.len() > 0,
    ensures
        ({
            let n = counts.len() as int;
            let after = run_after_look(run, counts);
            let finds = {
                &&& run.post_drop_phase
                &&& n % 2 == 0 || n % 3 == 0
                &&& n >= 6
                &&& forall|i: int| n - 6 <= i < n ==> #[trigger] counts[i] > 0
                &&& forall|i: int| n - 6 < i < n ==> counts[i - 1] <= #[trigger] counts[i]
            };
            &&& after.hang_detected == (run.hang_detected || finds)
            &&& after == (RunView { hang_detected: after.hang_detected, ..run })
            &&& observation_lines(counts, run.post_drop_phase).contains(
                "🔥 HANG DETECTED: Connection count steadily increasing or not decreasing!"@,
            ) == finds
        }),
{
    trend_of_last_six(counts);
    let said = "🔥 HANG DETECTED: Connection count steadily increasing or not decreasing!"@;
    let lines = observation_lines(counts, run.post_drop_phase);
    reveal_strlit("🔥 HANG DETECTED: Connection count steadily increasing or not decreasing!");
    reveal_strlit("\n📊 MONITOR [");
    reveal_strlit("⚠️ WARNING: Connection count not decreasing: ");
    if lines.len() == 3 {
        assert(lines[2] == said);
    }
    assert forall|i: int| 0 <= i < lines.len() && i < 2 implies #[trigger] lines[i] != said by {
        assert(lines[i][0] != said[0]);
    }
}

/// A look reports at every third second, and after the drop at every second one as well. It then
/// gives the second and the count that it saw; where the last six counts are positive and do not
/// fall, it warns and gives those six.
pub proof fn a_look_tells_what_it_saw(counts: Seq<usize>, post_drop: bool)
    requires
        counts.len() > 0,
    ensures
        ({
            let n = counts.len() as int;
            let lines = observation_lines(counts, post_drop);
            let trend = {
                &&& n >= 6
                &&& forall|i: int| n - 6 <= i < n ==> #[trigger] counts[i] > 0
                &&& forall|i: int| n - 6 < i < n ==> counts[i - 1] <= #[trigger] counts[i]
            };
            &&& reports_at(counts.len(), post_drop) == (n % 3 == 0 || (post_drop && n % 2 == 0))
            &&& (lines.len() > 0) == (n % 3 == 0 || (post_drop && n % 2 == 0))
            &&& lines.len() > 0 ==> lines[0] == "\n📊 MONITOR ["@ + decimal(counts.len())
                + "s]: Active connections: "@ + decimal(counts[n - 1] as nat)
            &&& (lines.len() > 1) == (lines.len() > 0 && trend)
            &&& lines.len() > 1 ==> lines[1] == "⚠️ WARNING: Connection count not decreasing: "@
                + bracketed(counts.subrange(n - 6, n))
            &&& (lines.len() > 2) == (lines.len() > 1 && post_drop)
            &&& lines.len() <= 3
        }),
{
    let n = counts.len() as int;
    trend_of_last_six(counts);
    if n >= 6 {
        assert(recent(counts) =~= counts.subrange(n - 6, n));
    }
}

/// The watch stops for a hang exactly when one was seen, and as overdue exactly when none was
/// seen, fifteen seconds have gone by, the task runtimes were dropped, and connections are active.
/// In both cases, and in no other, a hang is seen after the decision; nothing else changes.
pub proof fn what_stops_the_watch(run: RunView, counts: Seq<usize>)
    requires
        counts.len() > 0,
    ensures
        ({
            let overdue = counts.len() >= 15 && run.post_drop_phase && counts[counts.len() - 1] > 0;
            let after = run_after_verdict(run, counts);
            &&& (ending(counts, run) == Some(Ending::Hang)) == run.hang_detected
            &&& (ending(counts, run) == Some(Ending::Overdue)) == (overdue && !run.hang_detected)
            &&& (ending(counts, run) is None) == (!overdue && !run.hang_detected)
            &&& after.hang_detected == (run.hang_detected || overdue)
            &&& after == (RunView { hang_detected: after.hang_detected, ..run })
        }),
{
}

/// A watch that stops says why, and gives every count that it saw.
pub proof fn a_stopped_watch_gives_its_counts(first: Seq<char>, counts: Seq<usize>, active: usize)
    ensures
        hang_lines(first, counts).len() == 4,
        hang_lines(first, counts)[0] == first,
        hang_lines(first, counts)[1]
            == "This reproduces the issue in production where connections"@,
        hang_lines(first, counts)[2] == "are leaked after a runtime is dropped."@,
        hang_lines(first, counts)[3] == "Connection count history: "@ + bracketed(counts),
        hang_text(counts.len()) == "\n⚠️ HANG DETECTED after "@ + decimal(counts.len())
            + " seconds!"@,
        overdue_text(active) == "\n⚠️ Test taking too long with "@ + decimal(active as nat)
            + " active connections - likely HANG situation"@,
{
}

/// Whatever the phase, a task that does not come to its end in time is a hang, and one whose wait
/// ends in any other way is not; nothing else changes. Something is said unless the task came to
/// its end.
pub proof fn a_join_that_times_out_is_a_hang(run: RunView, index: usize, outcome: JoinOutcome)
    ensures
        run_after_join(run, outcome).hang_detected == (run.hang_detected || outcome is TimedOut),
        run_after_join(run, outcome) == (RunView {
            hang_detected: run_after_join(run, outcome).hang_detected,
            ..run
        }),
        (join_text(index, outcome) is None) == (outcome is Done),
        outcome is TimedOut ==> join_text(index, outcome) == Some(
            "⏱️ Post-drop task "@ + decimal(index as nat) + " timed out - HANG DETECTED"@,
        ),
        outcome matches JoinOutcome::Broken(error) ==> join_text(index, outcome) == Some(
            "Post-drop task "@ + decimal(index as nat) + " join error: "@ + error@,
        ),
{
}

/// The end of a run says that the hang was reproduced exactly when one was seen, whatever the
/// phase, and then gives how many connections leaked and how many are active.
pub proof fn the_end_tells_whether_a_hang_was_seen(run: RunView)
    ensures
        ({
            let lines = verdict_texts(run);
            let reproduced = "\n🔴 TEST RESULT: Successfully reproduced hang condition!"@;
            let clean = "\n🟢 TEST RESULT: No hang detected in this run."@;
            &&& lines.contains(reproduced) == run.hang_detected
            &&& lines.contains(clean) == !run.hang_detected
            &&& (lines[0] == reproduced) == run.hang_detected
            &&& (lines[0] == clean) == !run.hang_detected
            &&& lines.len() == if run.hang_detected {
                12int
            } else {
                5
            }
            &&& run.hang_detected ==> lines[3] == "Leaked connections: "@ + decimal(
                run.leaked as nat,
            ) && lines[4] == "Active connections at end: "@ + decimal(run.active as nat)
            &&& run.hang_detected ==> {
                &&& lines[1]
                    == "The issue occurs when using a client after its runtime was dropped."@
                &&& lines[2] == "This matches the production issue you're experiencing."@
                &&& lines[5] == "\nREPRODUCTION PATTERN:"@
                &&& lines[6] == "1. Task runtime creates async tasks using shared global client"@
                &&& lines[7] == "2. These tasks hold TCP connections from connection pool"@
                &&& lines[8] == "3. Task runtime is dropped without proper cleanup"@
                &&& lines[9] == "4. Global runtime tries to use the same client"@
                &&& lines[10]
                    == "5. Hang occurs because connection resources weren't properly released"@
            }
            &&& !run.hang_detected ==> {
                &&& lines[1] == "The issue can be timing-dependent. It may require multiple runs"@
                &&& lines[2] == "or specific system conditions to trigger reliably."@
                &&& lines[3]
                    == "Try running with RUST_LOG=hyper=trace,tokio=trace for more details."@
            }
            &&& lines[lines.len() - 1] == "\nTest completed"@
        }),
{
    let lines = verdict_texts(run);
    let reproduced = "\n🔴 TEST RESULT: Successfully reproduced hang condition!"@;
    let clean = "\n🟢 TEST RESULT: No hang detected in this run."@;
    reveal_strlit("\n🔴 TEST RESULT: Successfully reproduced hang condition!");
    reveal_strlit("\n🟢 TEST RESULT: No hang detected in this run.");
    reveal_strlit("The issue occurs when using a client after its runtime was dropped.");
    reveal_strlit("This matches the production issue you're experiencing.");
    reveal_strlit("Leaked connections: ");
    reveal_strlit("Active connections at end: ");
    reveal_strlit("\nREPRODUCTION PATTERN:");
    reveal_strlit("1. Task runtime creates async tasks using shared global client");
    reveal_strlit("2. These tasks hold TCP connections from connection pool");
    reveal_strlit("3. Task runtime is dropped without proper cleanup");
    reveal_strlit("4. Global runtime tries to use the same client");
    reveal_strlit("5. Hang occurs because connection resources weren't properly released");
    reveal_strlit("\nTest completed");
    reveal_strlit("The issue can be timing-dependent. It may require multiple runs");
    reveal_strlit("or specific system conditions to trigger reliably.");
    reveal_strlit("Try running with RUST_LOG=hyper=trace,tokio=trace for more details.");
    assert(reproduced[1] != clean[1]);
    if run.hang_detected {
        assert(lines[0] == reproduced);
        assert forall|i: int| 0 <= i < lines.len() implies #[trigger] lines[i] != clean by {
            assert(lines[i][0] != clean[0] || lines[i][1] != clean[1]);
        }
    } else {
        assert(lines[0] == clean);
        assert forall|i: int| 0 <= i < lines.len() implies #[trigger] lines[i] != reproduced by {
            assert(lines[i][0] != reproduced[0] || lines[i][1] != reproduced[1]);
        }
    }
}

/// Two runs that agree on whether a hang was seen and on the numbers of leaked and active
/// connections are told the same at their ends; two that differ in one of them, and in which a
/// hang was seen, are not.
pub proof fn the_end_depends_on_three_things(a: RunView, b: RunView)
    ensures
        ({
            let agree = a.hang_detected == b.hang_detected && (a.hang_detected ==> a.leaked
                == b.leaked && a.active == b.active);
            (verdict_texts(a) == verdict_texts(b)) == agree
        }),
{
    the_end_tells_whether_a_hang_was_seen(a);
    the_end_tells_whether_a_hang_was_seen(b);
    if verdict_texts(a) == verdict_texts(b) && a.hang_detected {
        let words = "Leaked connections: "@;
        let more = "Active connections at end: "@;
        assert((words + decimal(a.leaked as nat)).skip(words.len() as int) =~= decimal(
            a.leaked as nat,
        ));
        assert((words + decimal(b.leaked as nat)).skip(words.len() as int) =~= decimal(
            b.leaked as nat,
        ));
        assert((more + decimal(a.active as nat)).skip(more.len() as int) =~= decimal(
            a.active as nat,
        ));
        assert((more + decimal(b.active as nat)).skip(more.len() as int) =~= decimal(
            b.active as nat,
        ));
        decimal_is_injective(a.leaked as nat, b.leaked as nat);
        decimal_is_injective(a.active as nat, b.active as nat);
    }
}

/// As many elements pass a filter as there are places of elements that pass it.
pub(crate) proof fn passing_places<A>(s: Seq<A>, keep: spec_fn(A) -> bool)
    ensures
        Set::new(|i: int| 0 <= i < s.len() && keep(s[i])).finite(),
        s.filter(keep).len() == Set::new(|i: int| 0 <= i < s.len() && keep(s[i])).len(),
    decreases s.len(),
{
    reveal(Seq::filter);
    let places = Set::new(|i: int| 0 <= i < s.len() && keep(s[i]));
    if s.len() == 0 {
        assert(places =~= Set::empty());
    } else {
        let rest = s.drop_last();
        let last = s.len() - 1;
        passing_places(rest, keep);
        let before = Set::new(|i: int| 0 <= i < rest.len() && keep(rest[i]));
        if keep(s.last()) {
            assert(places =~= before.insert(last));
        } else {
            assert(places =~= before);
        }
    }
}

/// A set of places holds at least so many as distinct ones can be found in it.
proof fn distinct_members(places: Set<int>)
    requires
        places.finite(),
    ensures
        places.len() >= 1 <==> exists|i: int| places.contains(i),
        places.len() >= 2 <==> exists|i: int, j: int|
            i != j && places.contains(i) && places.contains(j),
        places.len() >= 3 <==> exists|i: int, j: int, k: int|
            i != j && i != k && j != k && places.contains(i) && places.contains(j)
                && places.contains(k),
{
    if places.len() >= 1 {
        let i = places.choose();
        assert(places.contains(i));
        if places.len() >= 2 {
            let j = places.remove(i).choose();
            assert(places.remove(i).contains(j));
            assert(i != j && places.contains(i) && places.contains(j));
            if places.len() >= 3 {
                let k = places.remove(i).remove(j).choose();
                assert(places.remove(i).remove(j).contains(k));
                assert(i != k && j != k && places.contains(k));
            }
        }
    }
    if exists|i: int| places.contains(i) {
        let i = choose|i: int| places.contains(i);
        lemma_len_subset(set![i], places);
    }
    if exists|i: int, j: int| i != j && places.contains(i) && places.contains(j) {
        let (i, j) = choose|i: int, j: int| i != j && places.contains(i) && places.contains(j);
        lemma_len_subset(set![i, j], places);
    }
    if exists|i: int, j: int, k: int|
        i != j && i != k && j != k && places.contains(i) && places.contains(j) && places.contains(
            k,
        ) {
        let (i, j, k) = choose|i: int, j: int, k: int|
            i != j && i != k && j != k && places.contains(i) && places.contains(j)
                && places.contains(k);
        lemma_len_subset(set![i, j, k], places);
    }
}

/// The places of the requests in a state.
pub open spec fn places_in_state(requests: Seq<StatusView>, state: Seq<char>) -> Set<int> {
    Set::new(|i: int| 0 <= i < requests.len() && requests[i].state == state)
}

/// The places of the requests whose whole seconds since they were made are more than a share of
/// their timeouts, in quarters.
pub open spec fn places_beyond(requests: Seq<StatusView>, now: u64, quarters: int) -> Set<int> {
    Set::new(
        |i: int|
            0 <= i < requests.len() && now >= requests[i].start_time && (now
                - requests[i].start_time) / 1_000_000_000 > (requests[i].timeout_secs * quarters)
                / 4,
    )
}

/// The words of a finding are told apart by their last characters.
proof fn words_differ(m: nat, n: nat)
    ensures
        ({
            let connecting =
                " requests stuck in 'connecting' state - likely connection pool exhaustion"@;
            let reading =
                " requests stuck in 'reading_body' state - possible hang in connection keep-alive"@;
            let long = " requests running longer than 75% of timeout - likely deadlocked"@;
            &&& decimal(m) + connecting != decimal(n) + reading
            &&& decimal(m) + connecting != decimal(n) + long
            &&& decimal(m) + reading != decimal(n) + long
            &&& decimal(m) + connecting == decimal(n) + connecting ==> m == n
            &&& decimal(m) + reading == decimal(n) + reading ==> m == n
            &&& decimal(m) + long == decimal(n) + long ==> m == n
        }),
{
    reveal_strlit(" requests stuck in 'connecting' state - likely connection pool exhaustion");
    reveal_strlit(
        " requests stuck in 'reading_body' state - possible hang in connection keep-alive",
    );
    reveal_strlit(" requests running longer than 75% of timeout - likely deadlocked");
    let connecting =
        " requests stuck in 'connecting' state - likely connection pool exhaustion"@;
    let reading =
        " requests stuck in 'reading_body' state - possible hang in connection keep-alive"@;
    let long = " requests running longer than 75% of timeout - likely deadlocked"@;
    assert((decimal(m) + connecting).last() == 'n' && (decimal(m) + reading).last() == 'e');
    assert((decimal(n) + reading).last() == 'e' && (decimal(n) + long).last() == 'd');
    same_words(m, n, connecting);
    same_words(m, n, reading);
    same_words(m, n, long);
}

/// The same words after two numbers make the same text only where the numbers are the same.
proof fn same_words(m: nat, n: nat, words: Seq<char>)
    ensures
        decimal(m) + words == decimal(n) + words ==> m == n,
{
    let a = decimal(m) + words;
    let b = decimal(n) + words;
    if a == b {
        assert(a.len() == b.len());
        assert(a.take(a.len() - words.len()) =~= decimal(m));
        assert(b.take(b.len() - words.len()) =~= decimal(n));
        decimal_is_injective(m, n);
    }
}

/// The analysis speaks of requests in the state `connecting` exactly when there are three of
/// them, of requests in the state `reading_body` exactly when there are two, and of requests that
/// run long exactly when there is one that has taken more than three quarters of its time, in
/// whole seconds. It then gives how many there are, in this order, and says nothing else.
pub proof fn what_the_analysis_finds(requests: Seq<StatusView>, now: u64)
    ensures
        ({
            let found = findings(requests, now);
            let stuck = places_in_state(requests, "connecting"@);
            let reading = places_in_state(requests, "reading_body"@);
            let long = places_beyond(requests, now, 3);
            let three = exists|i: int, j: int, k: int|
                i != j && i != k && j != k && stuck.contains(i) && stuck.contains(j)
                    && stuck.contains(k);
            let two = exists|i: int, j: int|
                i != j && reading.contains(i) && reading.contains(j);
            let one = exists|i: int| long.contains(i);
            &&& found.len() == (if three {
                1int
            } else {
                0
            }) + (if two {
                1int
            } else {
                0
            }) + (if one {
                1int
            } else {
                0
            })
            &&& three ==> found[0] == decimal(stuck.len())
                + " requests stuck in 'connecting' state - likely connection pool exhaustion"@
            &&& two ==> found[if three {
                1
            } else {
                0
            }] == decimal(reading.len())
                + " requests stuck in 'reading_body' state - possible hang in connection keep-alive"@
            &&& one ==> found[found.len() - 1] == decimal(long.len())
                + " requests running longer than 75% of timeout - likely deadlocked"@
        }),
{
    let in_connecting = |status: StatusView| status.state == "connecting"@;
    let in_reading = |status: StatusView| status.state == "reading_body"@;
    let runs = |status: StatusView| runs_long(status, now);
    passing_places(requests, in_connecting);
    passing_places(requests, in_reading);
    passing_places(requests, runs);
    let stuck = places_in_state(requests, "connecting"@);
    let reading = places_in_state(requests, "reading_body"@);
    let long = places_beyond(requests, now, 3);
    assert(stuck =~= Set::new(|i: int| 0 <= i < requests.len() && in_connecting(requests[i])));
    assert(reading =~= Set::new(|i: int| 0 <= i < requests.len() && in_reading(requests[i])));
    assert(long =~= Set::new(|i: int| 0 <= i < requests.len() && runs(requests[i])));
    distinct_members(stuck);
    distinct_members(reading);
    distinct_members(long);
}

/// The findings of the analysis hold one on so many requests with these words.
pub open spec fn tells(found: Seq<Seq<char>>, words: Seq<char>, number: nat) -> bool {
    found.contains(decimal(number) + words)
}

/// The findings on the requests in a state, or on those that run long, give the number of their
/// places, and no other number; there is one exactly when there are three, two, or one of them.
pub proof fn findings_count_places(requests: Seq<StatusView>, now: u64, number: nat)
    ensures
        ({
            let found = findings(requests, now);
            let stuck = places_in_state(requests, "connecting"@).len();
            let reading = places_in_state(requests, "reading_body"@).len();
            let long = places_beyond(requests, now, 3).len();
            &&& tells(
                found,
                " requests stuck in 'connecting' state - likely connection pool exhaustion"@,
                number,
            ) == (number == stuck && number >= 3)
            &&& tells(
                found,
                " requests stuck in 'reading_body' state - possible hang in connection keep-alive"@,
                number,
            ) == (number == reading && number >= 2)
            &&& tells(
                found,
                " requests running longer than 75% of timeout - likely deadlocked"@,
                number,
            ) == (number == long && number >= 1)
        }),
{
    what_the_analysis_finds(requests, now);
    let found = findings(requests, now);
    let places = places_in_state(requests, "connecting"@);
    let reading_places = places_in_state(requests, "reading_body"@);
    let long_places = places_beyond(requests, now, 3);
    let all = Set::new(|i: int| 0 <= i < requests.len());
    vstd::set_lib::lemma_int_range(0, requests.len() as int);
    assert(all =~= vstd::set_lib::set_int_range(0, requests.len() as int));
    lemma_len_subset(places, all);
    lemma_len_subset(reading_places, all);
    lemma_len_subset(long_places, all);
    distinct_members(places);
    distinct_members(reading_places);
    distinct_members(long_places);
    let (a, b, c) = (places.len(), reading_places.len(), long_places.len());
    words_differ(number, a);
    words_differ(a, number);
    words_differ(number, b);
    words_differ(b, number);
    words_differ(number, c);
    words_differ(c, number);
    let connecting =
        " requests stuck in 'connecting' state - likely connection pool exhaustion"@;
    let reading =
        " requests stuck in 'reading_body' state - possible hang in connection keep-alive"@;
    let long = " requests running longer than 75% of timeout - likely deadlocked"@;
    assert forall|i: int| 0 <= i < found.len() implies #[trigger] found[i] == decimal(a)
        + connecting || found[i] == decimal(b) + reading || found[i] == decimal(c) + long by {}
    if a >= 3 {
        assert(found[0] == decimal(a) + connecting);
    }
    if c >= 1 {
        assert(found[found.len() - 1] == decimal(c) + long);
    }
    if b >= 2 {
        let at = if a >= 3 {
            1int
        } else {
            0
        };
        assert(found[at] == decimal(b) + reading);
    }
    assert forall|i: int|
        0 <= i < found.len() && #[trigger] found[i] == decimal(number) + connecting implies a >= 3
        && number == a by {}
    assert forall|i: int|
        0 <= i < found.len() && #[trigger] found[i] == decimal(number) + reading implies b >= 2
        && number == b by {}
    assert forall|i: int|
        0 <= i < found.len() && #[trigger] found[i] == decimal(number) + long implies c >= 1
        && number == c by {}
}

/// A further request, in whatever state and however old, never takes away a finding.
pub proof fn findings_grow(requests: Seq<StatusView>, more: StatusView, now: u64, number: nat)
    ensures
        ({
            let found = findings(requests, now);
            let grown = findings(requests.push(more), now);
            let connecting =
                " requests stuck in 'connecting' state - likely connection pool exhaustion"@;
            let reading =
                " requests stuck in 'reading_body' state - possible hang in connection keep-alive"@;
            let long = " requests running longer than 75% of timeout - likely deadlocked"@;
            &&& tells(found, connecting, number) ==> tells(
                grown,
                connecting,
                number + if more.state == "connecting"@ {
                    1nat
                } else {
                    0
                },
            )
            &&& tells(found, reading, number) ==> tells(
                grown,
                reading,
                number + if more.state == "reading_body"@ {
                    1nat
                } else {
                    0
                },
            )
            &&& tells(found, long, number) ==> tells(grown, long, number) || tells(
                grown,
                long,
                number + 1,
            )
        }),
{
    let after = requests.push(more);
    let last = requests.len() as int;
    findings_count_places(requests, now, number);
    findings_count_places(after, now, number);
    findings_count_places(after, now, number + 1);
    places_grow(requests, more, "connecting"@);
    places_grow(requests, more, "reading_body"@);
    let before = places_beyond(requests, now, 3);
    let grown = places_beyond(after, now, 3);
    places_are_finite(requests, now);
    assert(grown =~= before || grown =~= before.insert(last)) by {
        if grown.contains(last) {
            assert(grown =~= before.insert(last));
        } else {
            assert(grown =~= before);
        }
    }
}

/// There are finitely many places.
proof fn places_are_finite(requests: Seq<StatusView>, now: u64)
    ensures
        places_beyond(requests, now, 3).finite(),
        places_beyond(requests, now, 2).finite(),
        forall|state: Seq<char>| #[trigger] places_in_state(requests, state).finite(),
{
    let all = vstd::set_lib::set_int_range(0, requests.len() as int);
    vstd::set_lib::lemma_int_range(0, requests.len() as int);
    lemma_len_subset(places_beyond(requests, now, 3), all);
    lemma_len_subset(places_beyond(requests, now, 2), all);
    assert forall|state: Seq<char>| #[trigger] places_in_state(requests, state).finite() by {
        lemma_len_subset(places_in_state(requests, state), all);
    }
}

/// A further request adds its place to those of its state, and to no others.
proof fn places_grow(requests: Seq<StatusView>, more: StatusView, state: Seq<char>)
    ensures
        places_in_state(requests.push(more), state).len() == places_in_state(requests, state).len()
            + if more.state == state {
            1nat
        } else {
            0
        },
{
    let before = places_in_state(requests, state);
    let grown = places_in_state(requests.push(more), state);
    places_are_finite(requests, 0);
    if more.state == state {
        assert(grown =~= before.insert(requests.len() as int));
    } else {
        assert(grown =~= before);
    }
}

/// Where nothing was found nothing is said. Otherwise each finding is said, in order, between a
/// heading and the likely cause.
pub proof fn every_finding_is_said(found: Seq<Seq<char>>)
    ensures
        ({
            let lines = analysis_lines(found);
            &&& (lines.len() == 0) == (found.len() == 0)
            &&& found.len() > 0 ==> {
                &&& lines.len() == found.len() + 2
                &&& lines[0] == "\n🔬 HANG ANALYSIS:"@
                &&& forall|i: int| 0 <= i < found.len() ==> lines[i + 1] == " • "@ + #[trigger] found[i]
                &&& lines[lines.len() - 1]
                    == " • Most likely cause: Connection pool resources tied to dropped runtime"@
            }
        }),
{
}

/// The places below a limit of the requests that have taken more than half of their time, in
/// whole seconds.
pub open spec fn hanging_places(requests: Seq<StatusView>, now: u64, limit: int) -> Set<int> {
    Set::new(
        |i: int|
            0 <= i < requests.len() && i < limit && now >= requests[i].start_time && (now
                - requests[i].start_time) / 1_000_000_000 > requests[i].timeout_secs / 2,
    )
}

/// The places below a limit are finitely many, and one more where the request there is hanging.
proof fn hanging_places_step(requests: Seq<StatusView>, now: u64, limit: int)
    requires
        0 <= limit < requests.len(),
    ensures
        hanging_places(requests, now, limit).finite(),
        hanging_places(requests, now, limit + 1).finite(),
        hanging_places(requests, now, limit + 1).len() == hanging_places(requests, now, limit).len()
            + if may_hang(requests[limit], now) {
            1nat
        } else {
            0
        },
        may_hang(requests[limit], now) == hanging_places(
            requests,
            now,
            requests.len() as int,
        ).contains(limit),
{
    let all = vstd::set_lib::set_int_range(0, requests.len() as int);
    vstd::set_lib::lemma_int_range(0, requests.len() as int);
    let before = hanging_places(requests, now, limit);
    let after = hanging_places(requests, now, limit + 1);
    lemma_len_subset(before, all);
    if may_hang(requests[limit], now) {
        assert(after =~= before.insert(limit));
    } else {
        assert(after =~= before);
    }
}

/// Where the lines on a request that may be hanging stand.
proof fn where_details_stand(requests: Seq<StatusView>, now: u64, seconds: Seq<Seq<char>>)
    ensures
        ({
            let n = requests.len() as int;
            let details = hanging_details(requests, now, seconds);
            &&& details.len() == 2 * hanging_places(requests, now, n).len()
            &&& forall|i: int| #[trigger]
                hanging_places(requests, now, n).contains(i) ==> {
                    let at = 2 * hanging_places(requests, now, i).len() as int;
                    &&& at + 1 < details.len()
                    &&& details[at] == hanging_line(requests[i], seconds[i])
                    &&& details[at + 1] == origin_line(requests[i])
                }
        }),
    decreases requests.len(),
{
    let n = requests.len() as int;
    let places = hanging_places(requests, now, n);
    if n == 0 {
        assert(places =~= Set::empty());
    } else {
        let rest = requests.drop_last();
        where_details_stand(rest, now, seconds);
        hanging_places_step(requests, now, n - 1);
        assert(hanging_places(rest, now, n - 1) =~= hanging_places(requests, now, n - 1));
        let details = hanging_details(requests, now, seconds);
        assert forall|i: int| #[trigger] places.contains(i) implies ({
            let at = 2 * hanging_places(requests, now, i).len() as int;
            &&& at + 1 < details.len()
            &&& details[at] == hanging_line(requests[i], seconds[i])
            &&& details[at + 1] == origin_line(requests[i])
        }) by {
            if i < n - 1 {
                assert(hanging_places(rest, now, n - 1).contains(i));
                assert(hanging_places(rest, now, i) =~= hanging_places(requests, now, i));
            }
        }
    }
}

/// The report lists every request that has taken more than half of its time, in whole seconds:
/// behind the table come a heading and, for each such request and for no other, in order, a line
/// on it and a line on where it came from. Where there is none, nothing comes behind the table.
pub proof fn every_hanging_request_is_listed(
    requests: Seq<StatusView>,
    now: u64,
    seconds: Seq<Seq<char>>,
)
    requires
        requests.len() > 0,
    ensures
        ({
            let n = requests.len() as int;
            let lines = pending_lines(requests, now, seconds);
            let places = hanging_places(requests, now, n);
            &&& places.finite()
            &&& lines.len() == n + 5 + if places.len() == 0 {
                0
            } else {
                1 + 2 * places.len() as int
            }
            &&& places.len() > 0 ==> lines[n + 5] == "\n⚠️ POTENTIALLY HANGING REQUESTS:"@
            &&& forall|i: int| #[trigger]
                places.contains(i) ==> {
                    let at = n + 6 + 2 * hanging_places(requests, now, i).len() as int;
                    &&& at + 1 < lines.len()
                    &&& lines[at] == " - "@ + requests[i].id + " (Task "@ + decimal(
                        requests[i].task_id as nat,
                    ) + ", "@ + requests[i].phase + ") in state '"@ + requests[i].state + "' for "@
                        + seconds[i] + "s"@
                    &&& lines[at + 1] == "   Runtime: "@ + requests[i].runtime_name + ", URL: "@
                        + requests[i].url
                }
        }),
{
    let n = requests.len() as int;
    let places = hanging_places(requests, now, n);
    let lines = pending_lines(requests, now, seconds);
    let details = hanging_details(requests, now, seconds);
    where_details_stand(requests, now, seconds);
    hanging_places_step(requests, now, n - 1);
    if places.len() == 0 {
        assert forall|i: int| 0 <= i < n implies !may_hang(#[trigger] requests[i], now) by {
            hanging_places_step(requests, now, i);
        }
        assert forall|i: int| !#[trigger] places.contains(i) by {}
    } else {
        let some = places.choose();
        assert(places.contains(some));
        hanging_places_step(requests, now, some);
        assert(may_hang(requests[some], now));
        assert forall|i: int| #[trigger] places.contains(i) implies ({
            let at = 2 * hanging_places(requests, now, i).len() as int;
            &&& lines[n + 6 + at] == details[at]
            &&& lines[n + 6 + at + 1] == details[at + 1]
        }) by {}
    }
}

/// The table has a row for each request, in order. A row gives the name, the task number, the
/// phase, the state and the seconds of its request, and marks it exactly when it has taken more
/// than half of its time. Without requests there is no table.
pub proof fn every_request_has_a_row(
    requests: Seq<StatusView>,
    now: u64,
    seconds: Seq<Seq<char>>,
)
    ensures
        ({
            let n = requests.len() as int;
            let lines = pending_lines(requests, now, seconds);
            &&& n == 0 ==> lines == seq!["🔍 No pending requests"@]
            &&& n > 0 ==> {
                &&& lines.len() >= n + 5
                &&& lines[0] == "\n🔍 PENDING REQUESTS ("@ + decimal(requests.len()) + "):"@
                &&& lines[1]
                    == "┌───────────────┬──────────┬──────────┬────────────────┬──────────────┐"@
                &&& lines[2]
                    == "│ Request ID    │ Task ID  │ Phase    │ State          │ Elapsed      │"@
                &&& lines[3]
                    == "├───────────────┼──────────┼──────────┼────────────────┼──────────────┤"@
                &&& lines[n + 4]
                    == "└───────────────┴──────────┴──────────┴────────────────┴──────────────┘"@
                &&& forall|i: int|
                    0 <= i < n ==> lines[i + 4] == "│ "@ + padded(
                        if hanging_places(requests, now, n).contains(i) {
                            "⚠️ "@ + requests[i].id
                        } else {
                            (#[trigger] requests[i]).id
                        },
                        13,
                    ) + " │ "@ + padded(decimal(requests[i].task_id as nat), 8) + " │ "@ + padded(
                        requests[i].phase,
                        8,
                    ) + " │ "@ + padded(requests[i].state, 14) + " │ "@ + padded(
                        seconds[i] + "s"@,
                        12,
                    ) + " │"@
            }
        }),
{
    let n = requests.len() as int;
    reveal_strlit("");
    assert forall|i: int| 0 <= i < n implies (#[trigger] requests[i]).id =~= ""@ + requests[i].id
        && may_hang(requests[i], now) == hanging_places(requests, now, n).contains(i) by {
        hanging_places_step(requests, now, i);
    }
}

} // verus!
