//! The watch over a run: once a second it looks at the number of active connections, reports,
//! and decides whether the run hangs.

use vstd::prelude::*;
use vstd::string::*;

use crate::answers::a_count_that_does_not_fall_is_a_hang;
use crate::run_state::{RunState, RunView};
use crate::text::{add_line, bracketed, decimal, decimal_text, list_text, texts};

verus! {

/// How many times the watch looks at most.
pub const LAST_TICK: usize = 59;

/// How many looks a trend takes.
pub const TREND: usize = 6;

/// The watch over a run: the numbers of active connections that it has seen, one for each look.
pub struct HangMonitor {
    history: Vec<usize>,
}

impl View for HangMonitor {
    type V = Seq<usize>;

    closed spec fn view(&self) -> Seq<usize> {
        self.history@
    }
}

/// What a look brings.
pub struct Observation {
    /// What to say.
    pub lines: Vec<String>,
    /// Report on the requests that are under way.
    pub report_pending: bool,
    /// Then analyze them.
    pub analyze: bool,
}

/// What the watch decides after a look.
pub enum MonitorVerdict {
    /// Go on.
    Continue,
    /// The run hangs: say this, report on the requests and analyze them, and stop.
    Hang(Vec<String>),
    /// The run takes too long: say this, and stop.
    Overdue(Vec<String>),
}

/// The watch reports at a look.
pub open spec fn reports_at(tick: nat, post_drop: bool) -> bool {
    tick % 3 == 0 || (post_drop && tick % 2 == 0)
}

/// The most recent numbers of a history that is long enough for a trend.
pub open spec fn recent(history: Seq<usize>) -> Seq<usize> {
    history.skip(history.len() - TREND)
}

/// All the most recent numbers are positive, and none is smaller than one before it.
pub open spec fn not_decreasing(history: Seq<usize>) -> bool {
    &&& history.len() >= TREND
    &&& forall|i: int| 0 <= i < TREND ==> #[trigger] recent(history)[i] > 0
    &&& forall|i: int, j: int|
        0 <= i <= j < TREND ==> #[trigger] recent(history)[i] <= #[trigger] recent(history)[j]
}

/// A look finds a hang in the history: the number of connections does not decrease after the
/// task runtimes were dropped.
pub open spec fn trend_is_hang(history: Seq<usize>, post_drop: bool) -> bool {
    reports_at(history.len(), post_drop) && not_decreasing(history) && post_drop
}

/// What is said at a look.
pub open spec fn observation_lines(history: Seq<usize>, post_drop: bool) -> Seq<Seq<char>> {
    if !reports_at(history.len(), post_drop) {
        Seq::empty()
    } else {
        let status = "\n📊 MONITOR ["@ + decimal(history.len()) + "s]: Active connections: "@
            + decimal(history.last() as nat);
        let warning = "⚠️ WARNING: Connection count not decreasing: "@ + bracketed(
            recent(history),
        );
        if !not_decreasing(history) {
            seq![status]
        } else if !post_drop {
            seq![status, warning]
        } else {
            seq![
                status,
                warning,
                "🔥 HANG DETECTED: Connection count steadily increasing or not decreasing!"@,
            ]
        }
    }
}

/// The shared state after a look.
pub open spec fn run_after_look(run: RunView, history: Seq<usize>) -> RunView {
    if trend_is_hang(history, run.post_drop_phase) {
        run.with_hang()
    } else {
        run
    }
}

/// The run takes too long.
pub open spec fn is_overdue(history: Seq<usize>, run: RunView) -> bool {
    history.len() >= 15 && run.post_drop_phase && history.last() > 0
}

/// What a hang is followed by.
pub open spec fn hang_lines(first: Seq<char>, history: Seq<usize>) -> Seq<Seq<char>> {
    seq![
        first,
        "This reproduces the issue in production where connections"@,
        "are leaked after a runtime is dropped."@,
        "Connection count history: "@ + bracketed(history),
    ]
}

/// What is said first when a hang was seen.
pub open spec fn hang_text(tick: nat) -> Seq<char> {
    "\n⚠️ HANG DETECTED after "@ + decimal(tick) + " seconds!"@
}

/// What is said first when the run takes too long.
pub open spec fn overdue_text(connections: usize) -> Seq<char> {
    "\n⚠️ Test taking too long with "@ + decimal(connections as nat)
        + " active connections - likely HANG situation"@
}

/// What makes the watch stop before it is over.
pub enum Ending {
    /// A hang was seen.
    Hang,
    /// The run takes too long.
    Overdue,
}

/// What makes the watch stop after a look, or nothing where it goes on.
pub open spec fn ending(history: Seq<usize>, run: RunView) -> Option<Ending> {
    if run.hang_detected {
        Some(Ending::Hang)
    } else if is_overdue(history, run) {
        Some(Ending::Overdue)
    } else {
        None
    }
}

/// The shared state after a decision.
pub open spec fn run_after_verdict(run: RunView, history: Seq<usize>) -> RunView {
    if ending(history, run) is Some {
        run.with_hang()
    } else {
        run
    }
}

/// Whether all the most recent numbers are positive, and none is smaller than one before it.
fn counts_not_decreasing(history: &Vec<usize>) -> (result: bool)
    ensures
        result == not_decreasing(history@),
{
    let length: usize = history.len();
    if length < TREND {
        return false;
    }
    let start: usize = length - TREND;
    let ghost window = recent(history@);
    let mut i: usize = 0;
    while i < TREND
        invariant
            i <= TREND,
            length == history@.len(),
            start + TREND == length,
            window == recent(history@),
            forall|k: int| 0 <= k < i ==> #[trigger] window[k] > 0,
            forall|k: int, l: int|
                0 <= k <= l < i ==> #[trigger] window[k] <= #[trigger] window[l],
        decreases TREND - i,
    {
        assert(window[i as int] == history@[start + i]);
        if history[start + i] == 0 {
            return false;
        }
        if i > 0 {
            assert(window[i - 1] == history@[start + i - 1]);
            if history[start + i - 1] > history[start + i] {
                return false;
            }
        }
        i = i + 1;
    }
    true
}

/// The most recent numbers of a history.
fn recent_counts(history: &Vec<usize>) -> (counts: Vec<usize>)
    requires
        history@.len() >= TREND,
    ensures
        counts@ == recent(history@),
{
    let start: usize = history.len() - TREND;
    let mut counts: Vec<usize> = Vec::new();
    let mut i: usize = start;
    while i < history.len()
        invariant
            start + TREND == history@.len(),
            start <= i <= history@.len(),
            counts@ =~= history@.subrange(start as int, i as int),
        decreases history@.len() - i,
    {
        counts.push(history[i]);
        i = i + 1;
    }
    assert(counts@ =~= recent(history@));
    counts
}

impl HangMonitor {
    /// A watch that has not looked yet.
    pub fn new() -> (monitor: HangMonitor)
        ensures
            monitor@ == Seq::<usize>::empty(),
    {
        HangMonitor { history: Vec::new() }
    }

    /// Looks at the run, once for each second of it; nothing when the watch is over.
    pub fn observe(&mut self, run: &mut RunState) -> (observation: Option<Observation>)
        ensures
            old(self)@.len() >= LAST_TICK ==> {
                &&& observation is None
                &&& final(self)@ == old(self)@
                &&& final(run)@ == old(run)@
            },
            old(self)@.len() < LAST_TICK ==> {
                let history = old(self)@.push(old(run)@.active);
                let post_drop = old(run)@.post_drop_phase;
                &&& final(self)@ == history
                &&& final(run)@ == run_after_look(old(run)@, history)
                &&& observation matches Some(seen)
                &&& texts(seen.lines@) == observation_lines(history, post_drop)
                &&& seen.report_pending == reports_at(history.len(), post_drop)
                &&& seen.analyze == (reports_at(history.len(), post_drop) && history.len() >= 10
                    && post_drop)
            },
            observation is Some <==> old(self)@.len() < 59,
            observation matches Some(seen) ==> {
                let n = final(self)@.len() as int;
                let counts = final(self)@;
                let post_drop = old(run)@.post_drop_phase;
                &&& counts == old(self)@.push(old(run)@.active)
                &&& seen.report_pending == (n % 3 == 0 || (post_drop && n % 2 == 0))
                &&& seen.analyze == (post_drop && n >= 10 && (n % 3 == 0 || n % 2 == 0))
                &&& final(run)@.hang_detected == (old(run)@.hang_detected || {
                    &&& post_drop
                    &&& n % 2 == 0 || n % 3 == 0
                    &&& n >= 6
                    &&& forall|i: int| n - 6 <= i < n ==> #[trigger] counts[i] > 0
                    &&& forall|i: int| n - 6 < i < n ==> counts[i - 1] <= #[trigger] counts[i]
                })
                &&& texts(seen.lines@).contains(
                    "🔥 HANG DETECTED: Connection count steadily increasing or not decreasing!"@,
                ) ==> final(run)@.hang_detected
            },
    {
        if self.history.len() >= LAST_TICK {
            return None;
        }
        let current: usize = run.active_connections();
        let post_drop: bool = run.post_drop_phase();
        self.history.push(current);
        let tick: usize = self.history.len();
        let ghost history = self.history@;

        let mut lines: Vec<String> = Vec::new();
        let report: bool = tick % 3 == 0 || (post_drop && tick % 2 == 0);
        if report {
            let mut status: String = String::from_str("\n📊 MONITOR [");
            status.append(decimal_text(tick as u64).as_str());
            status.append("s]: Active connections: ");
            status.append(decimal_text(current as u64).as_str());
            add_line(&mut lines, status);
            if counts_not_decreasing(&self.history) {
                let mut warning: String = String::from_str(
                    "⚠️ WARNING: Connection count not decreasing: ",
                );
                warning.append(list_text(recent_counts(&self.history).as_slice()).as_str());
                add_line(&mut lines, warning);
                if post_drop {
                    add_line(
                        &mut lines,
                        String::from_str(
                            "🔥 HANG DETECTED: Connection count steadily increasing or not decreasing!",
                        ),
                    );
                    run.report_hang();
                }
            }
        }
        assert(texts(lines@) =~= observation_lines(history, post_drop));
        proof {
            a_count_that_does_not_fall_is_a_hang(old(run)@, history);
        }
        Some(
            Observation {
                lines,
                report_pending: report,
                analyze: report && tick >= 10 && post_drop,
            },
        )
    }

    /// Decides after a look whether the run hangs or takes too long. A run that takes too long
    /// hangs, too.
    pub fn decide(&self, run: &mut RunState) -> (verdict: MonitorVerdict)
        requires
            self@.len() > 0,
        ensures
            final(run)@ == run_after_verdict(old(run)@, self@),
            match ending(self@, old(run)@) {
                Some(Ending::Hang) => {
                    &&& verdict matches MonitorVerdict::Hang(lines)
                    &&& texts(lines@) == hang_lines(hang_text(self@.len()), self@)
                },
                Some(Ending::Overdue) => {
                    &&& verdict matches MonitorVerdict::Overdue(lines)
                    &&& texts(lines@) == hang_lines(overdue_text(self@.last()), self@)
                },
                None => verdict is Continue,
            },
    {
        let tick: usize = self.history.len();
        let current: usize = self.history[tick - 1];
        if run.hang_detected() {
            let mut first: String = String::from_str("\n⚠️ HANG DETECTED after ");
            first.append(decimal_text(tick as u64).as_str());
            first.append(" seconds!");
            return MonitorVerdict::Hang(self.explain(first));
        }
        if tick >= 15 && run.post_drop_phase() && current > 0 {
            let mut first: String = String::from_str("\n⚠️ Test taking too long with ");
            first.append(decimal_text(current as u64).as_str());
            first.append(" active connections - likely HANG situation");
            run.report_hang();
            return MonitorVerdict::Overdue(self.explain(first));
        }
        MonitorVerdict::Continue
    }

    /// What a hang is followed by.
    fn explain(&self, first: String) -> (lines: Vec<String>)
        ensures
            texts(lines@) == hang_lines(first@, self@),
    {
        let ghost said = first@;
        let mut lines: Vec<String> = Vec::new();
        add_line(&mut lines, first);
        add_line(
            &mut lines,
            String::from_str("This reproduces the issue in production where connections"),
        );
        add_line(&mut lines, String::from_str("are leaked after a runtime is dropped."));
        let mut last: String = String::from_str("Connection count history: ");
        last.append(list_text(self.history.as_slice()).as_str());
        add_line(&mut lines, last);
        assert(texts(lines@) =~= hang_lines(said, self@));
        lines
    }
}

/// What is said when the watch is over and no hang was seen.
pub fn all_clear_line(elapsed_secs: u64) -> (line: String)
    ensures
        line@ == "\n✅ No hang detected after "@ + decimal(elapsed_secs as nat) + " seconds"@,
{
    let mut line: String = String::from_str("\n✅ No hang detected after ");
    line.append(decimal_text(elapsed_secs).as_str());
    line.append(" seconds");
    line
}

} // verus!
