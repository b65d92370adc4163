//! What is said about the requests that are under way: the table of all of them, the ones that
//! may be hanging, and what their states suggest.

use vstd::prelude::*;
use vstd::string::*;

use crate::text::{add_line, decimal, decimal_text, pad_right, padded, texts};
use crate::tracker::{RequestStatus, RequestTracker, StatusView};

verus! {

/// Nanoseconds in a second.
pub const NANOS_PER_SEC: u64 = 1_000_000_000;

/// The nanoseconds since a request was made; none where the clock stands before that.
pub open spec fn elapsed(status: StatusView, now: u64) -> nat {
    if now >= status.start_time {
        (now - status.start_time) as nat
    } else {
        0
    }
}

/// The whole seconds since a request was made.
pub open spec fn elapsed_secs(status: StatusView, now: u64) -> nat {
    elapsed(status, now) / (NANOS_PER_SEC as nat)
}

/// The request has taken more than half of its time.
pub open spec fn may_hang(status: StatusView, now: u64) -> bool {
    elapsed_secs(status, now) > status.timeout_secs / 2
}

/// The request has taken more than three quarters of its time.
pub open spec fn runs_long(status: StatusView, now: u64) -> bool {
    elapsed_secs(status, now) > (status.timeout_secs * 3) / 4
}

/// How many requests are in a state.
pub open spec fn state_count(requests: Seq<StatusView>, state: Seq<char>) -> nat {
    requests.filter(|status: StatusView| status.state == state).len()
}

/// How many requests run long.
pub open spec fn long_count(requests: Seq<StatusView>, now: u64) -> nat {
    requests.filter(|status: StatusView| runs_long(status, now)).len()
}

/// The row of a request in the table; `seconds` is the text of the seconds since it was made.
pub open spec fn table_row(status: StatusView, now: u64, seconds: Seq<char>) -> Seq<char> {
    let mark = if may_hang(status, now) {
        "⚠️ "@
    } else {
        ""@
    };
    "│ "@ + padded(mark + status.id, 13) + " │ "@ + padded(decimal(status.task_id as nat), 8)
        + " │ "@ + padded(status.phase, 8) + " │ "@ + padded(status.state, 14) + " │ "@ + padded(
        seconds + "s"@,
        12,
    ) + " │"@
}

/// What is said about a request that may be hanging.
pub open spec fn hanging_line(status: StatusView, seconds: Seq<char>) -> Seq<char> {
    " - "@ + status.id + " (Task "@ + decimal(status.task_id as nat) + ", "@ + status.phase
        + ") in state '"@ + status.state + "' for "@ + seconds + "s"@
}

/// Where a request that may be hanging was made, and where it goes.
pub open spec fn origin_line(status: StatusView) -> Seq<char> {
    "   Runtime: "@ + status.runtime_name + ", URL: "@ + status.url
}

/// The lines on the requests that may be hanging, two for each, in the order of the requests.
pub open spec fn hanging_details(
    requests: Seq<StatusView>,
    now: u64,
    seconds: Seq<Seq<char>>,
) -> Seq<Seq<char>>
    decreases requests.len(),
{
    if requests.len() == 0 {
        Seq::empty()
    } else {
        let last = requests.len() - 1;
        let before = hanging_details(requests.drop_last(), now, seconds);
        if may_hang(requests[last], now) {
            before.push(hanging_line(requests[last], seconds[last])).push(
                origin_line(requests[last]),
            )
        } else {
            before
        }
    }
}

/// The lines on the requests that may be hanging, with a heading; none where there are none.
pub open spec fn hanging_section(
    requests: Seq<StatusView>,
    now: u64,
    seconds: Seq<Seq<char>>,
) -> Seq<Seq<char>> {
    if exists|i: int| 0 <= i < requests.len() && may_hang(#[trigger] requests[i], now) {
        seq!["\n⚠️ POTENTIALLY HANGING REQUESTS:"@] + hanging_details(requests, now, seconds)
    } else {
        Seq::empty()
    }
}

/// The rows of the table.
pub open spec fn table_rows(
    requests: Seq<StatusView>,
    now: u64,
    seconds: Seq<Seq<char>>,
) -> Seq<Seq<char>> {
    Seq::new(requests.len(), |i: int| table_row(requests[i], now, seconds[i]))
}

/// The lines above the rows of the table.
pub open spec fn table_head(length: nat) -> Seq<Seq<char>> {
    seq![
        "\n🔍 PENDING REQUESTS ("@ + decimal(length) + "):"@,
        "┌───────────────┬──────────┬──────────┬────────────────┬──────────────┐"@,
        "│ Request ID    │ Task ID  │ Phase    │ State          │ Elapsed      │"@,
        "├───────────────┼──────────┼──────────┼────────────────┼──────────────┤"@,
    ]
}

/// The report on the requests that are under way.
pub open spec fn pending_lines(
    requests: Seq<StatusView>,
    now: u64,
    seconds: Seq<Seq<char>>,
) -> Seq<Seq<char>> {
    if requests.len() == 0 {
        seq!["🔍 No pending requests"@]
    } else {
        table_head(requests.len()) + table_rows(requests, now, seconds)
            + seq!["└───────────────┴──────────┴──────────┴────────────────┴──────────────┘"@]
            + hanging_section(requests, now, seconds)
    }
}

/// What many requests in the state `connecting` suggest.
pub open spec fn connecting_finding(requests: Seq<StatusView>) -> Seq<Seq<char>> {
    let count = state_count(requests, "connecting"@);
    if count >= 3 {
        seq![
            decimal(count)
                + " requests stuck in 'connecting' state - likely connection pool exhaustion"@,
        ]
    } else {
        Seq::empty()
    }
}

/// What several requests in the state `reading_body` suggest.
pub open spec fn reading_finding(requests: Seq<StatusView>) -> Seq<Seq<char>> {
    let count = state_count(requests, "reading_body"@);
    if count >= 2 {
        seq![
            decimal(count)
                + " requests stuck in 'reading_body' state - possible hang in connection keep-alive"@,
        ]
    } else {
        Seq::empty()
    }
}

/// What requests that run long suggest.
pub open spec fn long_finding(requests: Seq<StatusView>, now: u64) -> Seq<Seq<char>> {
    let count = long_count(requests, now);
    if count > 0 {
        seq![decimal(count) + " requests running longer than 75% of timeout - likely deadlocked"@]
    } else {
        Seq::empty()
    }
}

/// What the states and times of the requests suggest.
pub open spec fn findings(requests: Seq<StatusView>, now: u64) -> Seq<Seq<char>> {
    connecting_finding(requests) + reading_finding(requests) + long_finding(requests, now)
}

/// The findings as points of a list, with a heading and a conclusion; nothing without findings.
pub open spec fn analysis_lines(found: Seq<Seq<char>>) -> Seq<Seq<char>> {
    if found.len() == 0 {
        Seq::empty()
    } else {
        seq!["\n🔬 HANG ANALYSIS:"@] + Seq::new(found.len(), |i: int| " • "@ + found[i]) + seq![
            " • Most likely cause: Connection pool resources tied to dropped runtime"@,
        ]
    }
}

impl RequestStatus {
    /// The nanoseconds since the request was made.
    pub fn elapsed_nanos(&self, now: u64) -> (nanos: u64)
        ensures
            nanos == elapsed(self@, now),
    {
        if now >= self.start_time {
            now - self.start_time
        } else {
            0
        }
    }

    /// Whether the request has taken more than half of its time.
    pub fn may_hang(&self, now: u64) -> (result: bool)
        ensures
            result == may_hang(self@, now),
    {
        self.elapsed_nanos(now) / NANOS_PER_SEC > self.timeout_secs / 2
    }

    /// Whether the request has taken more than three quarters of its time.
    pub fn runs_long(&self, now: u64) -> (result: bool)
        requires
            self.timeout_secs * 3 <= u64::MAX,
        ensures
            result == runs_long(self@, now),
    {
        self.elapsed_nanos(now) / NANOS_PER_SEC > self.timeout_secs * 3 / 4
    }

    /// The row of the request in the table.
    fn table_row(&self, now: u64, seconds: &str) -> (row: String)
        ensures
            row@ == table_row(self@, now, seconds@),
    {
        let mut name: String = if self.may_hang(now) {
            String::from_str("⚠️ ")
        } else {
            String::from_str("")
        };
        name.append(self.id.as_str());
        let mut time: String = String::from_str(seconds);
        time.append("s");

        let mut row: String = String::from_str("│ ");
        row.append(pad_right(name.as_str(), 13).as_str());
        row.append(" │ ");
        row.append(pad_right(decimal_text(self.task_id as u64).as_str(), 8).as_str());
        row.append(" │ ");
        row.append(pad_right(self.phase.as_str(), 8).as_str());
        row.append(" │ ");
        row.append(pad_right(self.state.as_str(), 14).as_str());
        row.append(" │ ");
        row.append(pad_right(time.as_str(), 12).as_str());
        row.append(" │");
        row
    }

    /// What is said about the request where it may be hanging.
    fn hanging_line(&self, seconds: &str) -> (line: String)
        ensures
            line@ == hanging_line(self@, seconds@),
    {
        let mut line: String = String::from_str(" - ");
        line.append(self.id.as_str());
        line.append(" (Task ");
        line.append(decimal_text(self.task_id as u64).as_str());
        line.append(", ");
        line.append(self.phase.as_str());
        line.append(") in state '");
        line.append(self.state.as_str());
        line.append("' for ");
        line.append(seconds);
        line.append("s");
        line
    }

    /// Where the request was made, and where it goes.
    fn origin_line(&self) -> (line: String)
        ensures
            line@ == origin_line(self@),
    {
        let mut line: String = String::from_str("   Runtime: ");
        line.append(self.runtime_name.as_str());
        line.append(", URL: ");
        line.append(self.url.as_str());
        line
    }
}

impl RequestTracker {
    /// The nanoseconds since each request was made, in the order of the requests.
    pub fn elapsed_nanos(&self, now: u64) -> (nanos: Vec<u64>)
        ensures
            nanos@.len() == self@.len(),
            forall|i: int| 0 <= i < nanos@.len() ==> #[trigger] nanos@[i] == elapsed(self@[i], now),
    {
        let mut nanos: Vec<u64> = Vec::new();
        let mut i: usize = 0;
        while i < self.len()
            invariant
                i <= self@.len(),
                nanos@.len() == i,
                forall|j: int| 0 <= j < i ==> #[trigger] nanos@[j] == elapsed(self@[j], now),
            decreases self@.len() - i,
        {
            nanos.push(self.at(i).elapsed_nanos(now));
            i = i + 1;
        }
        nanos
    }

    /// The report on the requests that are under way. `seconds` holds, for each of them, the text
    /// of the seconds since it was made.
    pub fn pending_report(&self, now: u64, seconds: &Vec<String>) -> (lines: Vec<String>)
        requires
            seconds@.len() == self@.len(),
        ensures
            texts(lines@) == pending_lines(self@, now, texts(seconds@)),
    {
        let ghost times = texts(seconds@);
        let mut lines: Vec<String> = Vec::new();
        let length: usize = self.len();
        if length == 0 {
            add_line(&mut lines, String::from_str("🔍 No pending requests"));
            assert(texts(lines@) =~= pending_lines(self@, now, times));
            return lines;
        }
        let mut title: String = String::from_str("\n🔍 PENDING REQUESTS (");
        title.append(decimal_text(length as u64).as_str());
        title.append("):");
        add_line(&mut lines, title);
        add_line(
            &mut lines,
            String::from_str(
                "┌───────────────┬──────────┬──────────┬────────────────┬──────────────┐",
            ),
        );
        add_line(
            &mut lines,
            String::from_str(
                "│ Request ID    │ Task ID  │ Phase    │ State          │ Elapsed      │",
            ),
        );
        add_line(
            &mut lines,
            String::from_str(
                "├───────────────┼──────────┼──────────┼────────────────┼──────────────┤",
            ),
        );
        assert(texts(lines@) =~= table_head(length as nat));

        let mut any: bool = false;
        let mut i: usize = 0;
        while i < length
            invariant
                i <= length == self@.len() == seconds@.len(),
                times == texts(seconds@),
                texts(lines@) =~= table_head(length as nat) + table_rows(self@, now, times).take(
                    i as int,
                ),
                any == exists|j: int| 0 <= j < i && may_hang(#[trigger] self@[j], now),
            decreases length - i,
        {
            let status = self.at(i);
            add_line(&mut lines, status.table_row(now, seconds[i].as_str()));
            if status.may_hang(now) {
                any = true;
            }
            assert(self@[i as int] == status@);
            assert(times[i as int] == seconds@[i as int]@);
            assert(table_rows(self@, now, times).take(i + 1) =~= table_rows(
                self@,
                now,
                times,
            ).take(i as int).push(table_rows(self@, now, times)[i as int]));
            i = i + 1;
        }
        add_line(
            &mut lines,
            String::from_str(
                "└───────────────┴──────────┴──────────┴────────────────┴──────────────┘",
            ),
        );
        let ghost table = table_head(length as nat) + table_rows(self@, now, times) + seq![
            "└───────────────┴──────────┴──────────┴────────────────┴──────────────┘"@,
        ];
        assert(texts(lines@) =~= table);

        if any {
            add_line(&mut lines, String::from_str("\n⚠️ POTENTIALLY HANGING REQUESTS:"));
            let ghost head = table.push("\n⚠️ POTENTIALLY HANGING REQUESTS:"@);
            assert(texts(lines@) =~= head);
            let mut i: usize = 0;
            while i < length
                invariant
                    i <= length == self@.len() == seconds@.len(),
                    times == texts(seconds@),
                    texts(lines@) =~= head + hanging_details(self@.take(i as int), now, times),
                decreases length - i,
            {
                let status = self.at(i);
                assert(self@.take(i + 1).drop_last() =~= self@.take(i as int));
                assert(times[i as int] == seconds@[i as int]@);
                if status.may_hang(now) {
                    add_line(&mut lines, status.hanging_line(seconds[i].as_str()));
                    add_line(&mut lines, status.origin_line());
                }
                i = i + 1;
            }
            assert(self@.take(i as int) =~= self@);
            assert(head + hanging_details(self@, now, times) =~= table + hanging_section(
                self@,
                now,
                times,
            ));
        } else {
            assert(table + hanging_section(self@, now, times) =~= table);
        }
        lines
    }

    /// How many requests are in a state.
    pub fn count_in_state(&self, state: &str) -> (count: usize)
        ensures
            count == state_count(self@, state@),
    {
        let wanted: String = state.to_owned();
        let ghost in_state = |status: StatusView| status.state == state@;
        let mut count: usize = 0;
        let mut i: usize = 0;
        while i < self.len()
            invariant
                i <= self@.len(),
                count <= i,
                wanted@ == state@,
                in_state == (|status: StatusView| status.state == state@),
                count == self@.take(i as int).filter(in_state).len(),
            decreases self@.len() - i,
        {
            proof {
                reveal(Seq::filter);
                assert(self@.take(i + 1).drop_last() =~= self@.take(i as int));
            }
            if self.at(i).state == wanted {
                count = count + 1;
            }
            i = i + 1;
        }
        assert(self@.take(i as int) =~= self@);
        count
    }

    /// How many requests have taken more than three quarters of their time.
    pub fn count_long_running(&self, now: u64) -> (count: usize)
        requires
            self.wf(),
        ensures
            count == long_count(self@, now),
    {
        let ghost long = |status: StatusView| runs_long(status, now);
        let mut count: usize = 0;
        let mut i: usize = 0;
        while i < self.len()
            invariant
                i <= self@.len(),
                count <= i,
                self.wf(),
                long == (|status: StatusView| runs_long(status, now)),
                count == self@.take(i as int).filter(long).len(),
            decreases self@.len() - i,
        {
            proof {
                reveal(Seq::filter);
                assert(self@.take(i + 1).drop_last() =~= self@.take(i as int));
            }
            let status = self.at(i);
            assert(self@[i as int] == status@);
            if status.runs_long(now) {
                count = count + 1;
            }
            i = i + 1;
        }
        assert(self@.take(i as int) =~= self@);
        count
    }

    /// What the states and times of the requests suggest.
    fn findings(&self, now: u64) -> (found: Vec<String>)
        requires
            self.wf(),
        ensures
            texts(found@) == findings(self@, now),
    {
        let mut found: Vec<String> = Vec::new();
        let connecting: usize = self.count_in_state("connecting");
        if connecting >= 3 {
            let mut finding: String = decimal_text(connecting as u64);
            finding.append(
                " requests stuck in 'connecting' state - likely connection pool exhaustion",
            );
            add_line(&mut found, finding);
        }
        assert(texts(found@) =~= connecting_finding(self@));
        let reading: usize = self.count_in_state("reading_body");
        if reading >= 2 {
            let mut finding: String = decimal_text(reading as u64);
            finding.append(
                " requests stuck in 'reading_body' state - possible hang in connection keep-alive",
            );
            add_line(&mut found, finding);
        }
        assert(texts(found@) =~= connecting_finding(self@) + reading_finding(self@));
        let long: usize = self.count_long_running(now);
        if long > 0 {
            let mut finding: String = decimal_text(long as u64);
            finding.append(" requests running longer than 75% of timeout - likely deadlocked");
            add_line(&mut found, finding);
        }
        assert(texts(found@) =~= findings(self@, now));
        found
    }

    /// The analysis of the requests that are under way: what their states and times suggest.
    pub fn analyze_hangs(&self, now: u64) -> (lines: Vec<String>)
        requires
            self.wf(),
        ensures
            texts(lines@) == analysis_lines(findings(self@, now)),
    {
        let found: Vec<String> = self.findings(now);
        let ghost said = findings(self@, now);
        let mut lines: Vec<String> = Vec::new();
        assert(texts(found@).len() == found@.len());
        if found.len() > 0 {
            add_line(&mut lines, String::from_str("\n🔬 HANG ANALYSIS:"));
            let ghost points = Seq::new(said.len(), |i: int| " • "@ + said[i]);
            let mut i: usize = 0;
            while i < found.len()
                invariant
                    i <= found@.len(),
                    texts(found@) == said,
                    points == Seq::new(said.len(), |i: int| " • "@ + said[i]),
                    said.len() == found@.len(),
                    texts(lines@) =~= seq!["\n🔬 HANG ANALYSIS:"@] + points.take(i as int),
                decreases found@.len() - i,
            {
                let mut line: String = String::from_str(" • ");
                line.append(found[i].as_str());
                assert(found@[i as int]@ == texts(found@)[i as int]);
                assert(points.take(i + 1) =~= points.take(i as int).push(points[i as int]));
                add_line(&mut lines, line);
                i = i + 1;
            }
            add_line(
                &mut lines,
                String::from_str(
                    " • Most likely cause: Connection pool resources tied to dropped runtime",
                ),
            );
        }
        assert(texts(lines@) =~= analysis_lines(said));
        lines
    }
}

/// A request that runs long also counts as one that may be hanging.
pub proof fn long_running_may_hang(status: StatusView, now: u64)
    requires
        runs_long(status, now),
    ensures
        may_hang(status, now),
{
}

} // verus!
