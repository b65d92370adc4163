//! The requests that go on after the task runtimes were dropped.

use vstd::prelude::*;
use vstd::string::*;

use crate::exchange::byte_length;
use crate::run_state::{RunState, RunView};
use crate::text::{decimal, decimal_text};

verus! {

/// The number of the request that is made on a runtime inside another.
pub const NESTED_REQUEST_ID: u32 = 999;

/// The seconds to wait for the server at most, for the request on a runtime inside another.
pub const NESTED_TIMEOUT_SECS: u64 = 5;

/// The seconds to wait for the server at most, for the other requests of the phase.
pub const POST_DROP_TIMEOUT_SECS: u64 = 8;

/// The seconds to wait for each task of the phase at most.
pub const JOIN_TIMEOUT_SECS: u64 = 10;

/// One task of the phase, which makes three requests at once.
pub struct PostDropTask {
    /// Its number.
    pub req_id: u32,
    /// How long it waits first, in milliseconds.
    pub stagger_ms: u64,
    /// The numbers of its requests.
    pub sub_ids: Vec<u32>,
    /// How long to pause, in milliseconds, before the next task is started.
    pub pause_ms: Option<u64>,
}

/// The number of a task of the phase.
pub open spec fn post_drop_id(index: usize) -> int {
    500 + (index as u32)
}

/// The number of one of the requests of a task of the phase.
pub open spec fn post_drop_sub_id(index: usize, sub: int) -> int {
    post_drop_id(index) * 10 + sub
}

/// The numbers of the requests of a task of the phase.
pub open spec fn task_numbers(index: usize) -> Seq<int> {
    Seq::new(3, |sub: int| post_drop_sub_id(index, sub))
}

/// The numbers of the requests of the phase with so many tasks: that of the request on a runtime
/// inside another, then those of each task.
pub open spec fn phase_numbers(tasks: nat) -> Seq<int>
    decreases tasks,
{
    if tasks == 0 {
        seq![NESTED_REQUEST_ID as int]
    } else {
        phase_numbers((tasks - 1) as nat) + task_numbers((tasks - 1) as usize)
    }
}

/// The task of the phase with an index.
pub open spec fn is_task(task: PostDropTask, index: usize) -> bool {
    &&& task.req_id == post_drop_id(index)
    &&& task.stagger_ms == (index * 50) % 300
    &&& as_numbers(task.sub_ids@) == task_numbers(index)
    &&& task.pause_ms == if index % 2 == 0 {
        Some(10u64)
    } else {
        None
    }
}

/// The task of the phase with an index.
pub fn post_drop_task(index: usize) -> (task: PostDropTask)
    requires
        post_drop_sub_id(index, 2) <= u32::MAX,
        index * 50 <= usize::MAX,
    ensures
        is_task(task, index),
{
    let req_id: u32 = 500 + index as u32;
    let stagger_ms: u64 = (index * 50) as u64 % 300;
    let mut sub_ids: Vec<u32> = Vec::new();
    let mut sub: u32 = 0;
    while sub < 3
        invariant
            sub <= 3,
            req_id == post_drop_id(index),
            post_drop_sub_id(index, 2) <= u32::MAX,
            sub_ids@.len() == sub,
            forall|k: int|
                0 <= k < sub ==> #[trigger] sub_ids@[k] == post_drop_sub_id(index, k),
        decreases 3 - sub,
    {
        sub_ids.push(req_id * 10 + sub);
        sub = sub + 1;
    }
    assert(as_numbers(sub_ids@) =~= task_numbers(index));
    let pause_ms: Option<u64> = if index % 2 == 0 {
        Some(10)
    } else {
        None
    };
    PostDropTask { req_id, stagger_ms, sub_ids, pause_ms }
}

/// The request that is made on a runtime inside another.
pub struct NestedRequest {
    /// Its number.
    pub request_id: u32,
    /// The seconds to wait for the server at most.
    pub timeout_secs: u64,
}

/// The phase: first the request on a runtime inside another, then its tasks one after the other.
pub struct PostDropRun {
    task_count: usize,
    started: usize,
    handed_out: Ghost<Seq<int>>,
}

/// What a [`PostDropRun`] holds.
pub struct PostDropView {
    /// How many tasks the phase has.
    pub task_count: usize,
    /// How many of them were started.
    pub started: usize,
    /// The numbers of the requests that were handed out, in order.
    pub handed_out: Seq<int>,
}

impl View for PostDropRun {
    type V = PostDropView;

    closed spec fn view(&self) -> PostDropView {
        PostDropView {
            task_count: self.task_count,
            started: self.started,
            handed_out: self.handed_out@,
        }
    }
}

/// Numbers of requests as integers.
pub open spec fn as_numbers(ids: Seq<u32>) -> Seq<int> {
    ids.map_values(|id: u32| id as int)
}

impl PostDropRun {
    /// At most as many tasks were started as the phase has, and the numbers that were handed out
    /// are those of a phase with the tasks that were started.
    pub open spec fn wf(&self) -> bool {
        &&& self@.started <= self@.task_count
        &&& self@.handed_out == phase_numbers(self@.started as nat)
    }

    /// Starts the phase, and hands out the request on a runtime inside another.
    pub fn start(task_count: usize) -> (phase: (PostDropRun, NestedRequest))
        ensures
            phase.0.wf(),
            phase.0@.task_count == task_count,
            phase.0@.started == 0,
            phase.0@.handed_out == seq![phase.1.request_id as int],
            phase.1.request_id == NESTED_REQUEST_ID,
            phase.1.timeout_secs == NESTED_TIMEOUT_SECS,
    {
        let nested = NestedRequest {
            request_id: NESTED_REQUEST_ID,
            timeout_secs: NESTED_TIMEOUT_SECS,
        };
        let phase = PostDropRun {
            task_count,
            started: 0,
            handed_out: Ghost(phase_numbers(0)),
        };
        (phase, nested)
    }

    /// The next task of the phase; nothing when all were started, and then the numbers of the
    /// requests that were handed out are those of the whole phase.
    pub fn next_task(&mut self) -> (next: Option<PostDropTask>)
        requires
            old(self).wf(),
            old(self)@.started < old(self)@.task_count ==> post_drop_sub_id(
                old(self)@.started,
                2,
            ) <= u32::MAX && old(self)@.started * 50 <= usize::MAX,
        ensures
            final(self).wf(),
            old(self)@.started == old(self)@.task_count ==> {
                &&& next is None
                &&& final(self)@ == old(self)@
                &&& final(self)@.handed_out == phase_numbers(final(self)@.task_count as nat)
            },
            old(self)@.started < old(self)@.task_count ==> {
                &&& next matches Some(task)
                &&& is_task(task, old(self)@.started)
                &&& final(self)@ == (PostDropView {
                    started: (old(self)@.started + 1) as usize,
                    handed_out: old(self)@.handed_out + as_numbers(task.sub_ids@),
                    ..old(self)@
                })
            },
    {
        if self.started == self.task_count {
            return None;
        }
        let task = post_drop_task(self.started);
        self.handed_out = Ghost(self.handed_out@ + as_numbers(task.sub_ids@));
        self.started = self.started + 1;
        Some(task)
    }
}

/// What is said about a request of the phase when it has ended.
pub open spec fn sub_result_text(sub_id: u32, result: Result<String, String>) -> Seq<char> {
    match result {
        Ok(body) => "Post-drop req "@ + decimal(sub_id as nat) + " succeeded with "@ + decimal(
            byte_length(body@) as nat,
        ) + " bytes"@,
        Err(error) => "Post-drop req "@ + decimal(sub_id as nat) + " failed: "@ + error@,
    }
}

/// What is said about a request of the phase when it has ended.
pub fn sub_result_line(sub_id: u32, result: &Result<String, String>) -> (line: String)
    ensures
        line@ == sub_result_text(sub_id, *result),
{
    let mut line: String = String::from_str("Post-drop req ");
    line.append(decimal_text(sub_id as u64).as_str());
    match result {
        Ok(body) => {
            line.append(" succeeded with ");
            line.append(decimal_text(body.as_str().len() as u64).as_str());
            line.append(" bytes");
        },
        Err(error) => {
            line.append(" failed: ");
            line.append(error.as_str());
        },
    }
    line
}

/// How the wait for a task of the phase ended.
#[derive(Debug)]
pub enum JoinOutcome {
    /// The task came to its end.
    Done,
    /// The task broke off, for this reason.
    Broken(String),
    /// The task did not come to its end in time.
    TimedOut,
}

/// What is said about a task of the phase when the wait for it has ended; nothing where it came
/// to its end.
pub open spec fn join_text(index: usize, outcome: JoinOutcome) -> Option<Seq<char>> {
    match outcome {
        JoinOutcome::Done => None,
        JoinOutcome::Broken(error) => Some(
            "Post-drop task "@ + decimal(index as nat) + " join error: "@ + error@,
        ),
        JoinOutcome::TimedOut => Some(
            "⏱️ Post-drop task "@ + decimal(index as nat) + " timed out - HANG DETECTED"@,
        ),
    }
}

/// The shared state after the wait for a task of the phase has ended.
pub open spec fn run_after_join(run: RunView, outcome: JoinOutcome) -> RunView {
    match outcome {
        JoinOutcome::TimedOut => run.with_hang(),
        _ => run,
    }
}

/// Records how the wait for a task of the phase ended, and returns what to say about it. A task
/// that does not come to its end in time is a hang.
pub fn record_join(run: &mut RunState, index: usize, outcome: JoinOutcome) -> (line: Option<
    String,
>)
    ensures
        final(run)@ == run_after_join(old(run)@, outcome),
        final(run)@.hang_detected == (old(run)@.hang_detected || outcome is TimedOut),
        line is None <==> outcome is Done,
        match join_text(index, outcome) {
            Some(text) => line matches Some(line) && line@ == text,
            None => line is None,
        },
{
    match outcome {
        JoinOutcome::Done => None,
        JoinOutcome::Broken(error) => {
            let mut line: String = String::from_str("Post-drop task ");
            line.append(decimal_text(index as u64).as_str());
            line.append(" join error: ");
            line.append(error.as_str());
            Some(line)
        },
        JoinOutcome::TimedOut => {
            run.report_hang();
            let mut line: String = String::from_str("⏱️ Post-drop task ");
            line.append(decimal_text(index as u64).as_str());
            line.append(" timed out - HANG DETECTED");
            Some(line)
        },
    }
}

/// How long an additional task on the shared runtime waits, in milliseconds.
pub fn additional_task_delay_ms(index: u64) -> (delay: u64)
    requires
        index * 50 + 100 <= u64::MAX,
    ensures
        delay == index * 50 + 100,
{
    index * 50 + 100
}

/// The requests of the phase have distinct numbers, and none has that of the request on a
/// runtime inside another.
pub proof fn post_drop_requests_are_distinct(a: usize, sub_a: int, b: usize, sub_b: int)
    requires
        a <= u32::MAX,
        b <= u32::MAX,
        0 <= sub_a < 3,
        0 <= sub_b < 3,
    ensures
        post_drop_sub_id(a, sub_a) == post_drop_sub_id(b, sub_b) ==> a == b && sub_a == sub_b,
        post_drop_sub_id(a, sub_a) != NESTED_REQUEST_ID,
{
}

/// Where the numbers of the requests of the phase stand.
proof fn phase_numbers_at(tasks: nat)
    requires
        tasks <= usize::MAX,
    ensures
        phase_numbers(tasks).len() == 3 * tasks + 1,
        phase_numbers(tasks)[0] == NESTED_REQUEST_ID,
        forall|k: int|
            1 <= k <= 3 * tasks ==> #[trigger] phase_numbers(tasks)[k] == post_drop_sub_id(
                ((k - 1) / 3) as usize,
                (k - 1) % 3,
            ),
    decreases tasks,
{
    if tasks > 0 {
        let before = (tasks - 1) as nat;
        phase_numbers_at(before);
        assert forall|k: int| 1 <= k <= 3 * tasks implies #[trigger] phase_numbers(tasks)[k]
            == post_drop_sub_id(((k - 1) / 3) as usize, (k - 1) % 3) by {
            if k <= 3 * before {
                assert(phase_numbers(tasks)[k] == phase_numbers(before)[k]);
            } else {
                assert(phase_numbers(tasks)[k] == task_numbers(before as usize)[k - 1 - 3 * before]);
            }
        }
    }
}

/// The phase with `tasks` tasks, whose request numbers are numbers of 32 bits, makes one request
/// on a runtime inside another and the three of each index below `tasks`, and no other: so many
/// requests in all, of which no two have the same number.
pub proof fn the_phase_makes_distinct_requests(tasks: usize)
    requires
        forall|index: usize|
            index < tasks ==> #[trigger] post_drop_sub_id(index, 2) <= u32::MAX,
    ensures
        phase_numbers(tasks as nat).len() == 3 * tasks + 1,
        phase_numbers(tasks as nat).no_duplicates(),
        forall|number: int| #[trigger]
            phase_numbers(tasks as nat).contains(number) <==> number == NESTED_REQUEST_ID || exists|
                index: usize,
                sub: int,
            |
                index < tasks && 0 <= sub < 3 && number == #[trigger] post_drop_sub_id(index, sub),
{
    let numbers = phase_numbers(tasks as nat);
    phase_numbers_at(tasks as nat);
    if tasks > u32::MAX {
        assert(post_drop_sub_id(u32::MAX as usize, 2) <= u32::MAX);
    }
    assert forall|i: int, j: int|
        0 <= i < numbers.len() && 0 <= j < numbers.len() && i != j implies numbers[i]
        != numbers[j] by {
        if i > 0 && j > 0 {
            post_drop_requests_are_distinct(
                ((i - 1) / 3) as usize,
                (i - 1) % 3,
                ((j - 1) / 3) as usize,
                (j - 1) % 3,
            );
        } else if i > 0 {
            post_drop_requests_are_distinct(((i - 1) / 3) as usize, (i - 1) % 3, 0, 0);
        } else {
            post_drop_requests_are_distinct(((j - 1) / 3) as usize, (j - 1) % 3, 0, 0);
        }
    }
    assert forall|number: int| #[trigger] numbers.contains(number) implies number
        == NESTED_REQUEST_ID || exists|index: usize, sub: int|
        index < tasks && 0 <= sub < 3 && number == #[trigger] post_drop_sub_id(index, sub) by {
        let k = choose|k: int| 0 <= k < numbers.len() && numbers[k] == number;
        if k > 0 {
            let index = ((k - 1) / 3) as usize;
            let sub = (k - 1) % 3;
            assert(index < tasks && 0 <= sub < 3 && number == post_drop_sub_id(index, sub));
        }
    }
    assert(numbers.contains(NESTED_REQUEST_ID as int));
    assert forall|index: usize, sub: int| index < tasks && 0 <= sub < 3 implies numbers.contains(
        #[trigger] post_drop_sub_id(index, sub),
    ) by {
        let k = 1 + 3 * index + sub;
        assert((k - 1) / 3 == index && (k - 1) % 3 == sub);
        assert(numbers[k] == post_drop_sub_id(index, sub));
    }
}

} // verus!
