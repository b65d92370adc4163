//! A task with a runtime of its own: the requests that it makes one after the other, the work
//! that it hands to others, and the queue in which that work is written down.

use axum::http::{HeaderMap, HeaderValue};
use vstd::prelude::*;
use vstd::string::*;

use crate::headers::{empty_headers, header_values, lower, only, set_header};
use crate::run_state::{next_count, RunState, RunView};
use crate::text::{add_line, decimal, decimal_is_digits, decimal_text, is_visible, texts};

verus! {

/// The work that was handed out, in the order in which it was written down.
pub struct WorkQueue {
    entries: Vec<String>,
}

impl View for WorkQueue {
    type V = Seq<Seq<char>>;

    closed spec fn view(&self) -> Seq<Seq<char>> {
        texts(self.entries@)
    }
}

impl WorkQueue {
    /// A queue without entries.
    pub fn new() -> (queue: WorkQueue)
        ensures
            queue@ == Seq::<Seq<char>>::empty(),
    {
        let entries: Vec<String> = Vec::new();
        assert(texts(entries@) =~= Seq::<Seq<char>>::empty());
        WorkQueue { entries }
    }

    /// How many entries there are.
    pub fn len(&self) -> (length: usize)
        ensures
            length == self@.len(),
    {
        self.entries.len()
    }

    /// The entry at a place.
    pub fn entry(&self, i: usize) -> (entry: &str)
        requires
            i < self@.len(),
        ensures
            entry@ == self@[i as int],
    {
        self.entries[i].as_str()
    }

    /// Writes down an entry behind the others.
    fn push(&mut self, entry: String)
        ensures
            final(self)@ == old(self)@.push(entry@),
    {
        add_line(&mut self.entries, entry);
    }
}

/// Work that writes down when it starts and when it ends, with a pause before each.
pub struct ComplexWork {
    id: String,
    duration_ms: u64,
}

impl ComplexWork {
    /// The name of the work.
    pub closed spec fn id(&self) -> Seq<char> {
        self.id@
    }

    /// The milliseconds that it takes.
    pub closed spec fn duration_ms(&self) -> u64 {
        self.duration_ms
    }

    /// Work of a name and a duration.
    pub fn new(duration_ms: u64, id: &str) -> (work: ComplexWork)
        ensures
            work.id() == id@,
            work.duration_ms() == duration_ms,
    {
        ComplexWork { id: id.to_owned(), duration_ms }
    }

    /// How long to pause, in milliseconds, before the work starts, and again before it ends.
    pub fn pause_ms(&self) -> (pause: u64)
        ensures
            pause == self.duration_ms() / 2,
    {
        self.duration_ms / 2
    }

    /// Writes down that the work starts.
    pub fn start(&self, queue: &mut WorkQueue)
        ensures
            final(queue)@ == old(queue)@.push("Work "@ + self.id() + ": start"@),
    {
        let mut entry: String = String::from_str("Work ");
        entry.append(self.id.as_str());
        entry.append(": start");
        queue.push(entry);
    }

    /// Writes down that the work ends.
    pub fn end(&self, queue: &mut WorkQueue)
        ensures
            final(queue)@ == old(queue)@.push("Work "@ + self.id() + ": end"@),
    {
        let mut entry: String = String::from_str("Work ");
        entry.append(self.id.as_str());
        entry.append(": end");
        queue.push(entry);
    }
}

/// The name of a task, of its runtime and of its threads.
pub open spec fn task_text(task_id: u32) -> Seq<char> {
    "task-"@ + decimal(task_id as nat)
}

/// The work that a task hands out with one of its requests.
pub open spec fn work_item_text(task_id: u32, index: usize) -> Seq<char> {
    task_text(task_id) + "-request-"@ + decimal(index as nat)
}

/// The work that a task does itself after one of its requests.
pub open spec fn work_label_text(task_id: u32, index: usize) -> Seq<char> {
    task_text(task_id) + "-"@ + decimal(index as nat)
}

/// The number of one of the requests of a task.
pub open spec fn task_request_id(task_id: u32, index: usize) -> int {
    task_id * 100 + (index as u32)
}

/// The headers of the request that does the work that a task handed out.
pub open spec fn shared_work_headers(work_item: Seq<char>) -> Map<Seq<char>, Seq<Seq<u8>>> {
    map!["x-shared-work"@ => only(work_item), "x-connection-test"@ => only("keep-alive"@)]
}

/// The name of a task, of its runtime and of its threads.
pub fn task_name(task_id: u32) -> (name: String)
    ensures
        name@ == task_text(task_id),
{
    let mut name: String = String::from_str("task-");
    name.append(decimal_text(task_id as u64).as_str());
    name
}

/// How many requests a task makes.
pub fn requests_of_task(task_id: u32) -> (count: usize)
    ensures
        count == task_id % 3 + 1,
{
    (task_id % 3 + 1) as usize
}

/// The work that a task hands out with one of its requests is visible text.
proof fn work_item_is_visible(task_id: u32, index: usize)
    ensures
        is_visible(work_item_text(task_id, index)),
        is_visible(task_text(task_id)),
{
    reveal_strlit("task-");
    reveal_strlit("-request-");
    decimal_is_digits(task_id as nat);
    decimal_is_digits(index as nat);
}

/// The headers of the request that does the work that a task handed out.
fn build_shared_work_headers(work_item: &str) -> (headers: HeaderMap<HeaderValue>)
    requires
        is_visible(work_item@),
    ensures
        header_values(headers) == shared_work_headers(work_item@),
{
    proof {
        reveal_strlit("X-Shared-Work");
        reveal_strlit("x-shared-work");
        reveal_strlit("X-Connection-Test");
        reveal_strlit("x-connection-test");
        reveal_strlit("keep-alive");
        assert(lower("X-Shared-Work"@) =~= "x-shared-work"@);
        assert(lower("X-Connection-Test"@) =~= "x-connection-test"@);
    }
    let mut headers = empty_headers();
    set_header(&mut headers, "X-Shared-Work", work_item);
    set_header(&mut headers, "X-Connection-Test", "keep-alive");
    headers
}

/// The headers of the request with which a task keeps a connection in the background.
pub fn background_headers() -> (headers: HeaderMap<HeaderValue>)
    ensures
        header_values(headers) == map!["x-keep-connection"@ => only("true"@)],
{
    proof {
        reveal_strlit("X-Keep-Connection");
        reveal_strlit("x-keep-connection");
        reveal_strlit("true");
        assert(lower("X-Keep-Connection"@) =~= "x-keep-connection"@);
    }
    let mut headers = empty_headers();
    set_header(&mut headers, "X-Keep-Connection", "true");
    headers
}

/// The headers of the request that is made for a task after its runtime was dropped.
pub fn dropped_task_headers(task_id: u32) -> (headers: HeaderMap<HeaderValue>)
    ensures
        header_values(headers) == map!["x-post-drop"@ => only(task_text(task_id))],
{
    proof {
        reveal_strlit("X-Post-Drop");
        reveal_strlit("x-post-drop");
        assert(lower("X-Post-Drop"@) =~= "x-post-drop"@);
        work_item_is_visible(task_id, 0);
    }
    let mut headers = empty_headers();
    set_header(&mut headers, "X-Post-Drop", task_name(task_id).as_str());
    headers
}

/// What can happen to the connection that a task keeps in the background.
#[derive(Debug)]
pub enum BackgroundEvent {
    /// The task is at its end.
    Cancelled,
    /// A connection was taken and its response read.
    Held,
    /// The request failed, for this reason.
    Failed(String),
}

/// What to do next for the connection that a task keeps in the background.
pub struct BackgroundStep {
    /// What to say.
    pub line: Option<String>,
    /// How long to pause, in milliseconds, before the next request; nothing to stop.
    pub pause_ms: Option<u64>,
}

/// What is said when something happens to the connection of a task in the background.
pub open spec fn background_text(task_id: u32, event: BackgroundEvent) -> Option<Seq<char>> {
    match event {
        BackgroundEvent::Cancelled => Some(
            "   Task "@ + decimal(task_id as nat)
                + " background task received cancellation, but ignoring it!"@,
        ),
        BackgroundEvent::Held => None,
        BackgroundEvent::Failed(error) => Some(
            "Task "@ + decimal(task_id as nat) + " background task error: "@ + error@,
        ),
    }
}

/// The shared state after something happened to the connection of a task in the background.
pub open spec fn run_after_background(run: RunView, event: BackgroundEvent) -> RunView {
    match event {
        BackgroundEvent::Held => RunView { leaked: next_count(run.leaked), ..run },
        _ => run,
    }
}

/// Records what happened to the connection that a task keeps in the background, and returns what
/// to do next: a connection that was held counts as leaked, and only the end of the task stops
/// the requests. It does stop them, although the line that is said then speaks of ignoring it.
pub fn background_step(
    run: &mut RunState,
    task_id: u32,
    event: BackgroundEvent,
) -> (step: BackgroundStep)
    ensures
        final(run)@ == run_after_background(old(run)@, event),
        match background_text(task_id, event) {
            Some(text) => step.line matches Some(line) && line@ == text,
            None => step.line is None,
        },
        step.pause_ms == (if event is Cancelled {
            None
        } else {
            Some(100u64)
        }),
{
    match event {
        BackgroundEvent::Cancelled => {
            let mut line: String = String::from_str("   Task ");
            line.append(decimal_text(task_id as u64).as_str());
            line.append(" background task received cancellation, but ignoring it!");
            BackgroundStep { line: Some(line), pause_ms: None }
        },
        BackgroundEvent::Held => {
            run.record_leak();
            BackgroundStep { line: None, pause_ms: Some(100) }
        },
        BackgroundEvent::Failed(error) => {
            let mut line: String = String::from_str("Task ");
            line.append(decimal_text(task_id as u64).as_str());
            line.append(" background task error: ");
            line.append(error.as_str());
            BackgroundStep { line: Some(line), pause_ms: Some(100) }
        },
    }
}

/// The message that work which was handed out is done.
pub fn completion_message(work_item: &str) -> (message: String)
    ensures
        message@ == "completed:"@ + work_item@,
{
    let mut message: String = String::from_str("completed:");
    message.append(work_item);
    message
}

/// What is said when a request of a task failed.
pub fn task_error_line(task_id: u32, index: usize, error: &str) -> (line: String)
    ensures
        line@ == "Task "@ + decimal(task_id as nat) + " request "@ + decimal(index as nat)
            + " error: "@ + error@,
{
    let mut line: String = String::from_str("Task ");
    line.append(decimal_text(task_id as u64).as_str());
    line.append(" request ");
    line.append(decimal_text(index as u64).as_str());
    line.append(" error: ");
    line.append(error);
    line
}

/// One of the requests of a task, with the work that belongs to it.
pub struct TaskRequest {
    /// Which of the requests it is, from zero.
    pub index: usize,
    /// Its number.
    pub request_id: u32,
    /// The seconds to wait for the server at most.
    pub timeout_secs: u64,
    /// The work that is handed out with it.
    pub work_item: String,
    /// The headers of the request that does that work.
    pub work_headers: HeaderMap<HeaderValue>,
    /// The seconds to wait for that work at most.
    pub work_timeout_secs: u64,
    /// The work to do after it.
    pub after: ComplexWork,
}

/// A task with a runtime of its own.
pub struct TaskRun {
    task_id: u32,
    request_count: usize,
    made: usize,
}

/// What a [`TaskRun`] holds.
pub struct TaskView {
    /// The number of the task.
    pub task_id: u32,
    /// How many requests it makes.
    pub request_count: usize,
    /// How many of them it has made.
    pub made: usize,
}

impl View for TaskRun {
    type V = TaskView;

    closed spec fn view(&self) -> TaskView {
        TaskView { task_id: self.task_id, request_count: self.request_count, made: self.made }
    }
}

impl TaskRun {
    /// The task has made at most as many requests as it makes.
    pub open spec fn wf(&self) -> bool {
        self@.made <= self@.request_count
    }

    /// A task that has made no request yet.
    pub fn new(task_id: u32, request_count: usize) -> (task: TaskRun)
        ensures
            task.wf(),
            task@ == (TaskView { task_id, request_count, made: 0 }),
    {
        TaskRun { task_id, request_count, made: 0 }
    }

    /// The next request of the task, whose work is written down in the queue; nothing when the
    /// task has made them all.
    pub fn next_request(&mut self, queue: &mut WorkQueue) -> (next: Option<TaskRequest>)
        requires
            old(self).wf(),
            old(self)@.made < old(self)@.request_count ==> task_request_id(
                old(self)@.task_id,
                old(self)@.made,
            ) <= u32::MAX,
        ensures
            final(self).wf(),
            old(self)@.made == old(self)@.request_count ==> {
                &&& next is None
                &&& final(self)@ == old(self)@
                &&& final(queue)@ == old(queue)@
            },
            old(self)@.made < old(self)@.request_count ==> {
                let item = work_item_text(old(self)@.task_id, old(self)@.made);
                &&& final(self)@ == (TaskView { made: (old(self)@.made + 1) as usize, ..old(self)@ })
                &&& final(queue)@ == old(queue)@.push(item)
                &&& next matches Some(request)
                &&& request.index == old(self)@.made
                &&& request.request_id == task_request_id(old(self)@.task_id, old(self)@.made)
                &&& request.timeout_secs == 5
                &&& request.work_item@ == item
                &&& header_values(request.work_headers) == shared_work_headers(item)
                &&& request.work_timeout_secs == 5
                &&& request.after.id() == work_label_text(old(self)@.task_id, old(self)@.made)
                &&& request.after.duration_ms() == 50
            },
    {
        if self.made == self.request_count {
            return None;
        }
        let index: usize = self.made;
        let request_id: u32 = self.task_id * 100 + index as u32;

        let name: String = task_name(self.task_id);
        let mut work_item: String = name.clone();
        work_item.append("-request-");
        work_item.append(decimal_text(index as u64).as_str());
        proof {
            work_item_is_visible(self.task_id, index);
        }
        let work_headers = build_shared_work_headers(work_item.as_str());
        queue.push(work_item.clone());

        let mut label: String = name;
        label.append("-");
        label.append(decimal_text(index as u64).as_str());
        let after = ComplexWork::new(50, label.as_str());
        self.made = index + 1;
        Some(
            TaskRequest {
                index,
                request_id,
                timeout_secs: 5,
                work_item,
                work_headers,
                work_timeout_secs: 5,
                after,
            },
        )
    }
}

/// The requests of tasks that make at most a hundred each have distinct numbers.
pub proof fn task_requests_are_distinct(task_a: u32, a: usize, task_b: u32, b: usize)
    requires
        a < 100,
        b < 100,
        task_request_id(task_a, a) == task_request_id(task_b, b),
    ensures
        task_a == task_b,
        a == b,
{
}

} // verus!
