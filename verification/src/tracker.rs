//! The requests that are under way.

use vstd::prelude::*;
use vstd::string::*;

use crate::run_state::{next_count, phase_name, phase_text, RunState, RunView};
use crate::text::{decimal, decimal_is_digits, decimal_text, is_visible};

verus! {

/// A request that is under way.
#[derive(Clone, Debug)]
pub struct RequestStatus {
    /// The name under which the request is tracked.
    pub id: String,
    /// The number that the caller gave it.
    pub task_id: u32,
    /// Where it goes.
    pub url: String,
    /// The phase of the run in which it was made.
    pub phase: String,
    /// When it was made, in nanoseconds of the run.
    pub start_time: u64,
    /// When its state last changed, in nanoseconds of the run.
    pub last_update: u64,
    /// How far it has come.
    pub state: String,
    /// How long it is expected to take at most, in seconds.
    pub timeout_secs: u64,
    /// The thread that made it.
    pub runtime_name: String,
}

/// What a [`RequestStatus`] holds.
pub struct StatusView {
    pub id: Seq<char>,
    pub task_id: u32,
    pub url: Seq<char>,
    pub phase: Seq<char>,
    pub start_time: u64,
    pub last_update: u64,
    pub state: Seq<char>,
    pub timeout_secs: u64,
    pub runtime_name: Seq<char>,
}

impl View for RequestStatus {
    type V = StatusView;

    open spec fn view(&self) -> StatusView {
        StatusView {
            id: self.id@,
            task_id: self.task_id,
            url: self.url@,
            phase: self.phase@,
            start_time: self.start_time,
            last_update: self.last_update,
            state: self.state@,
            timeout_secs: self.timeout_secs,
            runtime_name: self.runtime_name@,
        }
    }
}

/// The requests that are under way.
pub struct RequestTracker {
    requests: Vec<RequestStatus>,
}

impl View for RequestTracker {
    type V = Seq<StatusView>;

    closed spec fn view(&self) -> Seq<StatusView> {
        Seq::new(self.requests@.len(), |i: int| self.requests@[i]@)
    }
}

/// The seconds that a request of a phase is expected to take at most.
pub open spec fn phase_timeout(post_drop: bool) -> u64 {
    if post_drop {
        8
    } else {
        5
    }
}

/// The name of the request with a serial number.
pub open spec fn request_id(task_id: u32, serial: usize) -> Seq<char> {
    "REQ-"@ + decimal(task_id as nat) + "-"@ + decimal(serial as nat)
}

/// The record of a request at the time when it is made.
pub open spec fn new_status(
    run: RunView,
    task_id: u32,
    url: Seq<char>,
    now: u64,
    thread_name: Seq<char>,
) -> StatusView {
    StatusView {
        id: request_id(task_id, run.next_serial),
        task_id,
        url,
        phase: phase_text(run.post_drop_phase),
        start_time: now,
        last_update: now,
        state: "created"@,
        timeout_secs: phase_timeout(run.post_drop_phase),
        runtime_name: thread_name,
    }
}

/// The name of a thread, or what stands for it where it has none.
pub open spec fn thread_text(name: Option<&str>) -> Seq<char> {
    match name {
        Some(name) => name@,
        None => "unknown"@,
    }
}

/// Some request has this name.
pub open spec fn tracks(requests: Seq<StatusView>, id: Seq<char>) -> bool {
    exists|i: int| 0 <= i < requests.len() && #[trigger] requests[i].id == id
}

/// The record of the request with this name, or no record.
pub open spec fn lookup(requests: Seq<StatusView>, id: Seq<char>) -> Option<StatusView> {
    if tracks(requests, id) {
        Some(requests[choose|i: int| 0 <= i < requests.len() && #[trigger] requests[i].id == id])
    } else {
        None
    }
}

/// The phase of a record and its timeout belong together.
pub open spec fn fits_phase(status: StatusView, post_drop: bool) -> bool {
    status.phase == phase_text(post_drop) && status.timeout_secs == phase_timeout(post_drop)
}

/// No two requests have the same name, and each has the phase and the timeout of one phase.
pub open spec fn well_formed(requests: Seq<StatusView>) -> bool {
    &&& forall|i: int, j: int|
        0 <= i < j < requests.len() ==> (#[trigger] requests[i]).id != (#[trigger] requests[j]).id
    &&& forall|i: int|
        #![trigger requests[i]]
        0 <= i < requests.len() ==> fits_phase(requests[i], false) || fits_phase(requests[i], true)
}

/// The requests after `status` was recorded: in the place of the one with its name, or last.
pub open spec fn recorded(requests: Seq<StatusView>, status: StatusView) -> Seq<StatusView> {
    if tracks(requests, status.id) {
        Seq::new(
            requests.len(),
            |i: int|
                if requests[i].id == status.id {
                    status
                } else {
                    requests[i]
                },
        )
    } else {
        requests.push(status)
    }
}

/// A record after its state changed.
pub open spec fn moved(status: StatusView, state: Seq<char>, now: u64) -> StatusView {
    StatusView { state, last_update: now, ..status }
}

/// The requests after the state of the one with this name changed.
pub open spec fn updated(
    requests: Seq<StatusView>,
    id: Seq<char>,
    state: Seq<char>,
    now: u64,
) -> Seq<StatusView> {
    Seq::new(
        requests.len(),
        |i: int|
            if requests[i].id == id {
                moved(requests[i], state, now)
            } else {
                requests[i]
            },
    )
}

/// The requests without the one with this name.
pub open spec fn without(requests: Seq<StatusView>, id: Seq<char>) -> Seq<StatusView> {
    requests.filter(|status: StatusView| status.id != id)
}

/// Filtering keeps everything that passes.
pub(crate) proof fn filter_keeps_all<A>(s: Seq<A>, keep: spec_fn(A) -> bool)
    requires
        forall|i: int| 0 <= i < s.len() ==> keep(#[trigger] s[i]),
    ensures
        s.filter(keep) == s,
    decreases s.len(),
{
    reveal(Seq::filter);
    if s.len() > 0 {
        filter_keeps_all(s.drop_last(), keep);
        assert(s.drop_last().push(s.last()) =~= s);
    }
}

/// Filtering out the one element that does not pass removes it.
pub(crate) proof fn filter_removes_one<A>(s: Seq<A>, keep: spec_fn(A) -> bool, at: int)
    requires
        0 <= at < s.len(),
        forall|i: int| 0 <= i < s.len() && i != at ==> keep(#[trigger] s[i]),
        !keep(s[at]),
    ensures
        s.filter(keep) == s.remove(at),
    decreases s.len(),
{
    reveal(Seq::filter);
    let front = s.drop_last();
    if at == s.len() - 1 {
        filter_keeps_all(front, keep);
        assert(s.remove(at) =~= front);
    } else {
        filter_removes_one(front, keep, at);
        assert(s.remove(at) =~= front.remove(at).push(s.last()));
    }
}

impl RequestTracker {
    /// The names are distinct, and phases and timeouts fit together.
    pub open spec fn wf(&self) -> bool {
        well_formed(self@)
    }

    /// A tracker without requests.
    pub fn new() -> (tracker: RequestTracker)
        ensures
            tracker.wf(),
            tracker@ == Seq::<StatusView>::empty(),
    {
        RequestTracker { requests: Vec::new() }
    }

    /// How many requests are under way.
    pub fn len(&self) -> (length: usize)
        ensures
            length == self@.len(),
    {
        self.requests.len()
    }

    /// The record at a place.
    pub(crate) fn at(&self, i: usize) -> (status: &RequestStatus)
        requires
            i < self@.len(),
        ensures
            status@ == self@[i as int],
    {
        &self.requests[i]
    }

    /// Where the request with this name stands.
    fn position(&self, id: &str) -> (found: Option<usize>)
        ensures
            match found {
                Some(at) => at < self@.len() && self@[at as int].id == id@,
                None => !tracks(self@, id@),
            },
    {
        let wanted: String = id.to_owned();
        let mut i: usize = 0;
        while i < self.requests.len()
            invariant
                i <= self.requests.len(),
                wanted@ == id@,
                forall|j: int| 0 <= j < i ==> #[trigger] self@[j].id != id@,
            decreases self.requests.len() - i,
        {
            assert(self@[i as int].id == self.requests@[i as int].id@);
            if self.requests[i].id == wanted {
                return Some(i);
            }
            i = i + 1;
        }
        None
    }

    /// The record of the request with this name, or no record.
    pub fn get(&self, id: &str) -> (found: Option<&RequestStatus>)
        requires
            self.wf(),
        ensures
            match found {
                Some(status) => lookup(self@, id@) == Some(status@),
                None => lookup(self@, id@) is None,
            },
            found matches Some(status) ==> status.id@ == id@ && self@.contains(status@),
            found is None ==> forall|i: int|
                0 <= i < self@.len() ==> (#[trigger] self@[i]).id != id@,
    {
        match self.position(id) {
            Some(at) => {
                assert(self@[at as int].id == id@);
                assert(tracks(self@, id@));
                assert(self@.contains(self@[at as int]));
                Some(&self.requests[at])
            },
            None => None,
        }
    }

    /// Tracks a new request under a name of its own, and returns the name.
    pub fn create_request(
        &mut self,
        run: &mut RunState,
        task_id: u32,
        url: &str,
        now: u64,
        thread_name: Option<&str>,
    ) -> (id: String)
        requires
            old(self).wf(),
        ensures
            final(self).wf(),
            id@ == request_id(task_id, old(run)@.next_serial),
            final(self)@ == recorded(
                old(self)@,
                new_status(old(run)@, task_id, url@, now, thread_text(thread_name)),
            ),
            final(run)@ == (RunView {
                next_serial: next_count(old(run)@.next_serial),
                ..old(run)@
            }),
    {
        let post_drop: bool = run.post_drop_phase();
        let serial: usize = run.take_serial();
        let mut id: String = String::from_str("REQ-");
        id.append(decimal_text(task_id as u64).as_str());
        id.append("-");
        id.append(decimal_text(serial as u64).as_str());

        let runtime_name: String = match thread_name {
            Some(name) => name.to_owned(),
            None => String::from_str("unknown"),
        };
        let timeout_secs: u64 = if post_drop {
            8
        } else {
            5
        };
        let status = RequestStatus {
            id: id.clone(),
            task_id,
            url: url.to_owned(),
            phase: phase_name(post_drop).to_owned(),
            start_time: now,
            last_update: now,
            state: String::from_str("created"),
            timeout_secs,
            runtime_name,
        };
        let ghost before = self@;
        let ghost made = status@;
        assert(made == new_status(old(run)@, task_id, url@, now, thread_text(thread_name)));
        match self.position(id.as_str()) {
            Some(at) => {
                assert(before[at as int].id == id@);
                self.requests.set(at, status);
                assert(self@ =~= recorded(before, made));
            },
            None => {
                self.requests.push(status);
                assert(self@ =~= before.push(made));
            },
        }
        id
    }

    /// Moves the request with this name to a state; without such a request nothing changes.
    pub fn update_state(&mut self, id: &str, state: &str, now: u64)
        requires
            old(self).wf(),
        ensures
            final(self).wf(),
            final(self)@ == updated(old(self)@, id@, state@, now),
    {
        let ghost before = self@;
        match self.position(id) {
            Some(at) => {
                assert(before[at as int].id == id@);
                self.requests[at].state = state.to_owned();
                self.requests[at].last_update = now;
                assert(self@ =~= updated(before, id@, state@, now));
            },
            None => {
                assert(self@ =~= updated(before, id@, state@, now));
            },
        }
        proof {
            updated_is_well_formed(before, id@, state@, now);
        }
    }

    /// Stops tracking the request with this name; without such a request nothing changes.
    pub fn mark_completed(&mut self, id: &str)
        requires
            old(self).wf(),
        ensures
            final(self).wf(),
            final(self)@ == without(old(self)@, id@),
    {
        let ghost before = self@;
        let ghost keep = |status: StatusView| status.id != id@;
        match self.position(id) {
            Some(at) => {
                assert(before[at as int].id == id@);
                let _gone = self.requests.remove(at);
                assert(self@ =~= before.remove(at as int));
                proof {
                    filter_removes_one(before, keep, at as int);
                }
            },
            None => {
                proof {
                    filter_keeps_all(before, keep);
                }
            },
        }
    }
}

/// The name of a request is visible text.
pub proof fn request_id_is_visible(task_id: u32, serial: usize)
    ensures
        is_visible(request_id(task_id, serial)),
{
    reveal_strlit("REQ-");
    reveal_strlit("-");
    decimal_is_digits(task_id as nat);
    decimal_is_digits(serial as nat);
}

/// Changing a state keeps the requests well formed.
pub(crate) proof fn updated_is_well_formed(
    requests: Seq<StatusView>,
    id: Seq<char>,
    state: Seq<char>,
    now: u64,
)
    requires
        well_formed(requests),
    ensures
        well_formed(updated(requests, id, state, now)),
{
    let after = updated(requests, id, state, now);
    assert forall|i: int| #![trigger after[i]] 0 <= i < after.len() implies after[i].id
        == requests[i].id && after[i].phase == requests[i].phase && after[i].timeout_secs
        == requests[i].timeout_secs by {}
}

} // verus!
