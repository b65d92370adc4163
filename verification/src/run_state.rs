//! The flags and counters that every part of a run shares.

use vstd::prelude::*;

verus! {

/// The phase of a run, as it is written into records and headers.
pub open spec fn phase_text(post_drop: bool) -> Seq<char> {
    if post_drop {
        "post-drop"@
    } else {
        "normal"@
    }
}

/// The phase of a run, as it is written into records and headers.
pub fn phase_name(post_drop: bool) -> (name: &'static str)
    ensures
        name@ == phase_text(post_drop),
{
    if post_drop {
        "post-drop"
    } else {
        "normal"
    }
}

/// What a [`RunState`] holds.
pub struct RunView {
    /// A hang was seen.
    pub hang_detected: bool,
    /// The task runtimes were dropped, and requests go on.
    pub post_drop_phase: bool,
    /// The server delays its responses.
    pub induce_delays: bool,
    /// How many requests the server has begun to handle.
    pub connections: usize,
    /// How many requests the server is handling.
    pub active: usize,
    /// How many connections were taken and not given back properly.
    pub leaked: usize,
    /// When the hang was reproduced, in seconds of Unix time; zero before that.
    pub reproduced_at: u64,
    /// The serial number of the next request.
    pub next_serial: usize,
}

impl RunView {
    /// The same, with a hang seen.
    pub open spec fn with_hang(self) -> RunView {
        RunView { hang_detected: true, ..self }
    }
}

/// The successor of a counter, which starts again from zero after its last value.
pub open spec fn next_count(n: usize) -> usize {
    if n == usize::MAX {
        0
    } else {
        (n + 1) as usize
    }
}

/// The predecessor of a counter, which starts again from its last value below zero.
pub open spec fn previous_count(n: usize) -> usize {
    if n == 0 {
        usize::MAX
    } else {
        (n - 1) as usize
    }
}

/// The flags and counters that every part of a run shares.
pub struct RunState {
    hang_detected: bool,
    post_drop_phase: bool,
    induce_delays: bool,
    connections: usize,
    active: usize,
    leaked: usize,
    reproduced_at: u64,
    next_serial: usize,
}

impl View for RunState {
    type V = RunView;

    closed spec fn view(&self) -> RunView {
        RunView {
            hang_detected: self.hang_detected,
            post_drop_phase: self.post_drop_phase,
            induce_delays: self.induce_delays,
            connections: self.connections,
            active: self.active,
            leaked: self.leaked,
            reproduced_at: self.reproduced_at,
            next_serial: self.next_serial,
        }
    }
}

impl RunState {
    /// A run in which nothing has happened yet.
    pub fn new() -> (run: RunState)
        ensures
            run@ == (RunView {
                hang_detected: false,
                post_drop_phase: false,
                induce_delays: false,
                connections: 0,
                active: 0,
                leaked: 0,
                reproduced_at: 0,
                next_serial: 0,
            }),
    {
        RunState {
            hang_detected: false,
            post_drop_phase: false,
            induce_delays: false,
            connections: 0,
            active: 0,
            leaked: 0,
            reproduced_at: 0,
            next_serial: 0,
        }
    }

    /// Whether a hang was seen.
    pub fn hang_detected(&self) -> (result: bool)
        ensures
            result == self@.hang_detected,
    {
        self.hang_detected
    }

    /// Whether the task runtimes were dropped.
    pub fn post_drop_phase(&self) -> (result: bool)
        ensures
            result == self@.post_drop_phase,
    {
        self.post_drop_phase
    }

    /// Whether the server delays its responses.
    pub fn induce_delays(&self) -> (result: bool)
        ensures
            result == self@.induce_delays,
    {
        self.induce_delays
    }

    /// How many requests the server is handling.
    pub fn active_connections(&self) -> (result: usize)
        ensures
            result == self@.active,
    {
        self.active
    }

    /// How many connections were taken and not given back properly.
    pub fn leaked_connections(&self) -> (result: usize)
        ensures
            result == self@.leaked,
    {
        self.leaked
    }

    /// When the hang was reproduced, in seconds of Unix time; zero before that.
    pub fn reproduction_timestamp(&self) -> (result: u64)
        ensures
            result == self@.reproduced_at,
    {
        self.reproduced_at
    }

    /// Notes that a hang was seen.
    pub fn report_hang(&mut self)
        ensures
            final(self)@ == old(self)@.with_hang(),
    {
        self.hang_detected = true;
    }

    /// Enters the phase after the task runtimes were dropped, in which the server delays its
    /// responses.
    pub fn enter_post_drop_phase(&mut self)
        ensures
            final(self)@ == (RunView {
                post_drop_phase: true,
                induce_delays: true,
                ..old(self)@
            }),
    {
        self.post_drop_phase = true;
        self.induce_delays = true;
    }

    /// Hands out the serial number of a new request.
    pub fn take_serial(&mut self) -> (serial: usize)
        ensures
            serial == old(self)@.next_serial,
            final(self)@ == (RunView {
                next_serial: next_count(old(self)@.next_serial),
                ..old(self)@
            }),
    {
        let serial: usize = self.next_serial;
        self.next_serial = self.next_serial.wrapping_add(1);
        serial
    }

    /// Counts a request that reaches the server: its number, and how many others were being
    /// handled.
    pub fn begin_connection(&mut self) -> (numbers: (usize, usize))
        ensures
            numbers.0 == old(self)@.connections,
            numbers.1 == old(self)@.active,
            final(self)@ == (RunView {
                connections: next_count(old(self)@.connections),
                active: next_count(old(self)@.active),
                ..old(self)@
            }),
    {
        let req_num: usize = self.connections;
        let active: usize = self.active;
        self.connections = self.connections.wrapping_add(1);
        self.active = self.active.wrapping_add(1);
        (req_num, active)
    }

    /// Counts a request that the server has answered.
    pub fn end_connection(&mut self)
        ensures
            final(self)@ == (RunView {
                active: previous_count(old(self)@.active),
                ..old(self)@
            }),
    {
        self.active = self.active.wrapping_sub(1);
    }

    /// Counts a connection that was not given back properly.
    pub fn record_leak(&mut self)
        ensures
            final(self)@ == (RunView { leaked: next_count(old(self)@.leaked), ..old(self)@ }),
    {
        self.leaked = self.leaked.wrapping_add(1);
    }

    /// Notes when the hang was reproduced, in seconds of Unix time.
    pub fn record_reproduction(&mut self, timestamp: u64)
        ensures
            final(self)@ == (RunView { reproduced_at: timestamp, ..old(self)@ }),
    {
        self.reproduced_at = timestamp;
    }
}

/// A request that is counted in and then counted out leaves the number of requests being
/// handled as it was.
pub proof fn connections_balance(active: usize)
    ensures
        previous_count(next_count(active)) == active,
        next_count(previous_count(active)) == active,
{
}

} // verus!
