# runtime_hang

A program that provokes hangs of an HTTP client which is created on one Tokio runtime and used
on others, and that watches itself while it does so.

The decisions are a library, verified with Verus. Each function states what it decides; the
module `laws` states what holds of them together.

- `src/tracker.rs`: the requests that are under way
- `src/report.rs`: what is said about them
- `src/exchange.rs`: one request from its start to its end
- `src/run_state.rs`: the flags and counters that every part of a run shares
- `src/server.rs`: what the server does with a request
- `src/tasks.rs`: tasks with runtimes of their own, and the work that they hand out
- `src/post_drop.rs`: the requests after those runtimes were dropped
- `src/monitor.rs`: the watch over a run
- `src/verdict.rs`: what is said at the end of a run
- `src/headers.rs`: header maps of the `http` crate, as `axum` exports them
- `src/text.rs`: numbers, padding and lists as text
- `src/laws.rs`: the laws

`app/` holds the runtimes, the threads, the client, the server, the clock and the output.

Time is counted in nanoseconds from the start of the run. Each report takes the time once.
