use runtime_hang::run_state::RunState;
use runtime_hang::server::{
    busy_line, busy_work, delay_plan, handling_line, keepalive_response, loopback_line, server_url,
};

#[test]
fn requests_are_counted_in_and_out() {
    let mut run = RunState::new();
    assert_eq!(run.begin_connection(), (0, 0));
    assert_eq!(run.begin_connection(), (1, 1));
    assert_eq!(run.active_connections(), 2);
    run.end_connection();
    assert_eq!(run.active_connections(), 1);
    assert_eq!(run.begin_connection(), (2, 1));
    assert_eq!(handling_line(2, 1), "🔄 Server handling request #2 (active: 2)");
}

#[test]
fn counters_wrap_around() {
    let mut run = RunState::new();
    run.end_connection();
    assert_eq!(run.active_connections(), usize::MAX);
    assert_eq!(run.begin_connection(), (0, usize::MAX));
    assert_eq!(run.active_connections(), 0);
}

#[test]
fn without_induced_delays_every_request_waits_the_same() {
    for req_num in 0..12 {
        let plan = delay_plan(req_num, false);
        assert!(plan.lines.is_empty());
        assert!(!plan.busy);
        assert_eq!(plan.delay_ms, 50);
        assert_eq!(plan.jitter_ms, None);
    }
}

#[test]
fn induced_delays() {
    let plan = delay_plan(0, true);
    assert_eq!(
        plan.lines,
        vec![
            "   [Server] Adding LONG delay for request #0",
            "   [Server] Adding CPU-intensive work for request #0",
        ]
    );
    assert!(plan.busy);
    assert_eq!(plan.delay_ms, 1000);
    assert_eq!(plan.jitter_ms, Some(500));

    let plan = delay_plan(4, true);
    assert_eq!(plan.lines, vec!["   [Server] Adding normal delay for request #4"]);
    assert!(!plan.busy);
    assert_eq!(plan.delay_ms, 300);
    assert_eq!(plan.jitter_ms, Some(150));

    let plan = delay_plan(9, true);
    assert_eq!(plan.lines, vec!["   [Server] Adding LONG delay for request #9"]);
    assert_eq!(plan.delay_ms, 1000);
    assert_eq!(plan.jitter_ms, None);

    let plan = delay_plan(5, true);
    assert!(plan.busy);
    assert_eq!(plan.lines.len(), 2);
    assert_eq!(plan.delay_ms, 300);
    assert_eq!(plan.jitter_ms, None);
}

#[test]
fn busy_work_adds_up() {
    let mut sum: i32 = 0;
    for i in 0..500_000 {
        sum = sum.wrapping_add(i);
    }
    assert_eq!(busy_work(), sum);
    assert_eq!(
        busy_line(5, sum),
        "   [Server] Finished CPU work for request #5 (sum: 445698416)"
    );
}

#[test]
fn some_requests_cause_a_request_of_the_server() {
    assert_eq!(loopback_line(3, false), None);
    assert_eq!(loopback_line(4, true), None);
    assert_eq!(
        loopback_line(6, true),
        Some("   [Server] Making loopback request from request #6".to_string())
    );
}

#[test]
fn the_answer() {
    let response = keepalive_response(42);
    assert_eq!(response.status, 200);
    assert_eq!(response.body, "Response #42 processed");
    let headers = response.headers;
    assert_eq!(headers.len(), 5);
    assert_eq!(headers.get("connection").unwrap(), "keep-alive");
    assert_eq!(headers.get("cache-control").unwrap(), "no-cache, no-store");
    assert_eq!(headers.get("pragma").unwrap(), "no-cache");
    assert_eq!(headers.get("X-Request-Id").unwrap(), "42");
    assert_eq!(headers.get("set-cookie").unwrap(), "session=test-value; Path=/; HttpOnly");
}

#[test]
fn the_address() {
    assert_eq!(server_url("127.0.0.1:4000"), "http://127.0.0.1:4000");
}
