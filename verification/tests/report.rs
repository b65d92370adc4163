use runtime_hang::run_state::RunState;
use runtime_hang::tracker::RequestTracker;

const SECOND: u64 = 1_000_000_000;

fn tracker_with(states: &[&str]) -> RequestTracker {
    let mut tracker = RequestTracker::new();
    let mut run = RunState::new();
    for state in states {
        let id = tracker.create_request(&mut run, 3, "http://a", 10 * SECOND, Some("task-3"));
        tracker.update_state(&id, state, 10 * SECOND);
    }
    tracker
}

#[test]
fn nothing_pending() {
    let tracker = RequestTracker::new();
    assert_eq!(tracker.pending_report(0, &vec![]), vec!["🔍 No pending requests"]);
    assert!(tracker.analyze_hangs(100 * SECOND).is_empty());
}

#[test]
fn table_of_fresh_requests() {
    let tracker = tracker_with(&["connecting"]);
    let lines = tracker.pending_report(11 * SECOND, &vec![format!("{:.1}", 1.0f32)]);
    assert_eq!(
        lines,
        vec![
            "\n🔍 PENDING REQUESTS (1):",
            "┌───────────────┬──────────┬──────────┬────────────────┬──────────────┐",
            "│ Request ID    │ Task ID  │ Phase    │ State          │ Elapsed      │",
            "├───────────────┼──────────┼──────────┼────────────────┼──────────────┤",
            "│ REQ-3-0       │ 3        │ normal   │ connecting     │ 1.0s         │",
            "└───────────────┴──────────┴──────────┴────────────────┴──────────────┘",
        ]
    );
}

#[test]
fn hanging_requests_are_listed() {
    let mut tracker = tracker_with(&["connecting"]);
    let mut run = RunState::new();
    run.take_serial();
    run.enter_post_drop_phase();
    let late = tracker.create_request(&mut run, 5001, "http://b", 12 * SECOND, None);
    tracker.update_state(&late, "acquiring_permit", 12 * SECOND);
    let now = 14 * SECOND;
    assert_eq!(tracker.elapsed_nanos(now), vec![4 * SECOND, 2 * SECOND]);
    let seconds: Vec<String> = vec![format!("{:.1}", 4.0f32), format!("{:.1}", 2.0f32)];
    let lines = tracker.pending_report(now, &seconds);
    assert_eq!(
        lines[4..],
        vec![
            "│ ⚠️ REQ-3-0    │ 3        │ normal   │ connecting     │ 4.0s         │",
            "│ REQ-5001-1    │ 5001     │ post-drop │ acquiring_permit │ 2.0s         │",
            "└───────────────┴──────────┴──────────┴────────────────┴──────────────┘",
            "\n⚠️ POTENTIALLY HANGING REQUESTS:",
            " - REQ-3-0 (Task 3, normal) in state 'connecting' for 4.0s",
            "   Runtime: task-3, URL: http://a",
        ]
    );
}

#[test]
fn rows_agree_with_format() {
    let tracker = tracker_with(&["reading_body"]);
    let lines = tracker.pending_report(20 * SECOND, &vec!["10.0".to_string()]);
    let expected = format!(
        "│ {:<13} │ {:<8} │ {:<8} │ {:<14} │ {:<12} │",
        "⚠️ ".to_string() + "REQ-3-0",
        3,
        "normal",
        "reading_body",
        format!("{:.1}s", 10.0f32)
    );
    assert_eq!(lines[4], expected);
}

#[test]
fn a_request_may_hang_after_half_of_its_time() {
    let tracker = tracker_with(&["connecting"]);
    let status = tracker.get("REQ-3-0").unwrap();
    assert!(!status.may_hang(0));
    assert!(!status.may_hang(13 * SECOND - 1));
    assert!(status.may_hang(13 * SECOND));
    assert!(!status.runs_long(14 * SECOND - 1));
    assert!(status.runs_long(14 * SECOND));
    assert_eq!(status.elapsed_nanos(0), 0);
    assert_eq!(status.elapsed_nanos(11 * SECOND), SECOND);
}

#[test]
fn few_requests_suggest_nothing() {
    let tracker = tracker_with(&["connecting", "connecting", "reading_body"]);
    assert!(tracker.analyze_hangs(13 * SECOND).is_empty());
    assert_eq!(tracker.count_in_state("connecting"), 2);
    assert_eq!(tracker.count_in_state("reading_body"), 1);
    assert_eq!(tracker.count_in_state("created"), 0);
}

#[test]
fn many_requests_suggest_a_hang() {
    let tracker =
        tracker_with(&["connecting", "reading_body", "connecting", "connecting", "reading_body"]);
    assert_eq!(tracker.count_long_running(14 * SECOND), 5);
    assert_eq!(
        tracker.analyze_hangs(14 * SECOND),
        vec![
            "\n🔬 HANG ANALYSIS:",
            " • 3 requests stuck in 'connecting' state - likely connection pool exhaustion",
            " • 2 requests stuck in 'reading_body' state - possible hang in connection keep-alive",
            " • 5 requests running longer than 75% of timeout - likely deadlocked",
            " • Most likely cause: Connection pool resources tied to dropped runtime",
        ]
    );
}

#[test]
fn long_running_alone_suggests_a_hang() {
    let tracker = tracker_with(&["created"]);
    assert_eq!(
        tracker.analyze_hangs(20 * SECOND),
        vec![
            "\n🔬 HANG ANALYSIS:",
            " • 1 requests running longer than 75% of timeout - likely deadlocked",
            " • Most likely cause: Connection pool resources tied to dropped runtime",
        ]
    );
}
