use runtime_hang::monitor::{all_clear_line, HangMonitor, MonitorVerdict};
use runtime_hang::run_state::RunState;
use runtime_hang::verdict::conclude;

fn run_with_active(active: usize) -> RunState {
    let mut run = RunState::new();
    for _ in 0..active {
        run.begin_connection();
    }
    run
}

#[test]
fn the_watch_reports_every_third_second() {
    let mut monitor = HangMonitor::new();
    let mut run = run_with_active(0);
    for tick in 1..60usize {
        let seen = monitor.observe(&mut run).unwrap();
        assert_eq!(seen.report_pending, tick % 3 == 0);
        assert!(!seen.analyze);
        if tick % 3 == 0 {
            assert_eq!(
                seen.lines,
                vec![format!("\n📊 MONITOR [{}s]: Active connections: 0", tick)]
            );
        } else {
            assert!(seen.lines.is_empty());
        }
        assert!(matches!(monitor.decide(&mut run), MonitorVerdict::Continue));
    }
    assert!(monitor.observe(&mut run).is_none());
    assert!(!run.hang_detected());
    assert_eq!(all_clear_line(59), "\n✅ No hang detected after 59 seconds");
}

#[test]
fn a_count_that_does_not_decrease_is_only_a_warning_at_first() {
    let mut monitor = HangMonitor::new();
    let mut run = run_with_active(1);
    for _ in 0..5 {
        monitor.observe(&mut run).unwrap();
    }
    run.begin_connection();
    let seen = monitor.observe(&mut run).unwrap();
    assert_eq!(
        seen.lines,
        vec![
            "\n📊 MONITOR [6s]: Active connections: 2",
            "⚠️ WARNING: Connection count not decreasing: [1, 1, 1, 1, 1, 2]",
        ]
    );
    assert!(!run.hang_detected());
}

#[test]
fn a_count_that_does_not_decrease_after_the_drop_is_a_hang() {
    let mut monitor = HangMonitor::new();
    let mut run = run_with_active(1);
    run.enter_post_drop_phase();
    for tick in 1..6usize {
        let seen = monitor.observe(&mut run).unwrap();
        assert_eq!(seen.report_pending, tick != 1 && tick != 5);
        assert!(matches!(monitor.decide(&mut run), MonitorVerdict::Continue));
    }
    let seen = monitor.observe(&mut run).unwrap();
    assert_eq!(seen.lines.len(), 3);
    assert_eq!(
        seen.lines[2],
        "🔥 HANG DETECTED: Connection count steadily increasing or not decreasing!"
    );
    assert!(run.hang_detected());
    match monitor.decide(&mut run) {
        MonitorVerdict::Hang(lines) => assert_eq!(
            lines,
            vec![
                "\n⚠️ HANG DETECTED after 6 seconds!",
                "This reproduces the issue in production where connections",
                "are leaked after a runtime is dropped.",
                "Connection count history: [1, 1, 1, 1, 1, 1]",
            ]
        ),
        _ => panic!("no hang"),
    }
}

#[test]
fn a_count_that_decreases_once_is_no_hang() {
    let mut monitor = HangMonitor::new();
    let mut run = run_with_active(2);
    run.enter_post_drop_phase();
    for _ in 0..5 {
        monitor.observe(&mut run).unwrap();
    }
    run.end_connection();
    let seen = monitor.observe(&mut run).unwrap();
    assert_eq!(seen.lines, vec!["\n📊 MONITOR [6s]: Active connections: 1"]);
    assert!(!run.hang_detected());
}

#[test]
fn a_run_that_takes_too_long_is_a_hang() {
    let mut monitor = HangMonitor::new();
    let mut run = run_with_active(0);
    run.enter_post_drop_phase();
    for tick in 1..15usize {
        let seen = monitor.observe(&mut run).unwrap();
        assert_eq!(seen.analyze, seen.report_pending && tick >= 10);
        assert!(matches!(monitor.decide(&mut run), MonitorVerdict::Continue));
    }
    run.begin_connection();
    monitor.observe(&mut run).unwrap();
    match monitor.decide(&mut run) {
        MonitorVerdict::Overdue(lines) => {
            assert_eq!(
                lines[0],
                "\n⚠️ Test taking too long with 1 active connections - likely HANG situation"
            );
            assert_eq!(
                lines[3],
                "Connection count history: [0, 0, 0, 0, 0, 0, 0, 0, 0, 0, 0, 0, 0, 0, 1]"
            );
        }
        _ => panic!("not overdue"),
    }
    assert!(run.hang_detected());
}

#[test]
fn the_end_of_a_run_with_a_hang() {
    let mut run = run_with_active(3);
    run.record_leak();
    run.record_leak();
    run.report_hang();
    let lines = conclude(&mut run, 1_700_000_000);
    assert_eq!(run.reproduction_timestamp(), 1_700_000_000);
    assert_eq!(lines.len(), 12);
    assert_eq!(lines[0], "\n🔴 TEST RESULT: Successfully reproduced hang condition!");
    assert_eq!(lines[3], "Leaked connections: 2");
    assert_eq!(lines[4], "Active connections at end: 3");
    assert_eq!(lines[11], "\nTest completed");
}

#[test]
fn the_end_of_a_run_without_a_hang() {
    let mut run = run_with_active(0);
    let lines = conclude(&mut run, 1_700_000_000);
    assert_eq!(run.reproduction_timestamp(), 0);
    assert_eq!(
        lines,
        vec![
            "\n🟢 TEST RESULT: No hang detected in this run.",
            "The issue can be timing-dependent. It may require multiple runs",
            "or specific system conditions to trigger reliably.",
            "Try running with RUST_LOG=hyper=trace,tokio=trace for more details.",
            "\nTest completed",
        ]
    );
}

#[test]
fn the_phase_after_the_drop_delays_responses() {
    let mut run = RunState::new();
    assert!(!run.post_drop_phase());
    assert!(!run.induce_delays());
    run.enter_post_drop_phase();
    assert!(run.post_drop_phase());
    assert!(run.induce_delays());
    assert_eq!(run.leaked_connections(), 0);
}
