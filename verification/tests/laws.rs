use runtime_hang::exchange::{Exchange, ExchangeEvent};
use runtime_hang::monitor::{HangMonitor, MonitorVerdict};
use runtime_hang::post_drop::{record_join, JoinOutcome, PostDropRun};
use runtime_hang::run_state::RunState;
use runtime_hang::server::server_url;
use runtime_hang::tracker::RequestTracker;

#[test]
fn a_request_that_ends_well_leaves_the_others_as_they_were() {
    let mut tracker = RequestTracker::new();
    let mut run = RunState::new();
    let other = tracker.create_request(&mut run, 1, "http://a", 1, None);
    let (mut exchange, _, _) =
        Exchange::start(&mut tracker, &mut run, 2, "http://b", 8, 2, None);
    assert_eq!(tracker.len(), 2);
    assert!(tracker.get(exchange.id()).is_some());
    for event in [
        ExchangeEvent::PermitTimedOut,
        ExchangeEvent::Responded("200 OK".to_string()),
        ExchangeEvent::BodyRead("done".to_string()),
    ] {
        assert!(exchange.advance(event, &mut tracker, &mut run, 3).is_some());
    }
    assert_eq!(tracker.len(), 1);
    let status = tracker.get(&other).unwrap();
    assert_eq!(status.state, "created");
    assert_eq!(status.last_update, 1);
}

#[test]
fn names_stay_distinct_after_requests_were_completed() {
    let mut tracker = RequestTracker::new();
    let mut run = RunState::new();
    let first = tracker.create_request(&mut run, 4, "u", 0, None);
    tracker.mark_completed(&first);
    let second = tracker.create_request(&mut run, 4, "u", 0, None);
    assert_ne!(first, second);
    assert!(tracker.get(&first).is_none());
}

#[test]
fn a_hang_stays_seen_and_is_reported() {
    let mut tracker = RequestTracker::new();
    let mut run = RunState::new();
    let mut monitor = HangMonitor::new();
    monitor.observe(&mut run).unwrap();
    assert!(matches!(monitor.decide(&mut run), MonitorVerdict::Continue));

    let (mut exchange, _, _) = Exchange::start(&mut tracker, &mut run, 1, "u", 5, 0, None);
    exchange.advance(ExchangeEvent::PermitAcquired, &mut tracker, &mut run, 1).unwrap();
    exchange.advance(ExchangeEvent::SendTimedOut, &mut tracker, &mut run, 2).unwrap();
    record_join(&mut run, 0, JoinOutcome::Done);
    monitor.observe(&mut run).unwrap();
    assert!(run.hang_detected());
    assert!(matches!(monitor.decide(&mut run), MonitorVerdict::Hang(_)));
    assert!(matches!(monitor.decide(&mut run), MonitorVerdict::Hang(_)));
}

#[test]
fn long_running_requests_are_listed_as_hanging() {
    let mut tracker = RequestTracker::new();
    let mut run = RunState::new();
    tracker.create_request(&mut run, 1, "u", 0, None);
    let now: u64 = 4_000_000_000;
    assert_eq!(tracker.count_long_running(now), 1);
    let lines = tracker.pending_report(now, &vec!["4.0".to_string()]);
    assert!(lines.contains(&"\n⚠️ POTENTIALLY HANGING REQUESTS:".to_string()));
}

/// Watches over samples in the phase after the drop, until the watch ends; returns how many
/// looks it took, and whether it was stopped.
fn watch(samples: impl Fn(usize) -> usize) -> (usize, bool, RunState) {
    let mut run = RunState::new();
    run.enter_post_drop_phase();
    let mut monitor = HangMonitor::new();
    let mut looks: usize = 0;
    loop {
        let wanted = samples(looks + 1);
        while run.active_connections() < wanted {
            run.begin_connection();
        }
        while run.active_connections() > wanted {
            run.end_connection();
        }
        if monitor.observe(&mut run).is_none() {
            return (looks, false, run);
        }
        looks += 1;
        if !matches!(monitor.decide(&mut run), MonitorVerdict::Continue) {
            return (looks, true, run);
        }
    }
}

#[test]
fn a_whole_watch_ends_at_the_first_sign() {
    let (looks, stopped, run) = watch(|_| 0);
    assert_eq!((looks, stopped), (59, false));
    assert!(!run.hang_detected());

    // The trend is found at the first look that reports after six positive samples.
    let (looks, stopped, run) = watch(|look| if look < 4 { 0 } else { 2 });
    assert_eq!((looks, stopped), (9, true));
    assert!(run.hang_detected());

    // Active connections that come and go are overdue after fifteen seconds.
    let (looks, stopped, _) = watch(|look| if look % 2 == 0 { 1 } else { 0 });
    assert_eq!((looks, stopped), (16, true));
    let (looks, stopped, _) = watch(|look| look % 2);
    assert_eq!((looks, stopped), (15, true));

    // The last look still counts.
    let (looks, stopped, _) = watch(|look| if look < 59 { 0 } else { 1 });
    assert_eq!((looks, stopped), (59, true));
}

#[test]
fn the_phase_after_the_drop_makes_so_many_distinct_requests() {
    for tasks in [0usize, 1, 2, 10, 60] {
        let (mut phase, nested) = PostDropRun::start(tasks);
        let mut numbers: Vec<u32> = vec![nested.request_id];
        while let Some(task) = phase.next_task() {
            numbers.extend(task.sub_ids);
        }
        assert_eq!(numbers.len(), 3 * tasks + 1);
        numbers.sort();
        numbers.dedup();
        assert_eq!(numbers.len(), 3 * tasks + 1);
    }
}

#[test]
fn overlapping_connections_are_counted() {
    let mut run = RunState::new();
    for begins in [true, true, false, true, true, false, false] {
        if begins {
            run.begin_connection();
        } else {
            run.end_connection();
        }
    }
    assert_eq!(run.active_connections(), 1);
}

#[test]
fn records_are_sound() {
    let mut tracker = RequestTracker::new();
    let mut run = RunState::new();
    let id = tracker.create_request(&mut run, 12, "u", 5, None);
    tracker.update_state(&id, "started", 8);
    let status = tracker.get(&id).unwrap();
    assert!(status.id.starts_with("REQ-12-"));
    assert!(status.start_time <= status.last_update);
}

#[test]
fn the_last_state_counts_and_moves_commute() {
    let mut states: Vec<(String, String)> = vec![];
    for order in [[0usize, 1], [1, 0]] {
        let mut tracker = RequestTracker::new();
        let mut run = RunState::new();
        let ids = [
            tracker.create_request(&mut run, 1, "u", 0, None),
            tracker.create_request(&mut run, 2, "u", 0, None),
        ];
        let moves = ["connecting", "reading_body"];
        for at in order {
            tracker.update_state(&ids[at], "started", 1);
            tracker.update_state(&ids[at], moves[at], 2);
        }
        states.push((
            tracker.get(&ids[0]).unwrap().state.clone(),
            tracker.get(&ids[1]).unwrap().state.clone(),
        ));
    }
    assert_eq!(states[0], ("connecting".to_string(), "reading_body".to_string()));
    assert_eq!(states[0], states[1]);
}

#[test]
fn the_analysis_ignores_the_order_of_requests() {
    let mut analyses: Vec<Vec<String>> = vec![];
    for states in [
        ["connecting", "connecting", "connecting", "reading_body", "reading_body"],
        ["reading_body", "connecting", "reading_body", "connecting", "connecting"],
    ] {
        let mut tracker = RequestTracker::new();
        let mut run = RunState::new();
        for state in states {
            let id = tracker.create_request(&mut run, 1, "u", 0, None);
            tracker.update_state(&id, state, 0);
        }
        analyses.push(tracker.analyze_hangs(9_000_000_000));
    }
    assert_eq!(analyses[0].len(), 5);
    assert_eq!(analyses[0], analyses[1]);
}

#[test]
fn servers_at_distinct_addresses_have_distinct_urls() {
    assert_ne!(server_url("127.0.0.1:4000"), server_url("127.0.0.1:4001"));
}

#[test]
fn the_analysis_looks_at_states_timeouts_and_seconds_alone() {
    let mut analyses: Vec<Vec<String>> = vec![];
    for (start, task_id, url) in [(0u64, 1u32, "a"), (7_500_000_000, 2, "b")] {
        let mut tracker = RequestTracker::new();
        let mut run = RunState::new();
        for _ in 0..3 {
            let id = tracker.create_request(&mut run, task_id, url, start, None);
            tracker.update_state(&id, "connecting", start);
        }
        analyses.push(tracker.analyze_hangs(start + 4_000_000_000 + u64::from(task_id)));
    }
    assert_eq!(analyses[0].len(), 4);
    assert_eq!(analyses[0], analyses[1]);
}

#[test]
fn a_request_that_is_made_moved_and_completed_leaves_no_trace() {
    let mut tracker = RequestTracker::new();
    let mut run = RunState::new();
    let other = tracker.create_request(&mut run, 1, "u", 1, None);
    tracker.update_state(&other, "connecting", 2);
    let id = tracker.create_request(&mut run, 2, "u", 3, None);
    for state in ["started", "connecting", "reading_body", "completed"] {
        tracker.update_state(&id, state, 4);
    }
    tracker.mark_completed(&id);
    assert_eq!(tracker.len(), 1);
    assert!(tracker.get(&id).is_none());
    assert_eq!(tracker.get(&other).unwrap().state, "connecting");
    assert_eq!(tracker.get(&other).unwrap().last_update, 2);
}
