use runtime_hang::run_state::RunState;
use runtime_hang::tracker::RequestTracker;

#[test]
fn a_new_tracker_is_empty() {
    let tracker = RequestTracker::new();
    assert_eq!(tracker.len(), 0);
    assert!(tracker.get("REQ-1-0").is_none());
}

#[test]
fn a_created_request_is_found() {
    let mut tracker = RequestTracker::new();
    let mut run = RunState::new();
    let id = tracker.create_request(&mut run, 101, "http://a", 17, Some("task-1"));
    assert_eq!(id, "REQ-101-0");
    let status = tracker.get("REQ-101-0").unwrap();
    assert_eq!(status.id, "REQ-101-0");
    assert_eq!(status.task_id, 101);
    assert_eq!(status.url, "http://a");
    assert_eq!(status.phase, "normal");
    assert_eq!(status.start_time, 17);
    assert_eq!(status.last_update, 17);
    assert_eq!(status.state, "created");
    assert_eq!(status.timeout_secs, 5);
    assert_eq!(status.runtime_name, "task-1");
}

#[test]
fn a_request_after_the_drop_has_another_phase() {
    let mut tracker = RequestTracker::new();
    let mut run = RunState::new();
    run.enter_post_drop_phase();
    let id = tracker.create_request(&mut run, 5001, "http://a", 17, None);
    let status = tracker.get(&id).unwrap();
    assert_eq!(status.phase, "post-drop");
    assert_eq!(status.timeout_secs, 8);
    assert_eq!(status.runtime_name, "unknown");
}

#[test]
fn serial_numbers_make_names_distinct() {
    let mut tracker = RequestTracker::new();
    let mut run = RunState::new();
    let a = tracker.create_request(&mut run, 7, "u", 0, None);
    let b = tracker.create_request(&mut run, 7, "u", 0, None);
    let c = tracker.create_request(&mut run, 70, "u", 0, None);
    assert_eq!(a, "REQ-7-0");
    assert_eq!(b, "REQ-7-1");
    assert_eq!(c, "REQ-70-2");
    assert_eq!(tracker.len(), 3);
}

#[test]
fn updating_changes_one_request() {
    let mut tracker = RequestTracker::new();
    let mut run = RunState::new();
    let a = tracker.create_request(&mut run, 1, "u", 10, None);
    let b = tracker.create_request(&mut run, 2, "u", 20, None);
    tracker.update_state(&a, "connecting", 30);
    assert_eq!(tracker.get(&a).unwrap().state, "connecting");
    assert_eq!(tracker.get(&a).unwrap().start_time, 10);
    assert_eq!(tracker.get(&a).unwrap().last_update, 30);
    assert_eq!(tracker.get(&b).unwrap().state, "created");
    assert_eq!(tracker.get(&b).unwrap().last_update, 20);
}

#[test]
fn updating_an_unknown_request_changes_nothing() {
    let mut tracker = RequestTracker::new();
    let mut run = RunState::new();
    let a = tracker.create_request(&mut run, 1, "u", 10, None);
    tracker.update_state("REQ-1-1", "connecting", 30);
    assert_eq!(tracker.len(), 1);
    assert_eq!(tracker.get(&a).unwrap().state, "created");
    assert_eq!(tracker.get(&a).unwrap().last_update, 10);
}

#[test]
fn completing_removes_one_request() {
    let mut tracker = RequestTracker::new();
    let mut run = RunState::new();
    let a = tracker.create_request(&mut run, 1, "u", 10, None);
    let b = tracker.create_request(&mut run, 2, "u", 20, None);
    tracker.mark_completed(&a);
    assert!(tracker.get(&a).is_none());
    assert!(tracker.get(&b).is_some());
    tracker.mark_completed(&a);
    assert_eq!(tracker.len(), 1);
    tracker.mark_completed(&b);
    assert_eq!(tracker.len(), 0);
}
