use axum::http::{HeaderMap, HeaderValue};
use runtime_hang::exchange::{Exchange, ExchangeAction, ExchangeEvent, ExchangeStep, Stage};
use runtime_hang::run_state::RunState;
use runtime_hang::tracker::RequestTracker;

struct World {
    tracker: RequestTracker,
    run: RunState,
    exchange: Exchange,
}

impl World {
    fn new() -> World {
        let mut tracker = RequestTracker::new();
        let mut run = RunState::new();
        let (exchange, line, wait) =
            Exchange::start(&mut tracker, &mut run, 102, "http://a", 5, 1, Some("task-1"));
        assert_eq!(line, "📤 REQ-102-0 started (timeout: 5s)");
        assert_eq!(wait, 2);
        assert_eq!(exchange.id(), "REQ-102-0");
        World { tracker, run, exchange }
    }

    fn step(&mut self, event: ExchangeEvent) -> ExchangeStep {
        self.exchange.advance(event, &mut self.tracker, &mut self.run, 2).unwrap()
    }

    fn state(&self) -> String {
        self.tracker.get("REQ-102-0").unwrap().state.clone()
    }
}

fn header(headers: &HeaderMap<HeaderValue>, name: &str) -> String {
    headers.get(name).unwrap().to_str().unwrap().to_string()
}

#[test]
fn a_started_request_waits_for_its_permit() {
    let world = World::new();
    assert_eq!(world.state(), "acquiring_permit");
    assert_eq!(world.exchange.stage(), Stage::AwaitingPermit);
}

#[test]
fn a_request_is_sent_with_its_headers() {
    let mut world = World::new();
    let step = world.step(ExchangeEvent::PermitAcquired);
    assert_eq!(step.line, "   REQ-102-0 acquired throttle permit");
    assert_eq!(world.state(), "connecting");
    match step.action {
        ExchangeAction::Send { headers, wait_secs } => {
            assert_eq!(wait_secs, 5);
            assert_eq!(headers.len(), 5);
            assert_eq!(header(&headers, "X-Request-Id"), "REQ-102-0");
            assert_eq!(header(&headers, "X-Task-Id"), "102");
            assert_eq!(header(&headers, "X-Phase"), "normal");
            assert_eq!(header(&headers, "User-Agent"), "hyper-tokio-test-agent/1.0");
            assert_eq!(header(&headers, "Connection"), "keep-alive");
        }
        _ => panic!("not sent"),
    }
}

#[test]
fn a_request_without_permit_is_sent_all_the_same() {
    let mut world = World::new();
    world.run.enter_post_drop_phase();
    let step = world.step(ExchangeEvent::PermitTimedOut);
    assert_eq!(step.line, "   REQ-102-0 failed to acquire throttle permit");
    assert_eq!(world.state(), "connecting");
    match step.action {
        ExchangeAction::Send { headers, .. } => {
            assert_eq!(header(&headers, "X-Phase"), "post-drop")
        }
        _ => panic!("not sent"),
    }
    assert!(!world.run.hang_detected());
}

#[test]
fn a_request_that_succeeds_is_no_longer_pending() {
    let mut world = World::new();
    world.step(ExchangeEvent::PermitAcquired);
    let step = world.step(ExchangeEvent::Responded("200 OK".to_string()));
    assert_eq!(step.line, "   REQ-102-0 got response: 200 OK");
    assert_eq!(world.state(), "reading_body");
    assert!(matches!(step.action, ExchangeAction::ReadBody { wait_secs: 5 }));
    let step = world.step(ExchangeEvent::BodyRead("Grüße".to_string()));
    assert_eq!(step.line, "📩 REQ-102-0 completed with body of 7 bytes");
    match step.action {
        ExchangeAction::Finish(result) => assert_eq!(result, Ok("Grüße".to_string())),
        _ => panic!("not finished"),
    }
    assert_eq!(world.tracker.len(), 0);
    assert!(!world.run.hang_detected());
    assert_eq!(world.exchange.stage(), Stage::Finished);
}

#[test]
fn a_request_that_fails_is_no_longer_pending() {
    let mut world = World::new();
    world.step(ExchangeEvent::PermitAcquired);
    let step = world.step(ExchangeEvent::SendFailed("refused".to_string()));
    assert_eq!(step.line, "❌ REQ-102-0 request error: refused");
    match step.action {
        ExchangeAction::Finish(result) => {
            assert_eq!(result, Err("Request error: refused".to_string()))
        }
        _ => panic!("not finished"),
    }
    assert_eq!(world.tracker.len(), 0);
    assert!(!world.run.hang_detected());
}

#[test]
fn a_body_that_fails_is_no_longer_pending() {
    let mut world = World::new();
    world.step(ExchangeEvent::PermitAcquired);
    world.step(ExchangeEvent::Responded("200 OK".to_string()));
    let step = world.step(ExchangeEvent::BodyFailed("cut off".to_string()));
    assert_eq!(step.line, "❌ REQ-102-0 body read error: cut off");
    match step.action {
        ExchangeAction::Finish(result) => {
            assert_eq!(result, Err("Body read error: cut off".to_string()))
        }
        _ => panic!("not finished"),
    }
    assert_eq!(world.tracker.len(), 0);
    assert!(!world.run.hang_detected());
}

#[test]
fn a_request_that_times_out_is_a_hang_and_stays_pending() {
    let mut world = World::new();
    world.step(ExchangeEvent::PermitAcquired);
    let step = world.step(ExchangeEvent::SendTimedOut);
    assert_eq!(step.line, "⏱️ REQ-102-0 request TIMED OUT");
    match step.action {
        ExchangeAction::Finish(result) => {
            assert_eq!(result, Err("HANG DETECTED: Request timed out".to_string()))
        }
        _ => panic!("not finished"),
    }
    assert_eq!(world.state(), "request_timeout");
    assert!(world.run.hang_detected());
}

#[test]
fn a_body_that_times_out_is_a_hang_and_stays_pending() {
    let mut world = World::new();
    world.step(ExchangeEvent::PermitAcquired);
    world.step(ExchangeEvent::Responded("200 OK".to_string()));
    let step = world.step(ExchangeEvent::BodyTimedOut);
    assert_eq!(step.line, "⏱️ REQ-102-0 body read TIMED OUT");
    match step.action {
        ExchangeAction::Finish(result) => {
            assert_eq!(result, Err("HANG DETECTED: Body read timed out".to_string()))
        }
        _ => panic!("not finished"),
    }
    assert_eq!(world.state(), "body_timeout");
    assert!(world.run.hang_detected());
}

#[test]
fn an_event_out_of_turn_changes_nothing() {
    let mut world = World::new();
    let out_of_turn = ExchangeEvent::BodyTimedOut;
    assert!(world.exchange.advance(out_of_turn, &mut world.tracker, &mut world.run, 9).is_none());
    assert_eq!(world.state(), "acquiring_permit");
    assert_eq!(world.exchange.stage(), Stage::AwaitingPermit);
    assert!(!world.run.hang_detected());

    world.step(ExchangeEvent::PermitAcquired);
    world.step(ExchangeEvent::SendTimedOut);
    let after_the_end = ExchangeEvent::PermitAcquired;
    assert!(world.exchange.advance(after_the_end, &mut world.tracker, &mut world.run, 9).is_none());
    assert_eq!(world.state(), "request_timeout");
}
