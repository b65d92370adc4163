use runtime_hang::post_drop::{
    additional_task_delay_ms, post_drop_task, record_join, sub_result_line, JoinOutcome,
    PostDropRun,
};
use runtime_hang::run_state::RunState;
use runtime_hang::tasks::{
    background_headers, background_step, completion_message, dropped_task_headers, requests_of_task,
    task_error_line, task_name, BackgroundEvent, ComplexWork, TaskRun, WorkQueue,
};

#[test]
fn a_task_makes_its_requests_in_order() {
    let mut queue = WorkQueue::new();
    let mut task = TaskRun::new(4, 2);

    let first = task.next_request(&mut queue).unwrap();
    assert_eq!(first.index, 0);
    assert_eq!(first.request_id, 400);
    assert_eq!(first.timeout_secs, 5);
    assert_eq!(first.work_item, "task-4-request-0");
    assert_eq!(first.work_timeout_secs, 5);
    assert_eq!(first.work_headers.len(), 2);
    assert_eq!(first.work_headers.get("X-Shared-Work").unwrap(), "task-4-request-0");
    assert_eq!(first.work_headers.get("X-Connection-Test").unwrap(), "keep-alive");
    assert_eq!(first.after.pause_ms(), 25);
    first.after.start(&mut queue);
    first.after.end(&mut queue);

    let second = task.next_request(&mut queue).unwrap();
    assert_eq!(second.index, 1);
    assert_eq!(second.request_id, 401);
    assert!(task.next_request(&mut queue).is_none());
    assert!(task.next_request(&mut queue).is_none());

    assert_eq!(queue.len(), 4);
    assert_eq!(queue.entry(0), "task-4-request-0");
    assert_eq!(queue.entry(1), "Work task-4-0: start");
    assert_eq!(queue.entry(2), "Work task-4-0: end");
    assert_eq!(queue.entry(3), "task-4-request-1");
}

#[test]
fn a_task_without_requests() {
    let mut queue = WorkQueue::new();
    let mut task = TaskRun::new(u32::MAX, 0);
    assert!(task.next_request(&mut queue).is_none());
    assert_eq!(queue.len(), 0);
}

#[test]
fn work_pauses_for_half_of_its_time() {
    assert_eq!(ComplexWork::new(51, "x").pause_ms(), 25);
    assert_eq!(ComplexWork::new(0, "x").pause_ms(), 0);
}

#[test]
fn names_and_messages_of_tasks() {
    assert_eq!(task_name(3), "task-3");
    assert_eq!(completion_message("task-3-request-1"), "completed:task-3-request-1");
    assert_eq!(task_error_line(3, 1, "late"), "Task 3 request 1 error: late");
    assert_eq!(background_headers().get("x-keep-connection").unwrap(), "true");
    assert_eq!(dropped_task_headers(3).get("X-Post-Drop").unwrap(), "task-3");
    let counts: Vec<usize> = vec![
        requests_of_task(1),
        requests_of_task(2),
        requests_of_task(3),
        requests_of_task(4),
        requests_of_task(5),
    ];
    assert_eq!(counts, vec![2, 3, 1, 2, 3]);
}

#[test]
fn tasks_after_the_drop() {
    let task = post_drop_task(0);
    assert_eq!(task.req_id, 500);
    assert_eq!(task.stagger_ms, 0);
    assert_eq!(task.sub_ids, vec![5000, 5001, 5002]);
    assert_eq!(task.pause_ms, Some(10));

    let task = post_drop_task(7);
    assert_eq!(task.req_id, 507);
    assert_eq!(task.stagger_ms, 50);
    assert_eq!(task.sub_ids, vec![5070, 5071, 5072]);
    assert_eq!(task.pause_ms, None);
}

#[test]
fn requests_after_the_drop_have_distinct_numbers() {
    let mut seen: Vec<u32> = vec![999];
    for i in 0..10 {
        for sub_id in post_drop_task(i).sub_ids {
            assert!(!seen.contains(&sub_id));
            seen.push(sub_id);
        }
    }
}

#[test]
fn results_after_the_drop() {
    assert_eq!(
        sub_result_line(5071, &Ok("body".to_string())),
        "Post-drop req 5071 succeeded with 4 bytes"
    );
    assert_eq!(
        sub_result_line(5071, &Err("late".to_string())),
        "Post-drop req 5071 failed: late"
    );
}

#[test]
fn a_task_that_does_not_end_is_a_hang() {
    let mut run = RunState::new();
    assert_eq!(record_join(&mut run, 0, JoinOutcome::Done), None);
    assert_eq!(
        record_join(&mut run, 3, JoinOutcome::Broken("panic".to_string())),
        Some("Post-drop task 3 join error: panic".to_string())
    );
    assert!(!run.hang_detected());
    assert_eq!(
        record_join(&mut run, 4, JoinOutcome::TimedOut),
        Some("⏱️ Post-drop task 4 timed out - HANG DETECTED".to_string())
    );
    assert!(run.hang_detected());
    record_join(&mut run, 5, JoinOutcome::Done);
    assert!(run.hang_detected());
}

#[test]
fn additional_tasks_wait() {
    assert_eq!(additional_task_delay_ms(0), 100);
    assert_eq!(additional_task_delay_ms(4), 300);
}

#[test]
fn a_background_connection_leaks_until_the_task_ends() {
    let mut run = RunState::new();
    let step = background_step(&mut run, 2, BackgroundEvent::Held);
    assert_eq!(step.line, None);
    assert_eq!(step.pause_ms, Some(100));
    assert_eq!(run.leaked_connections(), 1);
    let step = background_step(&mut run, 2, BackgroundEvent::Failed("refused".to_string()));
    assert_eq!(step.line, Some("Task 2 background task error: refused".to_string()));
    assert_eq!(step.pause_ms, Some(100));
    let step = background_step(&mut run, 2, BackgroundEvent::Cancelled);
    assert_eq!(
        step.line,
        Some("   Task 2 background task received cancellation, but ignoring it!".to_string())
    );
    assert_eq!(step.pause_ms, None);
    assert_eq!(run.leaked_connections(), 1);
}

#[test]
fn requests_of_tasks_have_distinct_numbers() {
    let mut seen: Vec<u32> = vec![];
    for task_id in 1..6 {
        let mut queue = WorkQueue::new();
        let mut task = TaskRun::new(task_id, requests_of_task(task_id));
        while let Some(request) = task.next_request(&mut queue) {
            assert!(!seen.contains(&request.request_id));
            seen.push(request.request_id);
        }
    }
    assert_eq!(seen.len(), 11);
}

#[test]
fn a_task_makes_its_requests_up_to_the_last_number() {
    let mut queue = WorkQueue::new();
    let mut task = TaskRun::new(42_949_672, 97);
    let mut last: u32 = 0;
    for _ in 0..96 {
        last = task.next_request(&mut queue).unwrap().request_id;
    }
    assert_eq!(last, u32::MAX);
    assert_eq!(queue.len(), 96);
}

#[test]
fn the_phase_hands_out_its_tasks_in_order() {
    let (mut phase, nested) = PostDropRun::start(3);
    assert_eq!(nested.request_id, 999);
    assert_eq!(nested.timeout_secs, 5);
    let mut numbers: Vec<u32> = vec![nested.request_id];
    let mut pauses: Vec<Option<u64>> = vec![];
    while let Some(task) = phase.next_task() {
        numbers.extend(task.sub_ids);
        pauses.push(task.pause_ms);
    }
    assert_eq!(numbers, vec![999, 5000, 5001, 5002, 5010, 5011, 5012, 5020, 5021, 5022]);
    assert_eq!(pauses, vec![Some(10), None, Some(10)]);
    assert!(phase.next_task().is_none());
}

#[test]
fn a_phase_without_tasks_hands_out_one_request() {
    let (mut phase, nested) = PostDropRun::start(0);
    assert_eq!(nested.request_id, 999);
    assert!(phase.next_task().is_none());
}
