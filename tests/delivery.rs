use zero2prod::database::Database;
use zero2prod::delivery_queue::{DeliveryQueue, MAX_RETRIES};
use zero2prod::idempotency::IdempotencyTable;
use zero2prod::newsletter::FormData;
use zero2prod::response::SavedResponse;
use zero2prod::worker::{next_poll_delay, ExecutionOutcome, TaskStep, WorkerError};

fn db_with_one_task(email: &str, now: u64) -> Database {
    let mut db = Database::new();
    let form = FormData {
        title: "Subject".to_string(),
        text_content: "text".to_string(),
        html_content: "<b>html</b>".to_string(),
        idempotency_key: "key".to_string(),
    };
    let response = SavedResponse::new(200, vec![], vec![]).unwrap();
    db.publish_newsletter(9, &form, &vec![email.to_string()], 77, now, response).unwrap();
    db
}

#[test]
fn empty_queue_is_reported() {
    let mut db = Database::new();
    let step = db.start_task(0).unwrap();
    assert!(matches!(step, TaskStep::Empty));
    assert_eq!(step.outcome(), ExecutionOutcome::EmptyQueue);
}

#[test]
fn delivery_carries_the_issue_content() {
    let mut db = db_with_one_task("reader@example.com", 100);
    let step = db.start_task(100).unwrap();
    assert_eq!(step.outcome(), ExecutionOutcome::TaskCompleted);
    let d = match step {
        TaskStep::Deliver(d) => d,
        other => panic!("unexpected step {other:?}"),
    };
    assert_eq!(d.recipient.as_str(), "reader@example.com");
    assert_eq!(d.subject, "Subject");
    assert_eq!(d.html_body, "<b>html</b>");
    assert_eq!(d.text_body, "text");
    assert!(db.queue().get(0).is_claimed());
    assert_eq!(db.finish_task(&d.claim, true, 101), ExecutionOutcome::TaskCompleted);
    assert_eq!(db.queue().len(), 0);
}

#[test]
fn malformed_address_is_dropped() {
    let mut db = db_with_one_task("not-an-address", 100);
    let step = db.start_task(100).unwrap();
    assert!(matches!(step, TaskStep::Dropped(_)));
    assert_eq!(step.outcome(), ExecutionOutcome::TaskCompleted);
    assert_eq!(db.queue().len(), 0);
}

#[test]
fn task_of_a_missing_issue_is_released() {
    let mut queue = DeliveryQueue::new();
    queue.enqueue(5, "reader@example.com".to_string(), 0);
    let mut db = Database::from_tables(IdempotencyTable::new(), Vec::new(), queue);
    let r = db.start_task(10);
    assert!(matches!(r, Err(WorkerError::IssueNotFound(_))));
    let outcome = r.map(|step| step.outcome());
    assert_eq!(next_poll_delay(&outcome), 1);
    assert!(!db.queue().get(0).is_claimed());
}

#[test]
fn task_not_yet_due_is_not_claimed() {
    let mut db = db_with_one_task("reader@example.com", 100);
    assert!(matches!(db.start_task(99).unwrap(), TaskStep::Empty));
}

#[test]
fn backoff_grows_quadratically() {
    let mut db = db_with_one_task("reader@example.com", 1000);
    let mut now = 1000;
    let mut previous = db.queue().get(0).execute_after();
    for r in 1..=MAX_RETRIES as u64 {
        let d = match db.start_task(now).unwrap() {
            TaskStep::Deliver(d) => d,
            other => panic!("unexpected step {other:?}"),
        };
        db.finish_task(&d.claim, false, now);
        let t = db.queue().get(0);
        assert_eq!(t.n_retries() as u64, r);
        assert_eq!(t.execute_after(), now + r * r);
        assert!(t.execute_after() > previous);
        previous = t.execute_after();
        now = t.execute_after();
    }
}

#[test]
fn retries_run_out() {
    let mut db = db_with_one_task("reader@example.com", 0);
    let mut now = 0;
    let mut failures = 0;
    while db.queue().len() > 0 {
        let d = match db.start_task(now).unwrap() {
            TaskStep::Deliver(d) => d,
            other => panic!("unexpected step {other:?}"),
        };
        db.finish_task(&d.claim, false, now);
        failures += 1;
        if db.queue().len() > 0 {
            now = db.queue().get(0).execute_after();
        }
    }
    assert_eq!(failures, MAX_RETRIES as u32 + 2);
    assert!(matches!(db.start_task(now + 1000).unwrap(), TaskStep::Empty));
}

#[test]
fn second_worker_finds_the_task_claimed() {
    let mut queue = DeliveryQueue::new();
    queue.enqueue(1, "a@x.com".to_string(), 50);
    let first = queue.dequeue_task(60);
    let second = queue.dequeue_task(60);
    assert!(first.is_some());
    assert!(second.is_none());
    let claim = first.unwrap();
    queue.release_task(&claim);
    assert!(queue.dequeue_task(60).is_some());
}

#[test]
fn poll_delays() {
    assert_eq!(next_poll_delay(&Ok(ExecutionOutcome::TaskCompleted)), 0);
    assert_eq!(next_poll_delay(&Ok(ExecutionOutcome::EmptyQueue)), 10);
}
