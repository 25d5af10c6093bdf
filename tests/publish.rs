use zero2prod::database::Database;
use zero2prod::idempotency_key::KeyError;
use zero2prod::newsletter::{FormData, PublishError};
use zero2prod::response::{HeaderPair, SavedResponse};

const U1: u128 = 0x1111;

fn form(key: &str) -> FormData {
    FormData {
        title: "Issue #1".to_string(),
        text_content: "Hello".to_string(),
        html_content: "<p>Hello</p>".to_string(),
        idempotency_key: key.to_string(),
    }
}

fn response(body: &str) -> SavedResponse {
    SavedResponse::new(
        303,
        vec![HeaderPair { name: "location".to_string(), value: b"/admin/newsletters".to_vec() }],
        body.as_bytes().to_vec(),
    )
    .unwrap()
}

fn subscribers() -> Vec<String> {
    vec!["a@x".to_string(), "b@x".to_string(), "c@x".to_string()]
}

#[test]
fn publish_twice_with_the_same_key_replays() {
    let mut db = Database::new();
    let first = db.publish_newsletter(U1, &form("abc123"), &subscribers(), 1, 100, response("R")).unwrap();
    assert_eq!(db.issues().len(), 1);
    assert_eq!(db.queue().len(), 3);
    assert_eq!(db.idempotency().len(), 1);
    let second = db.publish_newsletter(U1, &form("abc123"), &subscribers(), 2, 200, response("other")).unwrap();
    assert_eq!(db.issues().len(), 1);
    assert_eq!(db.queue().len(), 3);
    assert_eq!(second.status(), first.status());
    assert_eq!(second.body(), first.body());
    assert_eq!(second.body(), &b"R".to_vec());
    assert_eq!(second.headers().len(), first.headers().len());
    assert_eq!(second.headers()[0].name, first.headers()[0].name);
    assert_eq!(second.headers()[0].value, first.headers()[0].value);
}

#[test]
fn many_submissions_create_one_issue() {
    let mut db = Database::new();
    let mut bodies = Vec::new();
    for attempt in 0..5u128 {
        let r = db
            .publish_newsletter(U1, &form("same-key"), &subscribers(), 10 + attempt, 100 + attempt as u64, response(&format!("body {attempt}")))
            .unwrap();
        bodies.push(r.body().clone());
    }
    assert!(bodies.iter().all(|b| b == &b"body 0".to_vec()));
    assert_eq!(db.issues().len(), 1);
    assert_eq!(db.queue().len(), 3);
}

#[test]
fn another_user_with_the_same_key_publishes_again() {
    let mut db = Database::new();
    db.publish_newsletter(U1, &form("k"), &subscribers(), 1, 100, response("R1")).unwrap();
    let r = db.publish_newsletter(U1 + 1, &form("k"), &subscribers(), 2, 100, response("R2")).unwrap();
    assert_eq!(r.body(), &b"R2".to_vec());
    assert_eq!(db.issues().len(), 2);
    assert_eq!(db.queue().len(), 6);
}

#[test]
fn fan_out_creates_one_fresh_task_per_subscriber() {
    let mut db = Database::new();
    let emails: Vec<String> = (0..7).map(|i| format!("s{i}@example.com")).collect();
    db.publish_newsletter(U1, &form("fan"), &emails, 99, 5000, response("ok")).unwrap();
    assert_eq!(db.queue().len(), 7);
    for (i, email) in emails.iter().enumerate() {
        let t = db.queue().get(i);
        assert_eq!(t.issue_id(), 99);
        assert_eq!(t.email(), email);
        assert_eq!(t.n_retries(), 0);
        assert!(t.execute_after() <= 5000);
        assert!(!t.is_claimed());
    }
    let issue = db.get_issue(99).unwrap();
    assert_eq!(issue.title(), "Issue #1");
    assert_eq!(issue.text_content(), "Hello");
    assert_eq!(issue.html_content(), "<p>Hello</p>");
}

#[test]
fn no_subscribers_creates_no_task() {
    let mut db = Database::new();
    db.publish_newsletter(U1, &form("none"), &Vec::new(), 5, 10, response("ok")).unwrap();
    assert_eq!(db.issues().len(), 1);
    assert_eq!(db.queue().len(), 0);
}

#[test]
fn invalid_keys_write_nothing() {
    let mut db = Database::new();
    let r = db.publish_newsletter(U1, &form(""), &subscribers(), 1, 1, response("x"));
    assert_eq!(r.unwrap_err(), PublishError::InvalidKey(KeyError::Empty));
    let long = "x".repeat(60);
    let r = db.publish_newsletter(U1, &form(&long), &subscribers(), 1, 1, response("x"));
    assert_eq!(r.unwrap_err(), PublishError::InvalidKey(KeyError::TooLong));
    assert_eq!(db.idempotency().len(), 0);
    assert_eq!(db.issues().len(), 0);
    assert_eq!(PublishError::InvalidKey(KeyError::Empty).status_code(), 400);
    assert_eq!(PublishError::Conflict.status_code(), 500);
}

#[test]
fn duplicate_subscriber_aborts_and_leaves_a_pending_row() {
    let mut db = Database::new();
    let dup = vec!["a@x".to_string(), "a@x".to_string()];
    let r = db.publish_newsletter(U1, &form("dup"), &dup, 1, 1, response("x"));
    assert_eq!(r.unwrap_err(), PublishError::Conflict);
    assert_eq!(db.issues().len(), 0);
    assert_eq!(db.queue().len(), 0);
    assert_eq!(db.idempotency().len(), 1);
    let again = db.publish_newsletter(U1, &form("dup"), &subscribers(), 2, 2, response("x"));
    assert_eq!(again.unwrap_err(), PublishError::MissingResponse);
}

#[test]
fn taken_issue_id_aborts() {
    let mut db = Database::new();
    db.publish_newsletter(U1, &form("one"), &subscribers(), 8, 1, response("x")).unwrap();
    let r = db.publish_newsletter(U1, &form("two"), &subscribers(), 8, 2, response("y"));
    assert_eq!(r.unwrap_err(), PublishError::Conflict);
    assert_eq!(db.issues().len(), 1);
    assert_eq!(db.queue().len(), 3);
}

#[test]
fn publish_draws_distinct_issue_ids() {
    let mut db = Database::new();
    db.publish(U1, &form("p1"), &subscribers(), 1, response("a")).unwrap();
    db.publish(U1, &form("p2"), &subscribers(), 2, response("b")).unwrap();
    assert_eq!(db.issues().len(), 2);
    assert_ne!(db.issues()[0].issue_id(), db.issues()[1].issue_id());
    assert_eq!(db.queue().len(), 6);
}
