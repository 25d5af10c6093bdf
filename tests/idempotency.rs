use zero2prod::database::Database;
use zero2prod::idempotency::{IdempotencyTable, SavedResponseError};
use zero2prod::idempotency_key::{IdempotencyKey, KeyError};
use zero2prod::newsletter::{enqueue_delivery_tasks, insert_newsletter_issue, FormData, NextAction, PublishError};
use zero2prod::response::{HeaderPair, ResponseError, SavedResponse};

fn header(name: &str, value: &[u8]) -> HeaderPair {
    HeaderPair { name: name.to_string(), value: value.to_vec() }
}

fn redirect_response() -> SavedResponse {
    SavedResponse::new(
        303,
        vec![
            header("location", b"/admin/newsletters"),
            header("set-cookie", b"a=1"),
            header("set-cookie", b"b=2"),
        ],
        b"accepted".to_vec(),
    )
    .unwrap()
}

#[test]
fn empty_key_is_rejected() {
    assert_eq!(IdempotencyKey::try_from(String::new()).unwrap_err(), KeyError::Empty);
}

#[test]
fn key_of_fifty_characters_is_rejected() {
    let key = "k".repeat(50);
    assert_eq!(IdempotencyKey::try_from(key).unwrap_err(), KeyError::TooLong);
}

#[test]
fn key_of_forty_nine_characters_is_accepted() {
    let key = "k".repeat(49);
    let k = IdempotencyKey::try_from(key.clone()).unwrap();
    assert_eq!(k.as_str(), key);
    assert_eq!(k.into_string(), key);
}

#[test]
fn key_length_counts_characters() {
    let key = "é".repeat(30);
    assert!(IdempotencyKey::try_from(key).is_ok());
}

#[test]
fn status_code_out_of_range_is_rejected() {
    assert_eq!(SavedResponse::new(99, vec![], vec![]).unwrap_err(), ResponseError::InvalidStatusCode);
    assert_eq!(SavedResponse::new(1000, vec![], vec![]).unwrap_err(), ResponseError::InvalidStatusCode);
    assert!(SavedResponse::new(100, vec![], vec![]).is_ok());
    assert!(SavedResponse::new(999, vec![], vec![]).is_ok());
}

#[test]
fn bad_header_is_rejected() {
    let bad_value = SavedResponse::new(200, vec![header("x-a", b"line\nbreak")], vec![]);
    assert_eq!(bad_value.unwrap_err(), ResponseError::InvalidHeader);
    let bad_name = SavedResponse::new(200, vec![header("bad name", b"v")], vec![]);
    assert_eq!(bad_name.unwrap_err(), ResponseError::InvalidHeader);
    let empty_name = SavedResponse::new(200, vec![header("", b"v")], vec![]);
    assert_eq!(empty_name.unwrap_err(), ResponseError::InvalidHeader);
    let tab = SavedResponse::new(200, vec![header("x-a", b"a\tb")], vec![]);
    assert!(tab.is_ok());
}

#[test]
fn saved_response_keeps_its_parts() {
    let r = redirect_response();
    assert_eq!(r.status(), 303);
    assert_eq!(r.headers().len(), 3);
    assert_eq!(r.headers()[2].value, b"b=2".to_vec());
    assert_eq!(r.body(), &b"accepted".to_vec());
}

#[test]
fn table_inserts_once_per_user_and_key() {
    let mut table = IdempotencyTable::new();
    let key = IdempotencyKey::try_from("abc".to_string()).unwrap();
    assert!(table.try_insert(1, &key, 10));
    assert!(!table.try_insert(1, &key, 11));
    assert!(table.try_insert(2, &key, 12));
    assert_eq!(table.len(), 2);
    assert!(table.is_pending(1, &key));
    assert_eq!(table.get_saved_response(1, &key).unwrap_err(), SavedResponseError::MissingResponse);
    let absent = IdempotencyKey::try_from("absent".to_string()).unwrap();
    assert!(table.get_saved_response(1, &absent).unwrap().is_none());
    assert!(table.complete(1, &key, redirect_response()));
    assert!(!table.is_pending(1, &key));
    assert!(!table.complete(1, &key, redirect_response()));
    assert_eq!(table.get_saved_response(1, &key).unwrap().unwrap().status(), 303);
}

#[test]
fn round_trip_replays_the_saved_response() {
    let mut db = Database::new();
    let key = IdempotencyKey::try_from("round-trip".to_string()).unwrap();
    let mut txn = match db.try_processing(&key, 7, 1000).unwrap() {
        NextAction::StartProcessing(t) => t,
        NextAction::ReturnSavedResponse(_) => panic!("fresh key replayed"),
    };
    let form = FormData {
        title: "t".to_string(),
        text_content: "x".to_string(),
        html_content: "<p>x</p>".to_string(),
        idempotency_key: "round-trip".to_string(),
    };
    assert_eq!(insert_newsletter_issue(&db, &mut txn, &form, 42).unwrap(), 42);
    enqueue_delivery_tasks(&mut txn, &vec!["a@x.com".to_string()]);
    let saved = db.save_response(txn, redirect_response()).unwrap();
    assert_eq!(saved.status(), 303);
    let replay = match db.try_processing(&key, 7, 2000).unwrap() {
        NextAction::ReturnSavedResponse(r) => r,
        NextAction::StartProcessing(_) => panic!("completed key processed again"),
    };
    let expected = redirect_response();
    assert_eq!(replay.status(), expected.status());
    assert_eq!(replay.body(), expected.body());
    let names: Vec<&str> = replay.headers().iter().map(|h| h.name.as_str()).collect();
    assert_eq!(names, vec!["location", "set-cookie", "set-cookie"]);
    let values: Vec<&[u8]> = replay.headers().iter().map(|h| h.value.as_slice()).collect();
    assert_eq!(values, vec![&b"/admin/newsletters"[..], &b"a=1"[..], &b"b=2"[..]]);
    assert_eq!(db.issues().len(), 1);
    assert_eq!(db.queue().len(), 1);
}

#[test]
fn pending_record_is_an_error() {
    let mut db = Database::new();
    let key = IdempotencyKey::try_from("stuck".to_string()).unwrap();
    assert!(matches!(db.try_processing(&key, 3, 5), Ok(NextAction::StartProcessing(_))));
    assert!(matches!(db.try_processing(&key, 3, 6), Err(PublishError::MissingResponse)));
}

#[test]
fn issue_id_in_use_is_refused() {
    let mut db = Database::new();
    let form = FormData {
        title: "t".to_string(),
        text_content: "x".to_string(),
        html_content: "<p>x</p>".to_string(),
        idempotency_key: "first".to_string(),
    };
    let first = IdempotencyKey::try_from("first".to_string()).unwrap();
    let mut txn = match db.try_processing(&first, 7, 10).unwrap() {
        NextAction::StartProcessing(t) => t,
        NextAction::ReturnSavedResponse(_) => panic!("fresh key replayed"),
    };
    insert_newsletter_issue(&db, &mut txn, &form, 5).unwrap();
    db.save_response(txn, redirect_response()).unwrap();
    let second = IdempotencyKey::try_from("second".to_string()).unwrap();
    let mut txn = match db.try_processing(&second, 7, 20).unwrap() {
        NextAction::StartProcessing(t) => t,
        NextAction::ReturnSavedResponse(_) => panic!("fresh key replayed"),
    };
    assert_eq!(insert_newsletter_issue(&db, &mut txn, &form, 5).unwrap_err(), PublishError::Conflict);
    assert_eq!(insert_newsletter_issue(&db, &mut txn, &form, 6).unwrap(), 6);
}
