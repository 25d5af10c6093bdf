use zero2prod::database::Database;
use zero2prod::delivery_queue::DeliveryQueue;
use zero2prod::idempotency::IdempotencyTable;
use zero2prod::idempotency_key::IdempotencyKey;

const HOUR: u64 = 3600;

#[test]
fn pruner_deletes_old_records_only() {
    let now = 100 * HOUR;
    let mut table = IdempotencyTable::new();
    let old = IdempotencyKey::try_from("old".to_string()).unwrap();
    let recent = IdempotencyKey::try_from("recent".to_string()).unwrap();
    table.try_insert(1, &old, now - 25 * HOUR);
    table.try_insert(1, &recent, now - HOUR);
    assert_eq!(table.prune(now), 1);
    assert_eq!(table.len(), 1);
    assert!(table.is_pending(1, &recent));
    assert!(!table.is_pending(1, &old));
}

#[test]
fn record_exactly_one_day_old_is_kept() {
    let now = 100 * HOUR;
    let mut table = IdempotencyTable::new();
    let key = IdempotencyKey::try_from("edge".to_string()).unwrap();
    table.try_insert(1, &key, now - 24 * HOUR);
    let mut db = Database::from_tables(table, Vec::new(), DeliveryQueue::new());
    assert_eq!(db.prune_idempotency_table(now), 0);
    assert_eq!(db.prune_idempotency_table(now + 1), 1);
    assert_eq!(db.idempotency().len(), 0);
}
