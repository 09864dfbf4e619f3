use newsletter::queue_store::{QueueRecord, QueueStore, StoreError};

fn seeded(pool_size: usize, rows: &[(&str, u64)]) -> QueueStore {
    let mut store = QueueStore::new(pool_size);
    for (key, created_at) in rows {
        assert_eq!(store.insert(key.to_string(), *created_at), Ok(()));
    }
    store
}

fn keys_of(records: &[QueueRecord]) -> Vec<String> {
    records.iter().map(|r| r.key.clone()).collect()
}

#[test]
fn new_store_is_empty() {
    let store = QueueStore::new(3);
    assert_eq!(store.len(), 0);
    assert!(store.is_empty());
    assert!(!store.contains_key("a"));
    assert_eq!(store.records(), vec![]);
}

#[test]
fn insert_appends_in_order() {
    let store = seeded(1, &[("b", 7), ("a", 3)]);
    assert_eq!(store.len(), 2);
    assert!(!store.is_empty());
    assert!(store.contains_key("a"));
    assert!(store.contains_key("b"));
    assert!(!store.contains_key("c"));
    assert_eq!(
        store.records(),
        vec![
            QueueRecord { key: "b".to_string(), created_at: 7 },
            QueueRecord { key: "a".to_string(), created_at: 3 },
        ]
    );
}

#[test]
fn insert_refuses_a_key_that_is_taken() {
    let mut store = seeded(1, &[("a", 3)]);
    assert_eq!(store.insert("a".to_string(), 9), Err(StoreError::DuplicateKey));
    assert_eq!(store.records(), vec![QueueRecord { key: "a".to_string(), created_at: 3 }]);
}

#[test]
fn claim_takes_expired_records_in_table_order() {
    let mut store = seeded(2, &[("old1", 0), ("fresh", 95), ("old2", 10), ("old3", 20)]);
    let (handle, records) = store.claim_batch(50, 100, 2).unwrap();
    assert_eq!(
        records,
        vec![
            QueueRecord { key: "old1".to_string(), created_at: 0 },
            QueueRecord { key: "old2".to_string(), created_at: 10 },
        ]
    );
    assert_eq!(store.len(), 4);
    assert_eq!(store.rollback(handle), Ok(()));
}

#[test]
fn claim_with_limit_zero_takes_nothing() {
    let mut store = seeded(1, &[("old", 0)]);
    let (handle, records) = store.claim_batch(1, 100, 0).unwrap();
    assert_eq!(records, vec![]);
    assert_eq!(store.rollback(handle), Ok(()));
}

#[test]
fn record_is_not_claimed_before_its_age_exceeds_the_threshold() {
    let mut store = seeded(1, &[("k", 1000)]);
    let (handle, records) = store.claim_batch(60, 1059, 100).unwrap();
    assert_eq!(records, vec![]);
    store.rollback(handle).unwrap();
    let (handle, records) = store.claim_batch(60, 1060, 100).unwrap();
    assert_eq!(records, vec![]);
    store.rollback(handle).unwrap();
    let (handle, records) = store.claim_batch(60, 1061, 100).unwrap();
    assert_eq!(keys_of(&records), vec!["k".to_string()]);
    store.rollback(handle).unwrap();
}

#[test]
fn expiry_does_not_overflow_at_the_end_of_time() {
    let mut store = seeded(1, &[("late", u64::MAX - 1), ("early", 0)]);
    let (handle, records) = store.claim_batch(u64::MAX, u64::MAX, 100).unwrap();
    assert_eq!(records, vec![]);
    store.rollback(handle).unwrap();
    let (handle, records) = store.claim_batch(u64::MAX - 1, u64::MAX, 100).unwrap();
    assert_eq!(keys_of(&records), vec!["early".to_string()]);
    store.rollback(handle).unwrap();
    let (handle, records) = store.claim_batch(0, u64::MAX, 100).unwrap();
    assert_eq!(keys_of(&records), vec!["late".to_string(), "early".to_string()]);
    store.rollback(handle).unwrap();
}

#[test]
fn claim_skips_rows_held_by_an_open_transaction() {
    let mut store = seeded(2, &[("a", 0), ("b", 0), ("c", 0)]);
    let (first, first_records) = store.claim_batch(1, 100, 2).unwrap();
    let (second, second_records) = store.claim_batch(1, 100, 2).unwrap();
    assert_eq!(keys_of(&first_records), vec!["a".to_string(), "b".to_string()]);
    assert_eq!(keys_of(&second_records), vec!["c".to_string()]);
    store.rollback(first).unwrap();
    store.rollback(second).unwrap();
}

#[test]
fn concurrent_claims_never_share_a_key() {
    let rows: Vec<(String, u64)> = (0..25).map(|i| (format!("key-{i}"), 0)).collect();
    for (claims, limit) in [(3usize, 4usize), (4, 10), (5, 5), (1, 100)] {
        let mut store = QueueStore::new(claims);
        for (key, created_at) in &rows {
            store.insert(key.clone(), *created_at).unwrap();
        }
        let mut handles = Vec::new();
        let mut union: Vec<String> = Vec::new();
        for _ in 0..claims {
            let (handle, records) = store.claim_batch(1, 100, limit).unwrap();
            handles.push(handle);
            for key in keys_of(&records) {
                assert!(!union.contains(&key));
                union.push(key);
            }
        }
        assert_eq!(union.len(), std::cmp::min(rows.len(), claims * limit));
        for handle in handles {
            store.rollback(handle).unwrap();
        }
    }
}

#[test]
fn claim_fails_when_the_pool_is_exhausted() {
    let mut store = seeded(1, &[("a", 0)]);
    let (handle, _) = store.claim_batch(1, 100, 100).unwrap();
    assert_eq!(store.claim_batch(1, 100, 100).unwrap_err(), StoreError::PoolExhausted);
    store.rollback(handle).unwrap();
    let (handle, records) = store.claim_batch(1, 100, 100).unwrap();
    assert_eq!(keys_of(&records), vec!["a".to_string()]);
    store.commit(handle).unwrap();
    let mut none = QueueStore::new(0);
    assert_eq!(none.claim_batch(1, 100, 100).unwrap_err(), StoreError::PoolExhausted);
}

#[test]
fn deletion_takes_effect_at_commit() {
    let mut store = seeded(1, &[("a", 0), ("b", 0), ("c", 99)]);
    let (handle, records) = store.claim_batch(1, 100, 100).unwrap();
    assert_eq!(store.delete_keys(&handle, &keys_of(&records)), Ok(()));
    assert_eq!(store.len(), 3);
    assert_eq!(store.commit(handle), Ok(()));
    assert_eq!(store.records(), vec![QueueRecord { key: "c".to_string(), created_at: 99 }]);
}

#[test]
fn commit_without_deletion_frees_the_claimed_rows() {
    let mut store = seeded(1, &[("a", 0)]);
    let (handle, _) = store.claim_batch(1, 100, 100).unwrap();
    store.commit(handle).unwrap();
    assert_eq!(store.len(), 1);
    let (handle, records) = store.claim_batch(1, 100, 100).unwrap();
    assert_eq!(keys_of(&records), vec!["a".to_string()]);
    store.rollback(handle).unwrap();
}

#[test]
fn failure_before_commit_deletes_nothing() {
    let mut store = seeded(2, &[("a", 0), ("b", 0), ("c", 99)]);
    let before = store.records();
    let (handle, records) = store.claim_batch(1, 100, 100).unwrap();
    store.delete_keys(&handle, &keys_of(&records)).unwrap();
    assert_eq!(store.rollback(handle), Ok(()));
    assert_eq!(store.records(), before);
    let (handle, again) = store.claim_batch(1, 100, 100).unwrap();
    assert_eq!(again, records);
    store.rollback(handle).unwrap();
}

#[test]
fn delete_passes_over_unknown_keys_and_takes_free_rows() {
    let mut store = seeded(1, &[("a", 0), ("fresh", 99)]);
    let (handle, _) = store.claim_batch(1, 100, 0).unwrap();
    let keys = vec!["fresh".to_string(), "missing".to_string()];
    assert_eq!(store.delete_keys(&handle, &keys), Ok(()));
    store.commit(handle).unwrap();
    assert_eq!(store.records(), vec![QueueRecord { key: "a".to_string(), created_at: 0 }]);
}

#[test]
fn delete_is_refused_for_a_row_held_by_another_transaction() {
    let mut store = seeded(2, &[("a", 0), ("b", 0)]);
    let (first, first_records) = store.claim_batch(1, 100, 1).unwrap();
    let (second, _) = store.claim_batch(1, 100, 1).unwrap();
    assert_eq!(
        store.delete_keys(&second, &keys_of(&first_records)),
        Err(StoreError::RowLocked)
    );
    store.commit(second).unwrap();
    store.commit(first).unwrap();
    assert_eq!(store.len(), 2);
}

#[test]
fn a_handle_of_no_open_transaction_is_refused() {
    let mut other = seeded(2, &[]);
    let (_zero, _) = other.claim_batch(1, 100, 100).unwrap();
    let (one, _) = other.claim_batch(1, 100, 100).unwrap();
    let (one_more, _) = {
        let mut third = seeded(2, &[]);
        let _ = third.claim_batch(1, 100, 100).unwrap();
        third.claim_batch(1, 100, 100).unwrap()
    };
    let (last, _) = {
        let mut fourth = seeded(2, &[]);
        let _ = fourth.claim_batch(1, 100, 100).unwrap();
        fourth.claim_batch(1, 100, 100).unwrap()
    };
    let mut store = seeded(2, &[("a", 0)]);
    let (open, _) = store.claim_batch(1, 100, 100).unwrap();
    assert_eq!(
        store.delete_keys(&one, &vec!["a".to_string()]),
        Err(StoreError::UnknownTransaction)
    );
    assert_eq!(store.commit(one), Err(StoreError::UnknownTransaction));
    assert_eq!(store.rollback(one_more), Err(StoreError::UnknownTransaction));
    let mut small = seeded(1, &[]);
    assert_eq!(small.commit(last), Err(StoreError::UnknownTransaction));
    assert_eq!(store.len(), 1);
    store.rollback(open).unwrap();
}
