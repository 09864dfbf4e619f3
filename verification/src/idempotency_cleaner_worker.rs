//! The rules of the cleaner worker: one poll claims a batch of expired
//! idempotency records and deletes it in one transaction.
//!
//! [`keys_to_delete`] is the decision that the service's worker takes on each
//! batch it has claimed from its database. [`delete_expired_idempotent_entries`]
//! is the whole poll, played on the reference model of the store: it states
//! and proves what a poll does to the table.

use crate::queue_laws::{
    least, lemma_claim_delete_commit, lemma_rollback_restores, lemma_without_claimed_claimable,
    lemma_without_claimed_len, lemma_without_no_keys,
};
use crate::queue_store::{
    key_views, record_keys, record_views, QueueRecord, QueueStore, StoreError,
};
use vstd::prelude::*;

verus! {

/// What one poll of a queue found.
#[derive(Clone, Copy, Debug, PartialEq, Eq, Structural)]
pub enum IdempotentExecutionOutcome {
    /// Work was found and processed; more may be waiting.
    TaskCompleted,
    /// No eligible row was found.
    EmptyTable,
}

/// The most records that one poll claims.
pub const BATCH_LIMIT: usize = 100;

/// The wait after a poll that found nothing, unless configured otherwise.
pub const DEFAULT_IDLE_INTERVAL: u64 = 10;

/// The wait after a poll that failed, unless configured otherwise.
pub const DEFAULT_ERROR_INTERVAL: u64 = 1;

/// The keys to delete for a claimed batch, in the order of the batch; `None`
/// for an empty batch, for which no deletion is to be issued at all.
pub fn keys_to_delete(records: &Vec<QueueRecord>) -> (r: Option<Vec<String>>)
    ensures
        r is None <==> records@.len() == 0,
        r matches Some(keys) ==> key_views(keys@) == record_keys(record_views(records@)),
{
    if records.len() == 0 {
        return None;
    }
    let mut keys: Vec<String> = Vec::new();
    let mut i: usize = 0;
    while i < records.len()
        invariant
            i <= records@.len(),
            keys@.len() == i,
            forall|j: int| 0 <= j < i ==> keys@[j]@ == records@[j].key@,
        decreases records@.len() - i,
    {
        keys.push(records[i].key.clone());
        i += 1;
    }
    proof {
        assert(key_views(keys@) =~= record_keys(record_views(records@)));
    }
    Some(keys)
}

/// One poll of the cleaner, on the reference model of the store: claims up to
/// [`BATCH_LIMIT`] records whose age exceeds `time_interval` at time `now`,
/// deletes them and commits.
///
/// The poll removes exactly the claimed records and leaves no lock and no
/// open transaction behind. It reports `EmptyTable`, and changes nothing, where
/// no record could be claimed; it fails, and changes nothing, where the pool
/// has no free connection.
pub fn delete_expired_idempotent_entries(
    store: &mut QueueStore,
    time_interval: u64,
    now: u64,
) -> (r: Result<IdempotentExecutionOutcome, StoreError>)
    requires
        old(store).wf(),
    ensures
        final(store).wf(),
        match r {
            Ok(outcome) => {
                &&& old(store)@.has_free_slot()
                &&& final(store)@ == old(store)@.without_keys(
                    record_keys(old(store)@.claimed(time_interval, now, BATCH_LIMIT as nat)),
                )
                &&& final(store)@.rows.len() == old(store)@.rows.len() - least(
                    BATCH_LIMIT as nat,
                    old(store)@.claimable_count(time_interval, now),
                )
                &&& final(store)@.claimable_count(time_interval, now) == old(
                    store,
                )@.claimable_count(time_interval, now) - least(
                    BATCH_LIMIT as nat,
                    old(store)@.claimable_count(time_interval, now),
                )
                &&& outcome == if old(store)@.claimable_count(time_interval, now) == 0 {
                    IdempotentExecutionOutcome::EmptyTable
                } else {
                    IdempotentExecutionOutcome::TaskCompleted
                }
                &&& outcome == IdempotentExecutionOutcome::EmptyTable ==> final(store)@ == old(
                    store,
                )@
            },
            Err(e) => {
                &&& e == StoreError::PoolExhausted
                &&& !old(store)@.has_free_slot()
                &&& final(store)@ == old(store)@
            },
        },
{
    let ghost before = store@;
    let (handle, records) = match store.claim_batch(time_interval, now, BATCH_LIMIT) {
        Ok(claimed) => claimed,
        Err(e) => {
            return Err(e);
        },
    };
    let ghost slot = handle.slot();
    let ghost keys_claimed = record_keys(before.claimed(time_interval, now, BATCH_LIMIT as nat));
    proof {
        lemma_claim_delete_commit(before, slot, time_interval, now, BATCH_LIMIT as nat);
        lemma_rollback_restores(
            before,
            slot,
            time_interval,
            now,
            BATCH_LIMIT as nat,
            keys_claimed,
        );
        lemma_without_claimed_len(before, time_interval, now, BATCH_LIMIT as nat);
        lemma_without_claimed_claimable(before, time_interval, now, BATCH_LIMIT as nat);
        assert(before.has_free_slot());
    }
    match keys_to_delete(&records) {
        None => {
            proof {
                assert(keys_claimed =~= Seq::<Seq<char>>::empty());
                lemma_without_no_keys(before);
            }
            match store.rollback(handle) {
                Ok(()) => Ok(IdempotentExecutionOutcome::EmptyTable),
                Err(e) => Err(e),
            }
        },
        Some(keys) => {
            match store.delete_keys(&handle, &keys) {
                Ok(()) => match store.commit(handle) {
                    Ok(()) => Ok(IdempotentExecutionOutcome::TaskCompleted),
                    Err(e) => Err(e),
                },
                Err(e) => {
                    let _ = store.rollback(handle);
                    Err(e)
                },
            }
        },
    }
}

} // verus!
