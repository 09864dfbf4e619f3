//! What holds of the queue store whatever its contents: claims never overlap,
//! a rollback undoes everything, and a record is claimed by its age alone.

use crate::queue_store::{
    claimable_pred, expired, lemma_claim_wf, lemma_claimed_step, lemma_filter_all, record_keys, release_fn, survives_pred, unlisted_pred,
    RecordModel, RowModel, StoreModel,
};
use vstd::prelude::*;

verus! {

/// The smaller of two counts.
pub open spec fn least(a: nat, b: nat) -> nat {
    if a <= b {
        a
    } else {
        b
    }
}

/// A batch claims as many records as can be claimed, up to its limit.
pub proof fn lemma_claimed_len(m: StoreModel, threshold: u64, now: u64, limit: nat)
    ensures
        m.claimed(threshold, now, limit).len() == least(
            limit,
            m.claimable_count(threshold, now),
        ),
{
}

/// `record` is the record of a row among the first `n` that the batch claims.
pub open spec fn claimed_among(
    m: StoreModel,
    record: RecordModel,
    n: int,
    threshold: u64,
    now: u64,
    limit: nat,
) -> bool {
    exists|i: int|
        0 <= i < n && #[trigger] m.claims(i, threshold, now, limit) && m.rows[i].record()
            == record
}

/// The records that a batch claims among the first `n` rows are the records
/// of the rows that it claims there.
pub proof fn lemma_claimed_rows(m: StoreModel, n: int, threshold: u64, now: u64, limit: nat)
    requires
        0 <= n <= m.rows.len(),
    ensures
        forall|j: int|
            0 <= j < m.prefix(n).claimed(threshold, now, limit).len() ==> claimed_among(
                m,
                #[trigger] m.prefix(n).claimed(threshold, now, limit)[j],
                n,
                threshold,
                now,
                limit,
            ),
        forall|i: int|
            0 <= i < n && #[trigger] m.claims(i, threshold, now, limit) ==> m.prefix(n).claimed(
                threshold,
                now,
                limit,
            ).contains(m.rows[i].record()),
    decreases n,
{
    if n == 0 {
        assert(m.prefix(0).rows =~= Seq::<RowModel>::empty());
    } else {
        lemma_claimed_rows(m, n - 1, threshold, now, limit);
        lemma_claimed_step(m, n - 1, threshold, now, limit);
        let shorter = m.prefix(n - 1).claimed(threshold, now, limit);
        let longer = m.prefix(n).claimed(threshold, now, limit);
        assert forall|j: int| 0 <= j < longer.len() implies claimed_among(
            m,
            #[trigger] longer[j],
            n,
            threshold,
            now,
            limit,
        ) by {
            if j < shorter.len() {
                assert(longer[j] == shorter[j]);
                assert(claimed_among(m, shorter[j], n - 1, threshold, now, limit));
                let i = choose|i: int|
                    0 <= i < n - 1 && #[trigger] m.claims(i, threshold, now, limit)
                        && m.rows[i].record() == shorter[j];
                assert(m.claims(i, threshold, now, limit));
            } else {
                assert(m.claims(n - 1, threshold, now, limit));
            }
        }
        assert forall|i: int|
            0 <= i < n && #[trigger] m.claims(i, threshold, now, limit) implies longer.contains(
            m.rows[i].record(),
        ) by {
            if i < n - 1 {
                assert(shorter.contains(m.rows[i].record()));
                let j = choose|j: int| 0 <= j < shorter.len() && shorter[j] == m.rows[i].record();
                assert(longer[j] == m.rows[i].record());
            } else {
                assert(longer[longer.len() - 1] == m.rows[i].record());
            }
        }
    }
}

/// In a consistent store a row's key is among the claimed keys exactly when
/// the batch claims that row.
pub proof fn lemma_claimed_keys(m: StoreModel, threshold: u64, now: u64, limit: nat)
    requires
        m.wf(),
    ensures
        forall|i: int|
            0 <= i < m.rows.len() ==> (record_keys(m.claimed(threshold, now, limit)).contains(
                #[trigger] m.rows[i].key,
            ) <==> m.claims(i, threshold, now, limit)),
{
    let n = m.rows.len() as int;
    assert(m.prefix(n).rows =~= m.rows);
    assert(m.prefix(n) == m);
    lemma_claimed_rows(m, n, threshold, now, limit);
    let claimed = m.claimed(threshold, now, limit);
    let keys = record_keys(claimed);
    assert forall|i: int| 0 <= i < m.rows.len() implies (keys.contains(#[trigger] m.rows[i].key)
        <==> m.claims(i, threshold, now, limit)) by {
        if keys.contains(m.rows[i].key) {
            let j = choose|j: int| 0 <= j < keys.len() && keys[j] == m.rows[i].key;
            assert(keys[j] == claimed[j].key);
            assert(claimed_among(m, claimed[j], n, threshold, now, limit));
            let w = choose|w: int|
                0 <= w < n && #[trigger] m.claims(w, threshold, now, limit) && m.rows[w].record()
                    == claimed[j];
            assert(m.rows[w].key == m.rows[i].key);
            assert(w == i);
        }
        if m.claims(i, threshold, now, limit) {
            assert(claimed.contains(m.rows[i].record()));
            let j = choose|j: int| 0 <= j < claimed.len() && claimed[j] == m.rows[i].record();
            assert(keys[j] == m.rows[i].key);
        }
    }
}

/// Two tables of one length, row by row either both dropped by their filter
/// or both kept and then alike, are filtered to the same table.
proof fn lemma_filter_related(
    a: Seq<RowModel>,
    b: Seq<RowModel>,
    p: spec_fn(RowModel) -> bool,
    q: spec_fn(RowModel) -> bool,
    f: spec_fn(RowModel) -> RowModel,
)
    requires
        a.len() == b.len(),
        forall|i: int| 0 <= i < a.len() ==> p(a[i]) == q(b[i]),
        forall|i: int| 0 <= i < a.len() && p(a[i]) ==> f(a[i]) == b[i],
    ensures
        a.filter(p).map_values(f) == b.filter(q),
    decreases a.len(),
{
    reveal(Seq::filter);
    if a.len() > 0 {
        lemma_filter_related(a.drop_last(), b.drop_last(), p, q, f);
        let kept = a.drop_last().filter(p);
        if p(a.last()) {
            assert(kept.push(a.last()).map_values(f) =~= kept.map_values(f).push(f(a.last())));
        }
    } else {
        assert(a.filter(p).map_values(f) =~= b.filter(q));
    }
}

/// A connection is free: it belongs to the pool and no transaction is open on it.
pub open spec fn free(m: StoreModel, slot: usize) -> bool {
    slot < m.slots.len() && !m.slots[slot as int]
}

/// In a consistent store no row is held through a free connection.
proof fn lemma_free_holds_nothing(m: StoreModel, slot: usize)
    requires
        m.wf(),
        free(m, slot),
    ensures
        forall|i: int| 0 <= i < m.rows.len() ==> !(#[trigger] m.rows[i]).held_by(slot),
{
    assert forall|i: int| 0 <= i < m.rows.len() implies !(#[trigger] m.rows[i]).held_by(slot) by {
        let row = m.rows[i];
        assert(match row.holder {
            Some(h) => m.is_open(h),
            None => !row.doomed,
        });
    }
}

/// Claiming a batch, deleting the claimed keys and committing removes exactly
/// the claimed records: nothing else in the table changes, no lock is left
/// behind, and the connection is free again. The deletion is never refused.
pub proof fn lemma_claim_delete_commit(
    m: StoreModel,
    slot: usize,
    threshold: u64,
    now: u64,
    limit: nat,
)
    requires
        m.wf(),
        free(m, slot),
    ensures
        ({
            let keys = record_keys(m.claimed(threshold, now, limit));
            let claimed = m.claim(slot, threshold, now, limit);
            &&& claimed.is_open(slot)
            &&& !claimed.blocked(slot, keys)
            &&& claimed.delete_keys(slot, keys).commit(slot) == m.without_keys(keys)
        }),
{
    let keys = record_keys(m.claimed(threshold, now, limit));
    let claimed = m.claim(slot, threshold, now, limit);
    let deleted = claimed.delete_keys(slot, keys);
    lemma_claimed_keys(m, threshold, now, limit);
    lemma_free_holds_nothing(m, slot);
    assert(!claimed.blocked(slot, keys)) by {
        if claimed.blocked(slot, keys) {
            let i = choose|i: int|
                0 <= i < claimed.rows.len() && keys.contains(claimed.rows[i].key)
                    && claimed.rows[i].holder is Some && !claimed.rows[i].held_by(slot);
            assert(keys.contains(m.rows[i].key));
            assert(m.claims(i, threshold, now, limit));
        }
    }
    assert forall|i: int| 0 <= i < m.rows.len() implies survives_pred(slot)(deleted.rows[i])
        == unlisted_pred(keys)(m.rows[i]) && (survives_pred(slot)(deleted.rows[i])
        ==> release_fn(slot)(deleted.rows[i]) == m.rows[i]) by {
        assert(keys.contains(m.rows[i].key) <==> m.claims(i, threshold, now, limit));
        assert(!m.rows[i].held_by(slot));
    }
    lemma_filter_related(
        deleted.rows,
        m.rows,
        survives_pred(slot),
        unlisted_pred(keys),
        release_fn(slot),
    );
    assert(deleted.commit(slot).slots =~= m.slots);
}

/// Atomic batch delete. A transaction that claims a batch, deletes any keys
/// that no other transaction holds and then rolls back leaves the store as it
/// was before the claim: every record is still there and every lock is as
/// before.
pub proof fn lemma_rollback_restores(
    m: StoreModel,
    slot: usize,
    threshold: u64,
    now: u64,
    limit: nat,
    keys: Seq<Seq<char>>,
)
    requires
        m.wf(),
        free(m, slot),
        !m.claim(slot, threshold, now, limit).blocked(slot, keys),
    ensures
        m.claim(slot, threshold, now, limit).delete_keys(slot, keys).rollback(slot) == m,
        m.claim(slot, threshold, now, limit).rollback(slot) == m,
{
    let claimed = m.claim(slot, threshold, now, limit);
    let deleted = claimed.delete_keys(slot, keys);
    lemma_free_holds_nothing(m, slot);
    assert forall|i: int| 0 <= i < m.rows.len() implies deleted.rows[i].release(slot)
        == m.rows[i] && claimed.rows[i].release(slot) == m.rows[i] by {
        let row = m.rows[i];
        assert(match row.holder {
            Some(h) => m.is_open(h),
            None => !row.doomed,
        });
        assert(!row.held_by(slot));
        if keys.contains(claimed.rows[i].key) && claimed.rows[i].holder is Some {
            assert(claimed.rows[i].held_by(slot));
        }
    }
    assert(deleted.rollback(slot).rows =~= m.rows);
    assert(deleted.rollback(slot).slots =~= m.slots);
    assert(claimed.rollback(slot).rows =~= m.rows);
    assert(claimed.rollback(slot).slots =~= m.slots);
}

/// Idempotent empty claim. Where no record is expired, whether the table is
/// empty or every record in it is fresh, a batch claims nothing and locks
/// nothing.
pub proof fn lemma_fresh_table_claims_nothing(
    m: StoreModel,
    slot: usize,
    threshold: u64,
    now: u64,
    limit: nat,
)
    requires
        forall|i: int|
            0 <= i < m.rows.len() ==> !expired((#[trigger] m.rows[i]).created_at, threshold, now),
    ensures
        m.claimable_count(threshold, now) == 0,
        m.claimed(threshold, now, limit) == Seq::<RecordModel>::empty(),
        m.claim(slot, threshold, now, limit).rows == m.rows,
{
    lemma_nothing_claimable(m.rows, threshold, now);
    assert(m.claimed(threshold, now, limit) =~= Seq::<RecordModel>::empty());
    assert forall|i: int| 0 <= i < m.rows.len() implies !m.claims(i, threshold, now, limit) by {
        assert(!expired(m.rows[i].created_at, threshold, now));
    }
    assert(m.claim(slot, threshold, now, limit).rows =~= m.rows);
}

/// Where no row is expired, the filter for claimable rows keeps none.
proof fn lemma_nothing_claimable(rows: Seq<RowModel>, threshold: u64, now: u64)
    requires
        forall|i: int|
            0 <= i < rows.len() ==> !expired((#[trigger] rows[i]).created_at, threshold, now),
    ensures
        rows.filter(claimable_pred(threshold, now)).len() == 0,
    decreases rows.len(),
{
    reveal(Seq::filter);
    if rows.len() > 0 {
        let head = rows.drop_last();
        assert forall|i: int| 0 <= i < head.len() implies !expired(
            (#[trigger] head[i]).created_at,
            threshold,
            now,
        ) by {
            assert(head[i] == rows[i]);
        }
        lemma_nothing_claimable(head, threshold, now);
        assert(!expired(rows[rows.len() - 1].created_at, threshold, now));
    }
}

/// Expiry boundary. A record created at time `created_at` is not expired at
/// any time up to and including `created_at + threshold`, and is expired at
/// every later time.
pub proof fn lemma_expiry_boundary(created_at: u64, threshold: u64, now: u64)
    ensures
        now <= created_at + threshold ==> !expired(created_at, threshold, now),
        now > created_at + threshold ==> expired(created_at, threshold, now),
{
}

/// Expiry boundary, in the table. A batch never claims a record whose age has
/// not passed the threshold; and it claims every unheld record whose age has,
/// as long as fewer than `limit` claimable records stand before it.
pub proof fn lemma_claim_by_age(m: StoreModel, i: int, threshold: u64, now: u64, limit: nat)
    requires
        m.wf(),
        0 <= i < m.rows.len(),
    ensures
        now <= m.rows[i].created_at + threshold ==> !record_keys(
            m.claimed(threshold, now, limit),
        ).contains(m.rows[i].key),
        now > m.rows[i].created_at + threshold && m.rows[i].holder is None && m.claimable_before(
            i,
            threshold,
            now,
        ) < limit ==> m.claimed(threshold, now, limit).contains(m.rows[i].record()),
{
    lemma_claimed_keys(m, threshold, now, limit);
    let n = m.rows.len() as int;
    assert(m.prefix(n).rows =~= m.rows);
    assert(m.prefix(n) == m);
    lemma_claimed_rows(m, n, threshold, now, limit);
}

/// At-most-one claim. Of two claims in flight at once, the second made while
/// the first transaction is still open, no record is in both batches,
/// whatever thresholds, times and limits the two were made with.
pub proof fn lemma_concurrent_claims_disjoint(
    m: StoreModel,
    slot: usize,
    threshold: u64,
    now: u64,
    limit: nat,
    later_threshold: u64,
    later_now: u64,
    later_limit: nat,
)
    requires
        m.wf(),
        free(m, slot),
    ensures
        forall|a: int, b: int|
            0 <= a < m.claimed(threshold, now, limit).len() && 0 <= b < m.claim(
                slot,
                threshold,
                now,
                limit,
            ).claimed(later_threshold, later_now, later_limit).len() ==> (#[trigger] m.claimed(
                threshold,
                now,
                limit,
            )[a]).key != (#[trigger] m.claim(slot, threshold, now, limit).claimed(
                later_threshold,
                later_now,
                later_limit,
            )[b]).key,
{
    let after = m.claim(slot, threshold, now, limit);
    let first = m.claimed(threshold, now, limit);
    let second = after.claimed(later_threshold, later_now, later_limit);
    let n = m.rows.len() as int;
    lemma_claim_wf(m, slot, threshold, now, limit);
    assert(m.prefix(n).rows =~= m.rows);
    assert(m.prefix(n) == m);
    assert(after.prefix(n).rows =~= after.rows);
    assert(after.prefix(n) == after);
    lemma_claimed_rows(m, n, threshold, now, limit);
    lemma_claimed_rows(after, n, later_threshold, later_now, later_limit);
    assert forall|a: int, b: int| 0 <= a < first.len() && 0 <= b < second.len() implies (
    #[trigger] first[a]).key != (#[trigger] second[b]).key by {
        assert(claimed_among(m, first[a], n, threshold, now, limit));
        let i = choose|i: int|
            0 <= i < n && #[trigger] m.claims(i, threshold, now, limit) && m.rows[i].record()
                == first[a];
        assert(claimed_among(after, second[b], n, later_threshold, later_now, later_limit));
        let j = choose|j: int|
            0 <= j < n && #[trigger] after.claims(j, later_threshold, later_now, later_limit)
                && after.rows[j].record() == second[b];
        if first[a].key == second[b].key {
            assert(m.rows[i].key == m.rows[j].key);
            assert(i == j);
            assert(after.rows[i].holder == Some(slot));
        }
    }
}

/// After a claim, the rows that can still be claimed among the first `n` are
/// those that could be before, less the ones that the batch took.
proof fn lemma_claimable_after_claim(
    m: StoreModel,
    slot: usize,
    n: int,
    threshold: u64,
    now: u64,
    limit: nat,
)
    requires
        0 <= n <= m.rows.len(),
    ensures
        m.claim(slot, threshold, now, limit).claimable_before(n, threshold, now)
            == m.claimable_before(n, threshold, now) - least(
            limit,
            m.claimable_before(n, threshold, now),
        ),
    decreases n,
{
    let after = m.claim(slot, threshold, now, limit);
    if n == 0 {
        assert(m.rows.take(0) =~= Seq::<RowModel>::empty());
        assert(after.rows.take(0) =~= Seq::<RowModel>::empty());
    } else {
        lemma_claimable_after_claim(m, slot, n - 1, threshold, now, limit);
        lemma_claimed_step(m, n - 1, threshold, now, limit);
        lemma_claimed_step(after, n - 1, threshold, now, limit);
    }
}

/// At-most-one claim, counted. Two claims in flight at once, made with the
/// same threshold at the same time, take between them as many records as can
/// be claimed, up to the sum of their limits.
pub proof fn lemma_concurrent_claims_count(
    m: StoreModel,
    slot: usize,
    threshold: u64,
    now: u64,
    limit: nat,
    later_limit: nat,
)
    ensures
        m.claimed(threshold, now, limit).len() + m.claim(slot, threshold, now, limit).claimed(
            threshold,
            now,
            later_limit,
        ).len() == least(limit + later_limit, m.claimable_count(threshold, now)),
{
    let after = m.claim(slot, threshold, now, limit);
    let n = m.rows.len() as int;
    lemma_claimable_after_claim(m, slot, n, threshold, now, limit);
    assert(m.rows.take(n) =~= m.rows);
    assert(after.rows.take(n) =~= after.rows);
}

/// Removing no keys removes nothing.
pub proof fn lemma_without_no_keys(m: StoreModel)
    ensures
        m.without_keys(Seq::<Seq<char>>::empty()) == m,
{
    lemma_filter_all(m.rows, unlisted_pred(Seq::<Seq<char>>::empty()));
}

/// Among the first `n` rows, removing the claimed keys removes as many rows
/// as the batch claims there.
proof fn lemma_unclaimed_before(m: StoreModel, n: int, threshold: u64, now: u64, limit: nat)
    requires
        m.wf(),
        0 <= n <= m.rows.len(),
    ensures
        m.rows.take(n).filter(
            unlisted_pred(record_keys(m.claimed(threshold, now, limit))),
        ).len() == n - least(limit, m.claimable_before(n, threshold, now)),
    decreases n,
{
    let pred = unlisted_pred(record_keys(m.claimed(threshold, now, limit)));
    if n == 0 {
        assert(m.rows.take(0) =~= Seq::<RowModel>::empty());
    } else {
        lemma_unclaimed_before(m, n - 1, threshold, now, limit);
        lemma_claimed_step(m, n - 1, threshold, now, limit);
        lemma_claimed_keys(m, threshold, now, limit);
        let head = m.rows.take(n - 1);
        assert(m.rows.take(n) =~= head.push(m.rows[n - 1]));
        head.lemma_filter_push(m.rows[n - 1], pred);
        assert(pred(m.rows[n - 1]) == !m.claims(n - 1, threshold, now, limit));
    }
}

/// Removing the claimed keys shortens the table by the size of the batch.
pub proof fn lemma_without_claimed_len(m: StoreModel, threshold: u64, now: u64, limit: nat)
    requires
        m.wf(),
    ensures
        m.without_keys(record_keys(m.claimed(threshold, now, limit))).rows.len()
            == m.rows.len() - least(limit, m.claimable_count(threshold, now)),
{
    let n = m.rows.len() as int;
    lemma_unclaimed_before(m, n, threshold, now, limit);
    assert(m.rows.take(n) =~= m.rows);
}

/// Among the first `n` rows, the rows that can still be claimed once the
/// claimed keys are removed are those that could be before, less the batch.
proof fn lemma_claimable_unclaimed_before(
    m: StoreModel,
    n: int,
    threshold: u64,
    now: u64,
    limit: nat,
)
    requires
        m.wf(),
        0 <= n <= m.rows.len(),
    ensures
        m.rows.take(n).filter(
            unlisted_pred(record_keys(m.claimed(threshold, now, limit))),
        ).filter(claimable_pred(threshold, now)).len() == m.claimable_before(n, threshold, now)
            - least(limit, m.claimable_before(n, threshold, now)),
    decreases n,
{
    let unlisted = unlisted_pred(record_keys(m.claimed(threshold, now, limit)));
    let claimable = claimable_pred(threshold, now);
    if n == 0 {
        assert(m.rows.take(0) =~= Seq::<RowModel>::empty());
        assert(m.rows.take(0).filter(unlisted) =~= Seq::<RowModel>::empty());
    } else {
        lemma_claimable_unclaimed_before(m, n - 1, threshold, now, limit);
        lemma_claimed_step(m, n - 1, threshold, now, limit);
        lemma_claimed_keys(m, threshold, now, limit);
        let head = m.rows.take(n - 1);
        let row = m.rows[n - 1];
        assert(m.rows.take(n) =~= head.push(row));
        head.lemma_filter_push(row, unlisted);
        head.filter(unlisted).lemma_filter_push(row, claimable);
        assert(unlisted(row) == !m.claims(n - 1, threshold, now, limit));
    }
}

/// Progress. Once the claimed keys are removed, the records that can be
/// claimed are fewer by the size of the batch: each poll that finds work
/// leaves less of it.
pub proof fn lemma_without_claimed_claimable(m: StoreModel, threshold: u64, now: u64, limit: nat)
    requires
        m.wf(),
    ensures
        m.without_keys(record_keys(m.claimed(threshold, now, limit))).claimable_count(
            threshold,
            now,
        ) == m.claimable_count(threshold, now) - least(limit, m.claimable_count(threshold, now)),
{
    let n = m.rows.len() as int;
    lemma_claimable_unclaimed_before(m, n, threshold, now, limit);
    assert(m.rows.take(n) =~= m.rows);
}

/// At-most-one claim, for any number of claims in flight. A batch never holds
/// a record that an open transaction holds, whichever transaction that is and
/// however many are open; and every record of the batch is held by the
/// claiming transaction from then on. So each further claim skips all that
/// the earlier ones took.
pub proof fn lemma_claim_skips_held(
    m: StoreModel,
    slot: usize,
    threshold: u64,
    now: u64,
    limit: nat,
)
    requires
        m.wf(),
    ensures
        forall|i: int|
            0 <= i < m.rows.len() && (#[trigger] m.rows[i]).holder is Some ==> !record_keys(
                m.claimed(threshold, now, limit),
            ).contains(m.rows[i].key),
        forall|i: int|
            0 <= i < m.rows.len() && record_keys(m.claimed(threshold, now, limit)).contains(
                (#[trigger] m.rows[i]).key,
            ) ==> m.claim(slot, threshold, now, limit).rows[i].holder == Some(slot),
        forall|i: int|
            0 <= i < m.rows.len() && (#[trigger] m.rows[i]).holder is Some ==> m.claim(
                slot,
                threshold,
                now,
                limit,
            ).rows[i] == m.rows[i],
{
    lemma_claimed_keys(m, threshold, now, limit);
}

} // verus!
