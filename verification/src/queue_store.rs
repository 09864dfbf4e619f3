//! A reference model of the durable queue store: a table of keyed,
//! timestamped records on which workers claim rows inside transactions.
//!
//! The model lives in memory and takes the time as an argument. It is not the
//! store that the service runs on: that is a database table, claimed with a
//! skip-locked query. The model states what that table's operations are to do,
//! one operation at a time, so that the rules of claiming can be proved and
//! tested without a database.
//!
//! A claim is a row lock held by one open transaction. Claiming skips rows that
//! another open transaction holds, so no row is ever claimed twice at once. A
//! transaction's deletions take effect at commit and vanish at rollback.

use vstd::prelude::*;

verus! {

/// A record as a worker sees it: its key and the time of its insertion.
#[derive(Debug, PartialEq, Eq)]
pub struct QueueRecord {
    pub key: String,
    pub created_at: u64,
}

/// The mathematical value of a [`QueueRecord`].
pub struct RecordModel {
    pub key: Seq<char>,
    pub created_at: u64,
}

impl View for QueueRecord {
    type V = RecordModel;

    open spec fn view(&self) -> RecordModel {
        RecordModel { key: self.key@, created_at: self.created_at }
    }
}

/// The values of a list of records, in order.
pub open spec fn record_views(records: Seq<QueueRecord>) -> Seq<RecordModel> {
    records.map_values(|r: QueueRecord| r@)
}

/// The keys of a list of records, in order.
pub open spec fn record_keys(records: Seq<RecordModel>) -> Seq<Seq<char>> {
    records.map_values(|r: RecordModel| r.key)
}

/// The values of a list of keys, in order.
pub open spec fn key_views(keys: Seq<String>) -> Seq<Seq<char>> {
    keys.map_values(|k: String| k@)
}

/// Why the store refused an operation.
#[derive(Clone, Copy, Debug, PartialEq, Eq, Structural)]
pub enum StoreError {
    /// Every connection of the pool is busy with an open transaction.
    PoolExhausted,
    /// The handle names no open transaction of this store.
    UnknownTransaction,
    /// A row to delete is held by another open transaction.
    RowLocked,
    /// A record with this key is already in the table.
    DuplicateKey,
}

/// One row of the table, with its lock.
pub struct RowModel {
    pub key: Seq<char>,
    pub created_at: u64,
    /// The connection of the open transaction that holds the row, if any.
    pub holder: Option<usize>,
    /// Whether the holder has deleted the row, pending its commit.
    pub doomed: bool,
}

/// A record is expired once its age exceeds the threshold.
pub open spec fn expired(created_at: u64, threshold: u64, now: u64) -> bool {
    created_at + threshold < now
}

impl RowModel {
    pub open spec fn record(self) -> RecordModel {
        RecordModel { key: self.key, created_at: self.created_at }
    }

    /// A row can be claimed when it is expired and no open transaction holds it.
    pub open spec fn claimable(self, threshold: u64, now: u64) -> bool {
        self.holder is None && expired(self.created_at, threshold, now)
    }

    pub open spec fn held_by(self, slot: usize) -> bool {
        self.holder == Some(slot)
    }

    pub open spec fn lock(self, slot: usize) -> RowModel {
        RowModel { holder: Some(slot), ..self }
    }

    pub open spec fn doom(self, slot: usize) -> RowModel {
        RowModel { holder: Some(slot), doomed: true, ..self }
    }

    /// The row as it is once the transaction on `slot` has ended.
    pub open spec fn release(self, slot: usize) -> RowModel {
        if self.held_by(slot) {
            RowModel { holder: None, doomed: false, ..self }
        } else {
            self
        }
    }
}

pub open spec fn claimable_pred(threshold: u64, now: u64) -> spec_fn(RowModel) -> bool {
    |r: RowModel| r.claimable(threshold, now)
}

pub open spec fn survives_pred(slot: usize) -> spec_fn(RowModel) -> bool {
    |r: RowModel| !(r.held_by(slot) && r.doomed)
}

pub open spec fn release_fn(slot: usize) -> spec_fn(RowModel) -> RowModel {
    |r: RowModel| r.release(slot)
}

pub open spec fn record_fn() -> spec_fn(RowModel) -> RecordModel {
    |r: RowModel| r.record()
}

pub open spec fn unlisted_pred(keys: Seq<Seq<char>>) -> spec_fn(RowModel) -> bool {
    |r: RowModel| !keys.contains(r.key)
}

/// The mathematical value of a [`QueueStore`]: its rows in table order, and for
/// each connection of the pool whether a transaction is open on it.
pub struct StoreModel {
    pub rows: Seq<RowModel>,
    pub slots: Seq<bool>,
}

impl StoreModel {
    /// Keys are unique, every lock belongs to an open transaction, and only a
    /// held row can be pending deletion.
    pub open spec fn wf(self) -> bool {
        &&& forall|i: int, j: int|
            0 <= i < j < self.rows.len() ==> self.rows[i].key != self.rows[j].key
        &&& forall|i: int|
            0 <= i < self.rows.len() ==> match (#[trigger] self.rows[i]).holder {
                Some(h) => self.is_open(h),
                None => !self.rows[i].doomed,
            }
    }

    pub open spec fn is_open(self, slot: usize) -> bool {
        slot < self.slots.len() && self.slots[slot as int]
    }

    pub open spec fn has_free_slot(self) -> bool {
        exists|s: int| 0 <= s < self.slots.len() && !self.slots[s]
    }

    /// The records of the table, in table order.
    pub open spec fn records(self) -> Seq<RecordModel> {
        self.rows.map_values(record_fn())
    }

    pub open spec fn has_key(self, key: Seq<char>) -> bool {
        exists|i: int| 0 <= i < self.rows.len() && self.rows[i].key == key
    }

    /// How many of the first `n` rows can be claimed.
    pub open spec fn claimable_before(self, n: int, threshold: u64, now: u64) -> nat {
        self.rows.take(n).filter(claimable_pred(threshold, now)).len()
    }

    /// How many rows can be claimed.
    pub open spec fn claimable_count(self, threshold: u64, now: u64) -> nat {
        self.rows.filter(claimable_pred(threshold, now)).len()
    }

    /// Row `i` is claimed by a batch of at most `limit` rows: it can be
    /// claimed, and fewer than `limit` rows before it can.
    pub open spec fn claims(self, i: int, threshold: u64, now: u64, limit: nat) -> bool {
        &&& self.rows[i].claimable(threshold, now)
        &&& self.claimable_before(i, threshold, now) < limit
    }

    /// The records that a batch of at most `limit` rows claims: the first
    /// `limit` claimable rows, in table order.
    pub open spec fn claimed(self, threshold: u64, now: u64, limit: nat) -> Seq<RecordModel> {
        self.rows.filter(claimable_pred(threshold, now)).take(
            if limit <= self.claimable_count(threshold, now) {
                limit as int
            } else {
                self.claimable_count(threshold, now) as int
            },
        ).map_values(record_fn())
    }

    /// The store after a transaction opened on `slot` has claimed its batch.
    pub open spec fn claim(self, slot: usize, threshold: u64, now: u64, limit: nat) -> StoreModel {
        StoreModel {
            rows: Seq::new(
                self.rows.len(),
                |i: int|
                    if self.claims(i, threshold, now, limit) {
                        self.rows[i].lock(slot)
                    } else {
                        self.rows[i]
                    },
            ),
            slots: self.slots.update(slot as int, true),
        }
    }

    /// Some row with one of `keys` is held by a transaction other than `slot`.
    pub open spec fn blocked(self, slot: usize, keys: Seq<Seq<char>>) -> bool {
        exists|i: int|
            0 <= i < self.rows.len() && keys.contains(self.rows[i].key)
                && self.rows[i].holder is Some && !self.rows[i].held_by(slot)
    }

    /// The store after the transaction on `slot` has deleted the rows with
    /// `keys`: each is held by it and pending deletion.
    pub open spec fn delete_keys(self, slot: usize, keys: Seq<Seq<char>>) -> StoreModel {
        StoreModel {
            rows: Seq::new(
                self.rows.len(),
                |i: int|
                    if keys.contains(self.rows[i].key) {
                        self.rows[i].doom(slot)
                    } else {
                        self.rows[i]
                    },
            ),
            slots: self.slots,
        }
    }

    /// The store after the transaction on `slot` has committed: the rows it
    /// deleted are gone, the others it held are free.
    pub open spec fn commit(self, slot: usize) -> StoreModel {
        StoreModel {
            rows: self.rows.filter(survives_pred(slot)).map_values(release_fn(slot)),
            slots: self.slots.update(slot as int, false),
        }
    }

    /// The store after the transaction on `slot` has rolled back: every row it
    /// held is free and none is deleted.
    pub open spec fn rollback(self, slot: usize) -> StoreModel {
        StoreModel {
            rows: self.rows.map_values(release_fn(slot)),
            slots: self.slots.update(slot as int, false),
        }
    }

    /// The table without the rows that have one of `keys`.
    pub open spec fn without_keys(self, keys: Seq<Seq<char>>) -> StoreModel {
        StoreModel { rows: self.rows.filter(unlisted_pred(keys)), slots: self.slots }
    }

    /// The store with only the first `n` rows of its table.
    pub open spec fn prefix(self, n: int) -> StoreModel {
        StoreModel { rows: self.rows.take(n), slots: self.slots }
    }

    /// The table with one more record at its end.
    pub open spec fn insert(self, key: Seq<char>, created_at: u64) -> StoreModel {
        StoreModel {
            rows: self.rows.push(RowModel { key, created_at, holder: None, doomed: false }),
            slots: self.slots,
        }
    }
}

struct Row {
    key: String,
    created_at: u64,
    holder: Option<usize>,
    doomed: bool,
}

impl View for Row {
    type V = RowModel;

    closed spec fn view(&self) -> RowModel {
        RowModel {
            key: self.key@,
            created_at: self.created_at,
            holder: self.holder,
            doomed: self.doomed,
        }
    }
}

spec fn row_views(rows: Seq<Row>) -> Seq<RowModel> {
    rows.map_values(|r: Row| r@)
}

/// An open transaction of a [`QueueStore`]. It ends when the store commits it
/// or rolls it back, which consumes the handle.
#[derive(Debug)]
pub struct TransactionHandle {
    slot: usize,
}

impl TransactionHandle {
    /// The connection of the pool on which the transaction runs.
    pub closed spec fn slot(&self) -> usize {
        self.slot
    }
}

/// The reference model of the table of records that every worker shares, with
/// a bounded pool of connections. Each open transaction occupies one
/// connection. It holds its rows in memory; the service's own table is in its
/// database.
pub struct QueueStore {
    rows: Vec<Row>,
    slots: Vec<bool>,
}

impl View for QueueStore {
    type V = StoreModel;

    closed spec fn view(&self) -> StoreModel {
        StoreModel { rows: row_views(self.rows@), slots: self.slots@ }
    }
}

impl QueueStore {
    /// The store is consistent: see [`StoreModel::wf`].
    pub open spec fn wf(&self) -> bool {
        self@.wf()
    }

    /// An empty table behind a pool of `pool_size` connections.
    pub fn new(pool_size: usize) -> (store: QueueStore)
        ensures
            store.wf(),
            store@.rows.len() == 0,
            store@.slots.len() == pool_size,
            forall|s: int| 0 <= s < pool_size ==> !store@.slots[s],
    {
        let mut slots: Vec<bool> = Vec::new();
        let mut n: usize = 0;
        while n < pool_size
            invariant
                n <= pool_size,
                slots@.len() == n,
                forall|s: int| 0 <= s < n ==> !slots@[s],
            decreases pool_size - n,
        {
            slots.push(false);
            n += 1;
        }
        QueueStore { rows: Vec::new(), slots }
    }

    /// The number of records in the table, claimed or not.
    pub fn len(&self) -> (n: usize)
        ensures
            n == self@.rows.len(),
    {
        self.rows.len()
    }

    /// Whether the table holds no record.
    pub fn is_empty(&self) -> (b: bool)
        ensures
            b == (self@.rows.len() == 0),
    {
        self.rows.len() == 0
    }

    /// Whether a record with this key is in the table.
    pub fn contains_key(&self, key: &str) -> (found: bool)
        ensures
            found == self@.has_key(key@),
    {
        let wanted = key.to_owned();
        let mut i: usize = 0;
        while i < self.rows.len()
            invariant
                i <= self.rows@.len(),
                wanted@ == key@,
                forall|j: int| 0 <= j < i ==> self@.rows[j].key != key@,
            decreases self.rows@.len() - i,
        {
            if self.rows[i].key == wanted {
                assert(self@.rows[i as int].key == key@);
                return true;
            }
            i += 1;
        }
        false
    }

    /// Adds a record at the end of the table, unless its key is taken.
    pub fn insert(&mut self, key: String, created_at: u64) -> (r: Result<(), StoreError>)
        requires
            old(self).wf(),
        ensures
            final(self).wf(),
            match r {
                Ok(()) => {
                    &&& !old(self)@.has_key(key@)
                    &&& final(self)@ == old(self)@.insert(key@, created_at)
                },
                Err(e) => {
                    &&& e == StoreError::DuplicateKey
                    &&& old(self)@.has_key(key@)
                    &&& final(self)@ == old(self)@
                },
            },
    {
        if self.contains_key(key.as_str()) {
            return Err(StoreError::DuplicateKey);
        }
        let ghost before = self@;
        let ghost k = key@;
        self.rows.push(Row { key, created_at, holder: None, doomed: false });
        proof {
            assert(self@.rows =~= before.insert(k, created_at).rows);
            assert(forall|i: int| 0 <= i < before.rows.len() ==> self@.rows[i] == before.rows[i]);
        }
        Ok(())
    }

    /// Replaces the lock of row `i`.
    fn set_row(&mut self, i: usize, holder: Option<usize>, doomed: bool)
        requires
            i < old(self)@.rows.len(),
        ensures
            final(self)@.slots == old(self)@.slots,
            final(self)@.rows == old(self)@.rows.update(
                i as int,
                RowModel { holder, doomed, ..old(self)@.rows[i as int] },
            ),
    {
        let ghost before = self@;
        let key = self.rows[i].key.clone();
        let created_at = self.rows[i].created_at;
        self.rows.set(i, Row { key, created_at, holder, doomed });
        proof {
            assert(self@.rows =~= before.rows.update(
                i as int,
                RowModel { holder, doomed, ..before.rows[i as int] },
            ));
        }
    }

    /// The first connection of the pool with no open transaction.
    fn free_slot(&self) -> (r: Option<usize>)
        ensures
            match r {
                Some(s) => {
                    &&& s < self@.slots.len()
                    &&& !self@.slots[s as int]
                    &&& forall|j: int| 0 <= j < s ==> self@.slots[j]
                },
                None => !self@.has_free_slot(),
            },
    {
        let mut s: usize = 0;
        while s < self.slots.len()
            invariant
                s <= self.slots@.len(),
                forall|j: int| 0 <= j < s ==> self.slots@[j],
            decreases self.slots@.len() - s,
        {
            if !self.slots[s] {
                return Some(s);
            }
            s += 1;
        }
        None
    }

    /// Opens a transaction and claims for it up to `limit` records whose age
    /// exceeds `expiry_threshold` at time `now`, skipping every row that an
    /// open transaction holds. The transaction runs on the first free
    /// connection; with none free, nothing changes.
    pub fn claim_batch(&mut self, expiry_threshold: u64, now: u64, limit: usize) -> (r: Result<
        (TransactionHandle, Vec<QueueRecord>),
        StoreError,
    >)
        requires
            old(self).wf(),
        ensures
            final(self).wf(),
            match r {
                Ok((handle, records)) => {
                    &&& handle.slot() < old(self)@.slots.len()
                    &&& !old(self)@.slots[handle.slot() as int]
                    &&& forall|j: int| 0 <= j < handle.slot() ==> old(self)@.slots[j]
                    &&& final(self)@ == old(self)@.claim(
                        handle.slot(),
                        expiry_threshold,
                        now,
                        limit as nat,
                    )
                    &&& record_views(records@) == old(self)@.claimed(
                        expiry_threshold,
                        now,
                        limit as nat,
                    )
                    &&& records@.len() <= limit
                },
                Err(e) => {
                    &&& e == StoreError::PoolExhausted
                    &&& !old(self)@.has_free_slot()
                    &&& final(self)@ == old(self)@
                },
            },
    {
        let ghost before = self@;
        let slot = match self.free_slot() {
            Some(s) => s,
            None => {
                return Err(StoreError::PoolExhausted);
            },
        };
        self.slots.set(slot, true);
        let mut records: Vec<QueueRecord> = Vec::new();
        let mut i: usize = 0;
        proof {
            assert(before.prefix(0).rows =~= Seq::<RowModel>::empty());
            assert(record_views(records@) =~= before.prefix(0).claimed(
                expiry_threshold,
                now,
                limit as nat,
            ));
        }
        while i < self.rows.len()
            invariant
                before.wf(),
                slot < before.slots.len(),
                i <= before.rows.len(),
                self@.rows.len() == before.rows.len(),
                self@.slots == before.slots.update(slot as int, true),
                records@.len() <= limit,
                records@.len() == before.claimable_before(i as int, expiry_threshold, now)
                    || (records@.len() == limit && limit <= before.claimable_before(
                    i as int,
                    expiry_threshold,
                    now,
                )),
                record_views(records@) == before.prefix(i as int).claimed(
                    expiry_threshold,
                    now,
                    limit as nat,
                ),
                forall|j: int|
                    0 <= j < i ==> self@.rows[j] == if before.claims(
                        j,
                        expiry_threshold,
                        now,
                        limit as nat,
                    ) {
                        before.rows[j].lock(slot)
                    } else {
                        before.rows[j]
                    },
                forall|j: int| i <= j < before.rows.len() ==> self@.rows[j] == before.rows[j],
            decreases before.rows.len() - i,
        {
            proof {
                lemma_claimed_step(before, i as int, expiry_threshold, now, limit as nat);
            }
            let row = &self.rows[i];
            assert(row@ == before.rows[i as int]);
            let is_expired = row.created_at < now && now - row.created_at > expiry_threshold;
            if records.len() < limit && row.holder.is_none() && is_expired {
                let record = QueueRecord { key: row.key.clone(), created_at: row.created_at };
                let ghost shown = records@;
                records.push(record);
                proof {
                    assert(record_views(records@) =~= record_views(shown).push(
                        before.rows[i as int].record(),
                    ));
                }
                self.set_row(i, Some(slot), false);
            }
            i += 1;
        }
        proof {
            assert(before.prefix(before.rows.len() as int).rows =~= before.rows);
            assert(self@.rows =~= before.claim(slot, expiry_threshold, now, limit as nat).rows);
            lemma_claim_wf(before, slot, expiry_threshold, now, limit as nat);
        }
        Ok((TransactionHandle { slot }, records))
    }

    /// Whether `key` is one of `keys`.
    fn key_listed(keys: &Vec<String>, key: &String) -> (found: bool)
        ensures
            found == key_views(keys@).contains(key@),
    {
        let mut k: usize = 0;
        while k < keys.len()
            invariant
                k <= keys@.len(),
                forall|j: int| 0 <= j < k ==> key_views(keys@)[j] != key@,
            decreases keys@.len() - k,
        {
            if keys[k] == *key {
                assert(key_views(keys@)[k as int] == key@);
                return true;
            }
            k += 1;
        }
        false
    }

    /// Whether a transaction other than the one on `slot` holds a row with
    /// one of `keys`.
    fn is_blocked(&self, slot: usize, keys: &Vec<String>) -> (b: bool)
        ensures
            b == self@.blocked(slot, key_views(keys@)),
    {
        let mut i: usize = 0;
        while i < self.rows.len()
            invariant
                i <= self@.rows.len(),
                forall|j: int|
                    0 <= j < i ==> !(key_views(keys@).contains(self@.rows[j].key)
                        && self@.rows[j].holder is Some && !self@.rows[j].held_by(slot)),
            decreases self@.rows.len() - i,
        {
            let row = &self.rows[i];
            assert(row@ == self@.rows[i as int]);
            let other = match row.holder {
                Some(h) => h != slot,
                None => false,
            };
            if other && Self::key_listed(keys, &row.key) {
                return true;
            }
            i += 1;
        }
        false
    }

    /// Deletes, inside the transaction, every record whose key is one of
    /// `keys`; a key that no record has is passed over. The deletion takes
    /// effect at commit. It is refused, and nothing changes, where the handle
    /// names no open transaction or another transaction holds one of the rows.
    pub fn delete_keys(&mut self, handle: &TransactionHandle, keys: &Vec<String>) -> (r: Result<
        (),
        StoreError,
    >)
        requires
            old(self).wf(),
        ensures
            final(self).wf(),
            match r {
                Ok(()) => {
                    &&& old(self)@.is_open(handle.slot())
                    &&& !old(self)@.blocked(handle.slot(), key_views(keys@))
                    &&& final(self)@ == old(self)@.delete_keys(handle.slot(), key_views(keys@))
                },
                Err(e) => {
                    &&& final(self)@ == old(self)@
                    &&& e == if !old(self)@.is_open(handle.slot()) {
                        StoreError::UnknownTransaction
                    } else {
                        StoreError::RowLocked
                    }
                    &&& !old(self)@.is_open(handle.slot()) || old(self)@.blocked(
                        handle.slot(),
                        key_views(keys@),
                    )
                },
            },
    {
        let ghost before = self@;
        let slot = handle.slot;
        if !self.has_open(slot) {
            return Err(StoreError::UnknownTransaction);
        }
        if self.is_blocked(slot, keys) {
            return Err(StoreError::RowLocked);
        }
        let mut i: usize = 0;
        while i < self.rows.len()
            invariant
                i <= before.rows.len(),
                self@.rows.len() == before.rows.len(),
                self@.slots == before.slots,
                forall|j: int|
                    0 <= j < i ==> self@.rows[j] == if key_views(keys@).contains(
                        before.rows[j].key,
                    ) {
                        before.rows[j].doom(slot)
                    } else {
                        before.rows[j]
                    },
                forall|j: int| i <= j < before.rows.len() ==> self@.rows[j] == before.rows[j],
            decreases before.rows.len() - i,
        {
            let listed = Self::key_listed(keys, &self.rows[i].key);
            assert(self.rows[i as int]@ == self@.rows[i as int]);
            if listed {
                self.set_row(i, Some(slot), true);
            }
            i += 1;
        }
        proof {
            assert(self@.rows =~= before.delete_keys(slot, key_views(keys@)).rows);
            lemma_delete_wf(before, slot, key_views(keys@));
        }
        Ok(())
    }

    /// Whether a transaction is open on `slot`.
    fn has_open(&self, slot: usize) -> (b: bool)
        ensures
            b == self@.is_open(slot),
    {
        slot < self.slots.len() && self.slots[slot]
    }

    /// Ends the transaction: with `keep_deletions` its deleted rows leave the
    /// table, without it they stay; either way every row it held is free.
    fn finish(&mut self, slot: usize, keep_deletions: bool)
        requires
            old(self).wf(),
            old(self)@.is_open(slot),
        ensures
            final(self).wf(),
            final(self)@ == if keep_deletions {
                old(self)@.commit(slot)
            } else {
                old(self)@.rollback(slot)
            },
    {
        let ghost before = self@;
        let ghost pred = if keep_deletions {
            survives_pred(slot)
        } else {
            |r: RowModel| true
        };
        let mut kept: Vec<Row> = Vec::new();
        let mut i: usize = 0;
        proof {
            assert(before.rows.take(0) =~= Seq::<RowModel>::empty());
            assert(row_views(kept@) =~= before.rows.take(0).filter(pred).map_values(
                release_fn(slot),
            ));
        }
        while i < self.rows.len()
            invariant
                i <= before.rows.len(),
                self@ == before,
                pred == if keep_deletions {
                    survives_pred(slot)
                } else {
                    |r: RowModel| true
                },
                row_views(kept@) == before.rows.take(i as int).filter(pred).map_values(
                    release_fn(slot),
                ),
            decreases before.rows.len() - i,
        {
            let row = &self.rows[i];
            assert(row@ == before.rows[i as int]);
            let held = match row.holder {
                Some(h) => h == slot,
                None => false,
            };
            proof {
                let head = before.rows.take(i as int);
                assert(before.rows.take(i + 1) =~= head.push(row@));
                head.lemma_filter_push(row@, pred);
                assert(head.filter(pred).push(row@).map_values(release_fn(slot))
                    =~= head.filter(pred).map_values(release_fn(slot)).push(row@.release(slot)));
            }
            if !(keep_deletions && held && row.doomed) {
                let ghost shown = kept@;
                let freed = if held {
                    Row {
                        key: row.key.clone(),
                        created_at: row.created_at,
                        holder: None,
                        doomed: false,
                    }
                } else {
                    Row {
                        key: row.key.clone(),
                        created_at: row.created_at,
                        holder: row.holder,
                        doomed: row.doomed,
                    }
                };
                kept.push(freed);
                proof {
                    assert(row_views(kept@) =~= row_views(shown).push(row@.release(slot)));
                }
            }
            i += 1;
        }
        proof {
            assert(before.rows.take(before.rows.len() as int) =~= before.rows);
            if !keep_deletions {
                lemma_filter_all(before.rows, pred);
            }
        }
        self.rows = kept;
        self.slots.set(slot, false);
        proof {
            if keep_deletions {
                assert(self@ == before.commit(slot));
                lemma_commit_wf(before, slot);
            } else {
                assert(self@ == before.rollback(slot));
                lemma_rollback_wf(before, slot);
            }
        }
    }

    /// Commits the transaction: the records it deleted leave the table for
    /// good, and every other row it held can be claimed again. A handle that
    /// names no open transaction of this store is refused, and nothing changes.
    pub fn commit(&mut self, handle: TransactionHandle) -> (r: Result<(), StoreError>)
        requires
            old(self).wf(),
        ensures
            final(self).wf(),
            match r {
                Ok(()) => {
                    &&& old(self)@.is_open(handle.slot())
                    &&& final(self)@ == old(self)@.commit(handle.slot())
                },
                Err(e) => {
                    &&& e == StoreError::UnknownTransaction
                    &&& !old(self)@.is_open(handle.slot())
                    &&& final(self)@ == old(self)@
                },
            },
    {
        if !self.has_open(handle.slot) {
            return Err(StoreError::UnknownTransaction);
        }
        self.finish(handle.slot, true);
        Ok(())
    }

    /// Rolls the transaction back: none of its deletions takes effect, and
    /// every row it held can be claimed again. A handle that names no open
    /// transaction of this store is refused, and nothing changes.
    pub fn rollback(&mut self, handle: TransactionHandle) -> (r: Result<(), StoreError>)
        requires
            old(self).wf(),
        ensures
            final(self).wf(),
            match r {
                Ok(()) => {
                    &&& old(self)@.is_open(handle.slot())
                    &&& final(self)@ == old(self)@.rollback(handle.slot())
                },
                Err(e) => {
                    &&& e == StoreError::UnknownTransaction
                    &&& !old(self)@.is_open(handle.slot())
                    &&& final(self)@ == old(self)@
                },
            },
    {
        if !self.has_open(handle.slot) {
            return Err(StoreError::UnknownTransaction);
        }
        self.finish(handle.slot, false);
        Ok(())
    }

    /// The records of the table, claimed or not, in table order.
    pub fn records(&self) -> (all: Vec<QueueRecord>)
        ensures
            record_views(all@) == self@.records(),
    {
        let mut all: Vec<QueueRecord> = Vec::new();
        let mut i: usize = 0;
        while i < self.rows.len()
            invariant
                i <= self@.rows.len(),
                all@.len() == i,
                forall|j: int| 0 <= j < i ==> all@[j]@ == self@.rows[j].record(),
            decreases self@.rows.len() - i,
        {
            let row = &self.rows[i];
            assert(row@ == self@.rows[i as int]);
            all.push(QueueRecord { key: row.key.clone(), created_at: row.created_at });
            i += 1;
        }
        proof {
            assert(record_views(all@) =~= self@.records());
        }
        all
    }
}

/// A filter that every row passes keeps the table.
pub proof fn lemma_filter_all(rows: Seq<RowModel>, pred: spec_fn(RowModel) -> bool)
    requires
        forall|i: int| 0 <= i < rows.len() ==> pred(#[trigger] rows[i]),
    ensures
        rows.filter(pred) == rows,
    decreases rows.len(),
{
    reveal(Seq::filter);
    if rows.len() > 0 {
        let head = rows.drop_last();
        assert forall|i: int| 0 <= i < head.len() implies pred(#[trigger] head[i]) by {
            assert(head[i] == rows[i]);
        }
        lemma_filter_all(head, pred);
        assert(pred(rows[rows.len() - 1]));
        assert(head.push(rows.last()) =~= rows);
    } else {
        assert(rows.filter(pred) =~= rows);
    }
}

/// Every row that a filter keeps is a row of the table, and rows with
/// different keys stay so.
proof fn lemma_filter_keys(rows: Seq<RowModel>, pred: spec_fn(RowModel) -> bool)
    requires
        forall|i: int, j: int| 0 <= i < j < rows.len() ==> rows[i].key != rows[j].key,
    ensures
        forall|i: int, j: int|
            0 <= i < j < rows.filter(pred).len() ==> rows.filter(pred)[i].key != rows.filter(
                pred,
            )[j].key,
        forall|k: int|
            0 <= k < rows.filter(pred).len() ==> rows.contains(#[trigger] rows.filter(pred)[k]),
    decreases rows.len(),
{
    reveal(Seq::filter);
    if rows.len() > 0 {
        let head = rows.drop_last();
        let last = rows.last();
        lemma_filter_keys(head, pred);
        let found = head.filter(pred);
        assert forall|k: int| 0 <= k < found.len() implies rows.contains(#[trigger] found[k])
            && found[k].key != last.key by {
            assert(head.contains(found[k]));
            let w = choose|w: int| 0 <= w < head.len() && head[w] == found[k];
            assert(rows[w] == found[k]);
        }
        if pred(last) {
            assert(rows[rows.len() - 1] == last);
        }
    }
}

/// Deleting inside an open transaction keeps the store consistent.
proof fn lemma_delete_wf(m: StoreModel, slot: usize, keys: Seq<Seq<char>>)
    requires
        m.wf(),
        m.is_open(slot),
    ensures
        m.delete_keys(slot, keys).wf(),
{
    let after = m.delete_keys(slot, keys);
    assert forall|i: int| 0 <= i < after.rows.len() implies match (#[trigger] after.rows[i]).holder {
        Some(h) => after.is_open(h),
        None => !after.rows[i].doomed,
    } by {
        let before_row = m.rows[i];
        assert(match before_row.holder {
            Some(h) => m.is_open(h),
            None => !before_row.doomed,
        });
    }
}

/// A rollback keeps the store consistent.
proof fn lemma_rollback_wf(m: StoreModel, slot: usize)
    requires
        m.wf(),
        m.is_open(slot),
    ensures
        m.rollback(slot).wf(),
{
    let after = m.rollback(slot);
    assert forall|i: int| 0 <= i < after.rows.len() implies match (#[trigger] after.rows[i]).holder {
        Some(h) => after.is_open(h),
        None => !after.rows[i].doomed,
    } by {
        let before_row = m.rows[i];
        assert(match before_row.holder {
            Some(h) => m.is_open(h),
            None => !before_row.doomed,
        });
    }
}

/// A commit keeps the store consistent.
proof fn lemma_commit_wf(m: StoreModel, slot: usize)
    requires
        m.wf(),
        m.is_open(slot),
    ensures
        m.commit(slot).wf(),
{
    let after = m.commit(slot);
    let left = m.rows.filter(survives_pred(slot));
    lemma_filter_keys(m.rows, survives_pred(slot));
    assert forall|i: int| 0 <= i < after.rows.len() implies match (#[trigger] after.rows[i]).holder {
        Some(h) => after.is_open(h),
        None => !after.rows[i].doomed,
    } by {
        assert(m.rows.contains(left[i]));
        let w = choose|w: int| 0 <= w < m.rows.len() && m.rows[w] == left[i];
        let before_row = m.rows[w];
        assert(match before_row.holder {
            Some(h) => m.is_open(h),
            None => !before_row.doomed,
        });
    }
}

/// One more row of the table changes what a batch claims as the row itself
/// says: if the batch claims it, its record joins the end.
pub proof fn lemma_claimed_step(m: StoreModel, i: int, threshold: u64, now: u64, limit: nat)
    requires
        0 <= i < m.rows.len(),
    ensures
        m.prefix(i).claimable_count(threshold, now) == m.claimable_before(i, threshold, now),
        m.claimable_before(i + 1, threshold, now) == m.claimable_before(i, threshold, now) + (
        if m.rows[i].claimable(threshold, now) {
            1int
        } else {
            0int
        }),
        m.prefix(i + 1).claimed(threshold, now, limit) == if m.claims(i, threshold, now, limit) {
            m.prefix(i).claimed(threshold, now, limit).push(m.rows[i].record())
        } else {
            m.prefix(i).claimed(threshold, now, limit)
        },
{
    let pred = claimable_pred(threshold, now);
    let head = m.rows.take(i);
    let row = m.rows[i];
    assert(m.rows.take(i + 1) =~= head.push(row));
    head.lemma_filter_push(row, pred);
    let found = head.filter(pred);
    let count = found.len();
    if m.claims(i, threshold, now, limit) {
        assert(found.push(row).take(count as int + 1) =~= found.push(row));
        assert(found.take(count as int) =~= found);
        assert(found.push(row).map_values(record_fn()) =~= found.map_values(record_fn()).push(
            row.record(),
        ));
    } else if pred(row) {
        assert(found.push(row).take(limit as int) =~= found.take(limit as int));
    }
}

/// A claim keeps the store consistent.
pub proof fn lemma_claim_wf(m: StoreModel, slot: usize, threshold: u64, now: u64, limit: nat)
    requires
        m.wf(),
        slot < m.slots.len(),
    ensures
        m.claim(slot, threshold, now, limit).wf(),
{
    let after = m.claim(slot, threshold, now, limit);
    assert forall|i: int| 0 <= i < after.rows.len() implies match (#[trigger] after.rows[i]).holder {
        Some(h) => after.is_open(h),
        None => !after.rows[i].doomed,
    } by {
        let before_row = m.rows[i];
        assert(match before_row.holder {
            Some(h) => m.is_open(h),
            None => !before_row.doomed,
        });
    }
}

} // verus!
