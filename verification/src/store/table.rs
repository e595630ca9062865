//! The live table in memory: the versioned upsert, the sweep, the counts
//! of a run, and the snapshot.

use vstd::prelude::*;

use crate::audit::updated_of;
use crate::feed::merge::records_view;
use crate::models::{PostalCode, PostalCodeView, PrimaryKey};
use crate::timestamp::{Timestamp, TimestampView};

verus! {

/// A record as the live table holds it, with its stamps.
#[derive(Debug)]
pub struct StoredRow {
    pub record: PostalCode,
    pub created_at: Timestamp,
    pub updated_at: Timestamp,
}

/// The mathematical value of a stored row.
pub struct StoredRowView {
    pub record: PostalCodeView,
    pub created_at: TimestampView,
    pub updated_at: TimestampView,
}

impl View for StoredRow {
    type V = StoredRowView;

    open spec fn view(&self) -> StoredRowView {
        StoredRowView {
            record: self.record@,
            created_at: self.created_at@,
            updated_at: self.updated_at@,
        }
    }
}

impl Clone for StoredRow {
    fn clone(&self) -> (copy: Self)
        ensures
            copy == *self,
    {
        StoredRow {
            record: self.record.clone(),
            created_at: self.created_at,
            updated_at: self.updated_at,
        }
    }
}

/// The views of a list of rows, in order.
pub open spec fn rows_view(rows: Seq<StoredRow>) -> Seq<StoredRowView> {
    Seq::new(rows.len(), |i: int| rows[i]@)
}

/// Whether a row is stored under the key.
pub open spec fn has_key(rows: Seq<StoredRowView>, key: PrimaryKey) -> bool {
    exists|i: int| 0 <= i < rows.len() && (#[trigger] rows[i]).record.primary_key() == key
}

/// Where the row with the key stands, if there is one.
pub open spec fn index_of(rows: Seq<StoredRowView>, key: PrimaryKey) -> int {
    choose|i: int| 0 <= i < rows.len() && (#[trigger] rows[i]).record.primary_key() == key
}

/// Whether no two rows are stored under the same key.
pub open spec fn rows_distinct(rows: Seq<StoredRowView>) -> bool {
    forall|i: int, j: int|
        0 <= i < j < rows.len() ==> (#[trigger] rows[i]).record.primary_key() != (
        #[trigger] rows[j]).record.primary_key()
}

/// A stored row after a record with its key was written at time `t`:
/// prefecture and town are those of the record, the update stamp is `t`,
/// and the rest, the creation stamp among it, stays.
pub open spec fn restamped(row: StoredRowView, record: PostalCodeView, t: TimestampView) -> StoredRowView {
    StoredRowView {
        record: PostalCodeView { prefecture: record.prefecture, town: record.town, ..row.record },
        created_at: row.created_at,
        updated_at: t,
    }
}

/// The row of a record that is written at time `t` and was not stored
/// before: both stamps are `t`.
pub open spec fn fresh(record: PostalCodeView, t: TimestampView) -> StoredRowView {
    StoredRowView { record, created_at: t, updated_at: t }
}

/// The rows after one record is written at time `t`.
pub open spec fn upserted(rows: Seq<StoredRowView>, record: PostalCodeView, t: TimestampView) -> Seq<
    StoredRowView,
> {
    if has_key(rows, record.primary_key()) {
        let at = index_of(rows, record.primary_key());
        rows.update(at, restamped(rows[at], record, t))
    } else {
        rows.push(fresh(record, t))
    }
}

/// The rows after a batch is written at time `t`, record by record.
pub open spec fn after_batch(
    rows: Seq<StoredRowView>,
    batch: Seq<PostalCodeView>,
    t: TimestampView,
) -> Seq<StoredRowView>
    decreases batch.len(),
{
    if batch.len() == 0 {
        rows
    } else {
        upserted(after_batch(rows, batch.drop_last(), t), batch.last(), t)
    }
}

/// The rows that a sweep at time `t` leaves: those not stamped before `t`.
pub open spec fn swept(rows: Seq<StoredRowView>, t: TimestampView) -> Seq<StoredRowView>
    decreases rows.len(),
{
    if rows.len() == 0 {
        Seq::empty()
    } else if rows.last().updated_at.before(t) {
        swept(rows.drop_last(), t)
    } else {
        swept(rows.drop_last(), t).push(rows.last())
    }
}

/// The rows after a whole write at time `t`: the batch upserted, then the
/// sweep.
pub open spec fn written(rows: Seq<StoredRowView>, batch: Seq<PostalCodeView>, t: TimestampView) -> Seq<
    StoredRowView,
> {
    swept(after_batch(rows, batch, t), t)
}

/// The number of rows whose update stamp is `t`.
pub open spec fn touched_count(rows: Seq<StoredRowView>, t: TimestampView) -> nat
    decreases rows.len(),
{
    if rows.len() == 0 {
        0
    } else if rows.last().updated_at == t {
        touched_count(rows.drop_last(), t) + 1
    } else {
        touched_count(rows.drop_last(), t)
    }
}

/// The number of rows whose update stamp and creation stamp are `t`.
pub open spec fn inserted_count(rows: Seq<StoredRowView>, t: TimestampView) -> nat
    decreases rows.len(),
{
    if rows.len() == 0 {
        0
    } else if rows.last().updated_at == t && rows.last().created_at == t {
        inserted_count(rows.drop_last(), t) + 1
    } else {
        inserted_count(rows.drop_last(), t)
    }
}

/// A copy of the live table at one moment.
#[derive(Debug)]
pub struct Snapshot {
    rows: Vec<StoredRow>,
}

impl View for Snapshot {
    type V = Seq<StoredRowView>;

    closed spec fn view(&self) -> Seq<StoredRowView> {
        rows_view(self.rows@)
    }
}

impl Snapshot {
    #[verifier::type_invariant]
    spec fn well_formed(&self) -> bool {
        rows_distinct(rows_view(self.rows@))
    }

    /// The number of rows of the snapshot.
    pub fn len(&self) -> (count: usize)
        ensures
            count == self@.len(),
    {
        self.rows.len()
    }

    /// The rows of the snapshot, in order.
    pub fn rows(&self) -> (rows: &Vec<StoredRow>)
        ensures
            rows_view(rows@) == self@,
    {
        &self.rows
    }
}

/// The live table.
#[derive(Debug)]
pub struct LiveTable {
    rows: Vec<StoredRow>,
}

impl View for LiveTable {
    type V = Seq<StoredRowView>;

    closed spec fn view(&self) -> Seq<StoredRowView> {
        rows_view(self.rows@)
    }
}

/// A copy of the rows.
fn copy_rows(rows: &Vec<StoredRow>) -> (copy: Vec<StoredRow>)
    ensures
        rows_view(copy@) == rows_view(rows@),
{
    let mut copy: Vec<StoredRow> = Vec::new();
    let mut i: usize = 0;
    while i < rows.len()
        invariant
            i <= rows.len(),
            rows_view(copy@) == rows_view(rows@).take(i as int),
        decreases rows.len() - i,
    {
        let ghost before = rows_view(copy@);
        copy.push(rows[i].clone());
        assert(rows_view(copy@) =~= before.push(rows[i as int]@));
        assert(before.push(rows[i as int]@) =~= rows_view(rows@).take(i + 1));
        i = i + 1;
    }
    assert(rows_view(rows@).take(rows.len() as int) =~= rows_view(rows@));
    copy
}

impl LiveTable {
    /// The table is well formed: no two rows share a primary key. Every
    /// table that this module hands out is, and every operation keeps it so.
    pub open spec fn wf(&self) -> bool {
        rows_distinct(self@)
    }

    /// An empty table.
    pub fn new() -> (table: LiveTable)
        ensures
            table.wf(),
            table@.len() == 0,
    {
        LiveTable { rows: Vec::new() }
    }

    /// The number of rows.
    pub fn len(&self) -> (count: usize)
        ensures
            count == self@.len(),
    {
        self.rows.len()
    }

    /// The rows, in the order in which their keys were first written.
    pub fn rows(&self) -> (rows: &Vec<StoredRow>)
        ensures
            rows_view(rows@) == self@,
    {
        &self.rows
    }

    /// Writes one record at time `t`: a row with its key has prefecture,
    /// town and update stamp replaced; else a row is added with both
    /// stamps `t`.
    pub fn upsert(&mut self, record: &PostalCode, t: Timestamp)
        requires
            old(self).wf(),
        ensures
            final(self).wf(),
            final(self)@ == upserted(old(self)@, record@, t@),
    {
        let ghost before = rows_view(self.rows@);
        let ghost key = record@.primary_key();
        let mut j: usize = 0;
        while j < self.rows.len()
            invariant
                j <= self.rows.len(),
                before == rows_view(self.rows@),
                self.rows == old(self).rows,
                rows_distinct(before),
                key == record@.primary_key(),
                forall|k: int| 0 <= k < j ==> (#[trigger] before[k]).record.primary_key() != key,
            decreases self.rows.len() - j,
        {
            assert(before[j as int] == self.rows[j as int]@);
            if self.rows[j].record.same_primary_key(record) {
                proof {
                    assert(before[j as int].record.primary_key() == key);
                    assert(has_key(before, key));
                    let at = index_of(before, key);
                    if at != j {
                        if at < j {
                            assert(before[at].record.primary_key() != before[j as int].record.primary_key());
                        } else {
                            assert(before[j as int].record.primary_key() != before[at].record.primary_key());
                        }
                    }
                    lemma_upserted_distinct(before, record@, t@);
                }
                let existing = &self.rows[j];
                let row = StoredRow {
                    record: PostalCode {
                        zip_code: existing.record.zip_code.clone(),
                        prefecture_id: existing.record.prefecture_id,
                        city_id: existing.record.city_id.clone(),
                        prefecture: record.prefecture.clone(),
                        city: existing.record.city.clone(),
                        town: record.town.clone(),
                    },
                    created_at: existing.created_at,
                    updated_at: t,
                };
                self.rows.set(j, row);
                assert(rows_view(self.rows@) =~= upserted(before, record@, t@));
                return ;
            }
            j = j + 1;
        }
        proof {
            assert(!has_key(before, key));
            lemma_upserted_distinct(before, record@, t@);
        }
        self.rows.push(StoredRow { record: record.clone(), created_at: t, updated_at: t });
        assert(rows_view(self.rows@) =~= upserted(before, record@, t@));
    }

    /// Writes a batch at time `t`, record by record.
    pub fn upsert_batch(&mut self, batch: &Vec<PostalCode>, t: Timestamp)
        requires
            old(self).wf(),
        ensures
            final(self).wf(),
            final(self)@ == after_batch(old(self)@, records_view(batch@), t@),
    {
        let ghost all = records_view(batch@);
        let mut i: usize = 0;
        assert(all.take(0) =~= Seq::<PostalCodeView>::empty());
        while i < batch.len()
            invariant
                i <= batch.len(),
                all == records_view(batch@),
                self.wf(),
                self@ == after_batch(old(self)@, all.take(i as int), t@),
            decreases batch.len() - i,
        {
            proof {
                assert(all.take(i + 1).drop_last() =~= all.take(i as int));
                assert(all.take(i + 1).last() == batch[i as int]@);
            }
            self.upsert(&batch[i], t);
            i = i + 1;
        }
        assert(all.take(batch.len() as int) =~= all);
    }

    /// Deletes the rows stamped before `t`, and says how many they were.
    pub fn sweep(&mut self, t: Timestamp) -> (deleted: usize)
        requires
            old(self).wf(),
        ensures
            final(self).wf(),
            final(self)@ == swept(old(self)@, t@),
            deleted == old(self)@.len() - final(self)@.len(),
    {
        let ghost before = rows_view(self.rows@);
        let mut kept: Vec<StoredRow> = Vec::new();
        let mut i: usize = 0;
        assert(before.take(0) =~= Seq::<StoredRowView>::empty());
        assert(rows_view(kept@) =~= Seq::<StoredRowView>::empty());
        while i < self.rows.len()
            invariant
                i <= self.rows.len(),
                before == rows_view(self.rows@),
                self.rows == old(self).rows,
                rows_view(kept@) == swept(before.take(i as int), t@),
                kept@.len() <= i,
            decreases self.rows.len() - i,
        {
            let ghost so_far = rows_view(kept@);
            proof {
                assert(before.take(i + 1).drop_last() =~= before.take(i as int));
                assert(before.take(i + 1).last() == self.rows[i as int]@);
            }
            if !self.rows[i].updated_at.is_before(&t) {
                kept.push(self.rows[i].clone());
                assert(rows_view(kept@) =~= so_far.push(self.rows[i as int]@));
            }
            i = i + 1;
        }
        proof {
            assert(before.take(self.rows.len() as int) =~= before);
            lemma_swept_distinct(before, t@);
        }
        let deleted = self.rows.len() - kept.len();
        self.rows = kept;
        deleted
    }

    /// Writes a batch at time `t` and sweeps what the run did not touch.
    /// The result is the number of rows that the sweep deleted.
    pub fn write(&mut self, batch: &Vec<PostalCode>, t: Timestamp) -> (deleted: usize)
        requires
            old(self).wf(),
        ensures
            final(self).wf(),
            final(self)@ == written(old(self)@, records_view(batch@), t@),
            deleted == after_batch(old(self)@, records_view(batch@), t@).len() - final(self)@.len(),
    {
        self.upsert_batch(batch, t);
        self.sweep(t)
    }

    /// The counts of the run stamped `t`: the rows it inserted, the rows
    /// it updated, and all rows. The inserted and the updated rows together
    /// are the rows that the run touched.
    pub fn diff_counts(&self, t: Timestamp) -> (counts: (usize, usize, usize))
        ensures
            counts.0 == inserted_count(self@, t@),
            counts.1 == updated_of(
                touched_count(self@, t@) as int,
                inserted_count(self@, t@) as int,
            ),
            counts.2 == self@.len(),
            counts.0 + counts.1 == touched_count(self@, t@),
            touched_count(self@, t@) <= self@.len(),
    {
        let ghost all = rows_view(self.rows@);
        let mut touched: usize = 0;
        let mut inserted: usize = 0;
        let mut i: usize = 0;
        assert(all.take(0) =~= Seq::<StoredRowView>::empty());
        while i < self.rows.len()
            invariant
                i <= self.rows.len(),
                all == rows_view(self.rows@),
                touched == touched_count(all.take(i as int), t@),
                inserted == inserted_count(all.take(i as int), t@),
                inserted <= touched <= i,
            decreases self.rows.len() - i,
        {
            proof {
                assert(all.take(i + 1).drop_last() =~= all.take(i as int));
                assert(all.take(i + 1).last() == self.rows[i as int]@);
            }
            if self.rows[i].updated_at.is_same(&t) {
                touched = touched + 1;
                if self.rows[i].created_at.is_same(&t) {
                    inserted = inserted + 1;
                }
            }
            i = i + 1;
        }
        assert(all.take(self.rows.len() as int) =~= all);
        (inserted, touched - inserted, self.rows.len())
    }

    /// A copy of the table as it stands.
    pub fn snapshot(&self) -> (copy: Snapshot)
        requires
            self.wf(),
        ensures
            copy@ == self@,
    {
        Snapshot { rows: copy_rows(&self.rows) }
    }

    /// Replaces the rows of the table by those of the snapshot, and says how
    /// many rows were restored.
    pub fn restore(&mut self, snapshot: &Snapshot) -> (restored: usize)
        ensures
            final(self).wf(),
            final(self)@ == snapshot@,
            restored == snapshot@.len(),
    {
        proof {
            use_type_invariant(snapshot);
        }
        self.rows = copy_rows(&snapshot.rows);
        self.rows.len()
    }
}

/// Writing a record keeps the keys of a table distinct.
pub proof fn lemma_upserted_distinct(rows: Seq<StoredRowView>, record: PostalCodeView, t: TimestampView)
    requires
        rows_distinct(rows),
    ensures
        rows_distinct(upserted(rows, record, t)),
{
    let key = record.primary_key();
    let result = upserted(rows, record, t);
    if has_key(rows, key) {
        let at = index_of(rows, key);
        assert(result[at].record.primary_key() == rows[at].record.primary_key());
        assert forall|i: int, j: int| 0 <= i < j < result.len() implies (
        #[trigger] result[i]).record.primary_key() != (#[trigger] result[j]).record.primary_key() by {
            assert(result[i].record.primary_key() == rows[i].record.primary_key());
            assert(result[j].record.primary_key() == rows[j].record.primary_key());
        }
    } else {
        assert forall|i: int, j: int| 0 <= i < j < result.len() implies (
        #[trigger] result[i]).record.primary_key() != (#[trigger] result[j]).record.primary_key() by {
            if j == rows.len() {
                assert(rows[i].record.primary_key() != key);
            } else {
                assert(result[i] == rows[i] && result[j] == rows[j]);
            }
        }
    }
}

/// Every row that a sweep leaves was there before, in the same order.
pub proof fn lemma_swept_rows(rows: Seq<StoredRowView>, t: TimestampView)
    ensures
        swept(rows, t).len() <= rows.len(),
        forall|k: int|
            0 <= k < swept(rows, t).len() ==> !(#[trigger] swept(rows, t)[k]).updated_at.before(t)
                && has_key(rows, swept(rows, t)[k].record.primary_key()),
        forall|i: int|
            0 <= i < rows.len() && !(#[trigger] rows[i]).updated_at.before(t) ==> exists|k: int|
                0 <= k < swept(rows, t).len() && swept(rows, t)[k] == rows[i],
        forall|k: int|
            0 <= k < swept(rows, t).len() ==> exists|i: int|
                0 <= i < rows.len() && rows[i] == #[trigger] swept(rows, t)[k],
    decreases rows.len(),
{
    if rows.len() > 0 {
        let earlier = rows.drop_last();
        lemma_swept_rows(earlier, t);
        let kept = swept(earlier, t);
        let result = swept(rows, t);
        assert forall|k: int| 0 <= k < result.len() implies !(#[trigger] result[k]).updated_at.before(
            t,
        ) && has_key(rows, result[k].record.primary_key()) && (exists|i: int|
            0 <= i < rows.len() && rows[i] == result[k]) by {
            if k < kept.len() {
                assert(result[k] == kept[k]);
                let i = choose|i: int| 0 <= i < earlier.len() && earlier[i] == kept[k];
                assert(rows[i] == result[k]);
            } else {
                assert(result[k] == rows[rows.len() - 1]);
            }
        }
        assert forall|i: int| 0 <= i < rows.len() && !(#[trigger] rows[i]).updated_at.before(
            t,
        ) implies exists|k: int| 0 <= k < result.len() && result[k] == rows[i] by {
            if i < earlier.len() {
                assert(earlier[i] == rows[i]);
                let k = choose|k: int| 0 <= k < kept.len() && kept[k] == earlier[i];
                assert(result[k] == rows[i]);
            } else {
                assert(result[result.len() - 1] == rows[i]);
            }
        }
    }
}

/// A sweep keeps the keys of a table distinct.
pub proof fn lemma_swept_distinct(rows: Seq<StoredRowView>, t: TimestampView)
    requires
        rows_distinct(rows),
    ensures
        rows_distinct(swept(rows, t)),
    decreases rows.len(),
{
    if rows.len() > 0 {
        let earlier = rows.drop_last();
        assert(rows_distinct(earlier)) by {
            assert forall|i: int, j: int| 0 <= i < j < earlier.len() implies (
            #[trigger] earlier[i]).record.primary_key() != (
            #[trigger] earlier[j]).record.primary_key() by {
                assert(earlier[i] == rows[i] && earlier[j] == rows[j]);
            }
        }
        lemma_swept_distinct(earlier, t);
        lemma_swept_rows(earlier, t);
        let kept = swept(earlier, t);
        let result = swept(rows, t);
        if !rows.last().updated_at.before(t) {
            assert forall|i: int, j: int| 0 <= i < j < result.len() implies (
            #[trigger] result[i]).record.primary_key() != (
            #[trigger] result[j]).record.primary_key() by {
                if j == kept.len() {
                    assert(result[i] == kept[i]);
                    let at = choose|at: int| 0 <= at < earlier.len() && earlier[at] == kept[i];
                    assert(rows[at] == kept[i]);
                    assert(rows[at].record.primary_key() != rows[rows.len()
                        - 1].record.primary_key());
                } else {
                    assert(result[i] == kept[i] && result[j] == kept[j]);
                }
            }
        }
    }
}

} // verus!
