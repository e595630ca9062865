//! What holds of every write to the live table.

use vstd::prelude::*;

use crate::audit::updated_of;
use crate::models::{PostalCodeView, PrimaryKey};
use crate::store::table::{
    after_batch,
    fresh,
    has_key,
    index_of,
    inserted_count,
    lemma_swept_distinct,
    lemma_swept_rows,
    lemma_upserted_distinct,
    restamped,
    rows_distinct,
    swept,
    touched_count,
    upserted,
    written,
    StoredRowView,
};
use crate::timestamp::TimestampView;

verus! {

/// The row that is stored under the key.
pub open spec fn row_at(rows: Seq<StoredRowView>, key: PrimaryKey) -> StoredRowView {
    rows[index_of(rows, key)]
}

/// Whether a key is the key of one of the records of a batch.
pub open spec fn batch_has_key(batch: Seq<PostalCodeView>, key: PrimaryKey) -> bool {
    exists|j: int| 0 <= j < batch.len() && (#[trigger] batch[j]).primary_key() == key
}

/// The prefecture of the last record of a batch with the key.
pub open spec fn last_prefecture(batch: Seq<PostalCodeView>, key: PrimaryKey) -> Seq<char>
    decreases batch.len(),
{
    if batch.len() == 0 {
        Seq::empty()
    } else if batch.last().primary_key() == key {
        batch.last().prefecture
    } else {
        last_prefecture(batch.drop_last(), key)
    }
}

/// A row with another prefecture.
pub open spec fn with_prefecture(row: StoredRowView, prefecture: Seq<char>) -> StoredRowView {
    StoredRowView { record: PostalCodeView { prefecture, ..row.record }, ..row }
}

/// In a table with distinct keys, the row under the key of the row at `i`
/// is the row at `i`.
pub proof fn lemma_index_unique(rows: Seq<StoredRowView>, i: int)
    requires
        rows_distinct(rows),
        0 <= i < rows.len(),
    ensures
        has_key(rows, rows[i].record.primary_key()),
        index_of(rows, rows[i].record.primary_key()) == i,
{
    let key = rows[i].record.primary_key();
    assert(has_key(rows, key));
    let at = index_of(rows, key);
    if at < i {
        assert(rows[at].record.primary_key() != rows[i].record.primary_key());
    } else if i < at {
        assert(rows[i].record.primary_key() != rows[at].record.primary_key());
    }
}

/// A write of one record leaves its row stamped `t` under its key, and
/// leaves every other key as it was.
pub proof fn lemma_upsert_effect(
    rows: Seq<StoredRowView>,
    record: PostalCodeView,
    t: TimestampView,
    key: PrimaryKey,
)
    requires
        rows_distinct(rows),
    ensures
        rows_distinct(upserted(rows, record, t)),
        has_key(upserted(rows, record, t), record.primary_key()),
        row_at(upserted(rows, record, t), record.primary_key()).updated_at == t,
        row_at(upserted(rows, record, t), record.primary_key()).record.prefecture
            == record.prefecture,
        key != record.primary_key() ==> has_key(upserted(rows, record, t), key) == has_key(
            rows,
            key,
        ),
        key != record.primary_key() && has_key(rows, key) ==> row_at(
            upserted(rows, record, t),
            key,
        ) == row_at(rows, key),
{
    let own = record.primary_key();
    let result = upserted(rows, record, t);
    lemma_upserted_distinct(rows, record, t);
    if has_key(rows, own) {
        let at = index_of(rows, own);
        assert(result[at].record.primary_key() == own);
        lemma_index_unique(result, at);
        assert forall|i: int| 0 <= i < rows.len() implies (#[trigger] result[i]).record.primary_key()
            == rows[i].record.primary_key() by {}
        if key != own {
            if has_key(rows, key) {
                let k = index_of(rows, key);
                assert(result[k] == rows[k]);
                lemma_index_unique(result, k);
            }
            if has_key(result, key) {
                let k = index_of(result, key);
                assert(rows[k].record.primary_key() == key);
            }
        }
    } else {
        let at = rows.len() as int;
        assert(result[at] == fresh(record, t));
        lemma_index_unique(result, at);
        if key != own {
            if has_key(rows, key) {
                let k = index_of(rows, key);
                assert(result[k] == rows[k]);
                lemma_index_unique(result, k);
            }
            if has_key(result, key) {
                let k = index_of(result, key);
                assert(k < rows.len());
                assert(rows[k].record.primary_key() == key);
            }
        }
    }
}

/// A write of a batch keeps the keys of the table distinct.
pub proof fn lemma_after_batch_distinct(
    rows: Seq<StoredRowView>,
    batch: Seq<PostalCodeView>,
    t: TimestampView,
)
    requires
        rows_distinct(rows),
    ensures
        rows_distinct(after_batch(rows, batch, t)),
    decreases batch.len(),
{
    if batch.len() > 0 {
        lemma_after_batch_distinct(rows, batch.drop_last(), t);
        lemma_upserted_distinct(after_batch(rows, batch.drop_last(), t), batch.last(), t);
    }
}

/// After a batch is written at time `t`, every record of the batch has a
/// row under its key with update stamp `t`.
pub proof fn lemma_batch_rows_are_stamped(
    rows: Seq<StoredRowView>,
    batch: Seq<PostalCodeView>,
    t: TimestampView,
    j: int,
)
    requires
        rows_distinct(rows),
        0 <= j < batch.len(),
    ensures
        has_key(after_batch(rows, batch, t), batch[j].primary_key()),
        row_at(after_batch(rows, batch, t), batch[j].primary_key()).updated_at == t,
        row_at(after_batch(rows, batch, t), batch[j].primary_key()).record.prefecture
            == last_prefecture(batch, batch[j].primary_key()),
    decreases batch.len(),
{
    let earlier = after_batch(rows, batch.drop_last(), t);
    lemma_after_batch_distinct(rows, batch.drop_last(), t);
    lemma_upsert_effect(earlier, batch.last(), t, batch[j].primary_key());
    if batch.last().primary_key() != batch[j].primary_key() {
        assert(batch.drop_last()[j] == batch[j]);
        lemma_batch_rows_are_stamped(rows, batch.drop_last(), t, j);
    }
}

/// A write of a batch leaves every key that is not in the batch as it was.
pub proof fn lemma_batch_leaves_other_keys(
    rows: Seq<StoredRowView>,
    batch: Seq<PostalCodeView>,
    t: TimestampView,
    key: PrimaryKey,
)
    requires
        rows_distinct(rows),
        !batch_has_key(batch, key),
    ensures
        has_key(after_batch(rows, batch, t), key) == has_key(rows, key),
        has_key(rows, key) ==> row_at(after_batch(rows, batch, t), key) == row_at(rows, key),
    decreases batch.len(),
{
    if batch.len() > 0 {
        let earlier = after_batch(rows, batch.drop_last(), t);
        assert(!batch_has_key(batch.drop_last(), key)) by {
            if batch_has_key(batch.drop_last(), key) {
                let j = choose|j: int|
                    0 <= j < batch.drop_last().len() && (#[trigger] batch.drop_last()[j]).primary_key()
                        == key;
                assert(batch[j].primary_key() == key);
            }
        }
        lemma_batch_leaves_other_keys(rows, batch.drop_last(), t, key);
        lemma_after_batch_distinct(rows, batch.drop_last(), t);
        assert(batch[batch.len() - 1].primary_key() != key);
        lemma_upsert_effect(earlier, batch.last(), t, key);
    }
}

/// A sweep of a table in which no row is stamped before `t` changes
/// nothing.
pub proof fn lemma_sweep_of_current(rows: Seq<StoredRowView>, t: TimestampView)
    requires
        forall|i: int| 0 <= i < rows.len() ==> !(#[trigger] rows[i]).updated_at.before(t),
    ensures
        swept(rows, t) == rows,
    decreases rows.len(),
{
    if rows.len() > 0 {
        assert forall|i: int| 0 <= i < rows.drop_last().len() implies !(
        #[trigger] rows.drop_last()[i]).updated_at.before(t) by {
            assert(rows.drop_last()[i] == rows[i]);
        }
        lemma_sweep_of_current(rows.drop_last(), t);
        assert(!rows[rows.len() - 1].updated_at.before(t));
        assert(rows.drop_last().push(rows.last()) =~= rows);
    }
}

/// A sweep at time `t` keeps exactly the keys whose rows are not stamped
/// before `t`, with their rows unchanged.
pub proof fn lemma_sweep_effect(rows: Seq<StoredRowView>, t: TimestampView, key: PrimaryKey)
    requires
        rows_distinct(rows),
    ensures
        rows_distinct(swept(rows, t)),
        has_key(swept(rows, t), key) <==> has_key(rows, key) && !row_at(rows, key).updated_at.before(
            t,
        ),
        has_key(swept(rows, t), key) ==> row_at(swept(rows, t), key) == row_at(rows, key),
{
    let kept = swept(rows, t);
    lemma_swept_distinct(rows, t);
    lemma_swept_rows(rows, t);
    if has_key(kept, key) {
        let k = index_of(kept, key);
        let i = choose|i: int| 0 <= i < rows.len() && rows[i] == kept[k];
        lemma_index_unique(rows, i);
    }
    if has_key(rows, key) && !row_at(rows, key).updated_at.before(t) {
        let i = index_of(rows, key);
        let k = choose|k: int| 0 <= k < kept.len() && kept[k] == rows[i];
        lemma_index_unique(kept, k);
    }
}

/// After a write at time `t`, every record of the batch is in the table
/// with update stamp `t`.
pub proof fn lemma_written_holds_batch(
    rows: Seq<StoredRowView>,
    batch: Seq<PostalCodeView>,
    t: TimestampView,
    j: int,
)
    requires
        rows_distinct(rows),
        0 <= j < batch.len(),
    ensures
        has_key(written(rows, batch, t), batch[j].primary_key()),
        row_at(written(rows, batch, t), batch[j].primary_key()).updated_at == t,
        row_at(written(rows, batch, t), batch[j].primary_key()).record.prefecture
            == last_prefecture(batch, batch[j].primary_key()),
{
    lemma_batch_rows_are_stamped(rows, batch, t, j);
    lemma_after_batch_distinct(rows, batch, t);
    lemma_sweep_effect(after_batch(rows, batch, t), t, batch[j].primary_key());
}

/// A row whose key is not in the batch is removed by a write at time `t`
/// exactly when it is stamped before `t`; one that stays is unchanged.
pub proof fn lemma_sweep_removes_stale_rows(
    rows: Seq<StoredRowView>,
    batch: Seq<PostalCodeView>,
    t: TimestampView,
    key: PrimaryKey,
)
    requires
        rows_distinct(rows),
        has_key(rows, key),
        !batch_has_key(batch, key),
    ensures
        !has_key(written(rows, batch, t), key) <==> row_at(rows, key).updated_at.before(t),
        has_key(written(rows, batch, t), key) ==> row_at(written(rows, batch, t), key) == row_at(
            rows,
            key,
        ),
{
    lemma_batch_leaves_other_keys(rows, batch, t, key);
    lemma_after_batch_distinct(rows, batch, t);
    lemma_sweep_effect(after_batch(rows, batch, t), t, key);
}

/// A write adds no key that is neither in the table nor in the batch.
pub proof fn lemma_write_adds_only_batch_keys(
    rows: Seq<StoredRowView>,
    batch: Seq<PostalCodeView>,
    t: TimestampView,
    key: PrimaryKey,
)
    requires
        rows_distinct(rows),
        !has_key(rows, key),
        !batch_has_key(batch, key),
    ensures
        !has_key(written(rows, batch, t), key),
{
    lemma_batch_leaves_other_keys(rows, batch, t, key);
    lemma_after_batch_distinct(rows, batch, t);
    lemma_sweep_effect(after_batch(rows, batch, t), t, key);
}

/// A write of a batch whose keys are all in the table, stamped `t`
/// already, moves no row and changes of each row at most the prefecture,
/// which becomes that of the last record of the batch with the row's key.
pub proof fn lemma_rewrite_effect(
    rows: Seq<StoredRowView>,
    batch: Seq<PostalCodeView>,
    t: TimestampView,
)
    requires
        rows_distinct(rows),
        forall|j: int|
            0 <= j < batch.len() ==> has_key(rows, (#[trigger] batch[j]).primary_key()) && row_at(
                rows,
                batch[j].primary_key(),
            ).updated_at == t,
    ensures
        after_batch(rows, batch, t).len() == rows.len(),
        rows_distinct(after_batch(rows, batch, t)),
        forall|i: int|
            0 <= i < rows.len() ==> #[trigger] after_batch(rows, batch, t)[i] == if batch_has_key(
                batch,
                rows[i].record.primary_key(),
            ) {
                with_prefecture(rows[i], last_prefecture(batch, rows[i].record.primary_key()))
            } else {
                rows[i]
            },
    decreases batch.len(),
{
    if batch.len() > 0 {
        let shorter = batch.drop_last();
        let last = batch.last();
        assert forall|j: int| 0 <= j < shorter.len() implies has_key(
            rows,
            (#[trigger] shorter[j]).primary_key(),
        ) && row_at(rows, shorter[j].primary_key()).updated_at == t by {
            assert(shorter[j] == batch[j]);
        }
        lemma_rewrite_effect(rows, shorter, t);
        let middle = after_batch(rows, shorter, t);
        let result = after_batch(rows, batch, t);
        assert(batch[batch.len() - 1] == last);
        let at = index_of(rows, last.primary_key());
        assert(middle[at].record.primary_key() == last.primary_key());
        lemma_index_unique(middle, at);
        assert(result == middle.update(at, restamped(middle[at], last, t)));
        assert(batch_has_key(batch, last.primary_key()));
        assert forall|i: int| 0 <= i < rows.len() implies #[trigger] result[i] == if batch_has_key(
            batch,
            rows[i].record.primary_key(),
        ) {
            with_prefecture(rows[i], last_prefecture(batch, rows[i].record.primary_key()))
        } else {
            rows[i]
        } by {
            let key = rows[i].record.primary_key();
            if i == at {
                lemma_index_unique(rows, at);
            } else {
                lemma_index_unique(rows, i);
                assert(key != last.primary_key());
                if batch_has_key(batch, key) {
                    let j = choose|j: int|
                        0 <= j < batch.len() && (#[trigger] batch[j]).primary_key() == key;
                    assert(shorter[j] == batch[j]);
                    assert(batch_has_key(shorter, key));
                }
                if batch_has_key(shorter, key) {
                    let j = choose|j: int|
                        0 <= j < shorter.len() && (#[trigger] shorter[j]).primary_key() == key;
                    assert(batch[j].primary_key() == key);
                }
            }
        }
        assert forall|i: int, j: int| 0 <= i < j < result.len() implies (
        #[trigger] result[i]).record.primary_key() != (#[trigger] result[j]).record.primary_key() by {
            assert(result[i].record.primary_key() == rows[i].record.primary_key());
            assert(result[j].record.primary_key() == rows[j].record.primary_key());
        }
    }
}

/// Writing the same batch a second time at the same time leaves the table
/// exactly as the first write left it, stamps included.
pub proof fn lemma_write_is_idempotent(
    rows: Seq<StoredRowView>,
    batch: Seq<PostalCodeView>,
    t: TimestampView,
)
    requires
        rows_distinct(rows),
    ensures
        written(written(rows, batch, t), batch, t) == written(rows, batch, t),
{
    let once = written(rows, batch, t);
    lemma_after_batch_distinct(rows, batch, t);
    lemma_swept_distinct(after_batch(rows, batch, t), t);
    assert forall|j: int| 0 <= j < batch.len() implies has_key(
        once,
        (#[trigger] batch[j]).primary_key(),
    ) && row_at(once, batch[j].primary_key()).updated_at == t by {
        lemma_written_holds_batch(rows, batch, t, j);
    }
    lemma_rewrite_effect(once, batch, t);
    let twice = after_batch(once, batch, t);
    assert forall|i: int| 0 <= i < once.len() implies twice[i] == once[i] by {
        let key = once[i].record.primary_key();
        lemma_index_unique(once, i);
        if batch_has_key(batch, key) {
            let j = choose|j: int|
                0 <= j < batch.len() && (#[trigger] batch[j]).primary_key() == key;
            lemma_written_holds_batch(rows, batch, t, j);
        }
    }
    assert(twice =~= once);
    lemma_swept_rows(after_batch(rows, batch, t), t);
    lemma_sweep_of_current(once, t);
}

/// The rows that a run inserted are among those it touched, and those
/// among all rows; so the inserted and the updated count add up to the
/// touched count.
pub proof fn lemma_counts_add_up(rows: Seq<StoredRowView>, t: TimestampView)
    ensures
        inserted_count(rows, t) <= touched_count(rows, t) <= rows.len(),
        inserted_count(rows, t) + updated_of(
            touched_count(rows, t) as int,
            inserted_count(rows, t) as int,
        ) == touched_count(rows, t),
    decreases rows.len(),
{
    if rows.len() > 0 {
        lemma_counts_add_up(rows.drop_last(), t);
    }
}

} // verus!
