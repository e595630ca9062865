//! Stitching of towns that the feed splits over adjacent rows, and removal
//! of records that repeat a primary key.

use std::collections::HashMap;
use vstd::prelude::*;
use vstd::string::StringExecFns;

use crate::models::{PostalCode, PostalCodeView};

verus! {

/// A raw record together with the continuation flag of its row.
pub type FlaggedView = (PostalCodeView, bool);

/// The views of a list of records, in order.
pub open spec fn records_view(records: Seq<PostalCode>) -> Seq<PostalCodeView> {
    Seq::new(records.len(), |i: int| records[i]@)
}

/// The views of a list of flagged records, in order.
pub open spec fn flagged_view(rows: Seq<(PostalCode, bool)>) -> Seq<FlaggedView> {
    Seq::new(rows.len(), |i: int| (rows[i].0@, rows[i].1))
}

/// Whether an incoming row continues the pending one: both carry the flag,
/// and they share zip code and city id.
pub open spec fn continues(pending: FlaggedView, incoming: FlaggedView) -> bool {
    pending.1 && incoming.1 && pending.0.zip_code == incoming.0.zip_code && pending.0.city_id
        == incoming.0.city_id
}

/// The pending record after it has taken in the town of a continuation row.
pub open spec fn absorb(pending: FlaggedView, incoming: FlaggedView) -> FlaggedView {
    (pending.0.with_town(pending.0.town + incoming.0.town), pending.1)
}

/// What is emitted for the rows that are left, given the pending record: a
/// row that continues the pending record is taken into it; any other row
/// has the pending record emitted and becomes the pending one; at the end
/// the pending record is emitted.
pub open spec fn merge_from(pending: Option<FlaggedView>, rows: Seq<FlaggedView>) -> Seq<
    PostalCodeView,
>
    decreases rows.len(),
{
    if rows.len() == 0 {
        match pending {
            Some(p) => seq![p.0],
            None => Seq::empty(),
        }
    } else {
        match pending {
            Some(p) => if continues(p, rows[0]) {
                merge_from(Some(absorb(p, rows[0])), rows.drop_first())
            } else {
                seq![p.0] + merge_from(Some(rows[0]), rows.drop_first())
            },
            None => merge_from(Some(rows[0]), rows.drop_first()),
        }
    }
}

/// The records that a run of flagged rows merges into.
pub open spec fn merged(rows: Seq<FlaggedView>) -> Seq<PostalCodeView> {
    merge_from(None, rows)
}

/// Two consecutive rows that share zip code and city id merge into one
/// record, whose town is the two towns joined, exactly when both carry the
/// flag; when either lacks it, both records are emitted unchanged.
pub proof fn lemma_pair_merges_iff_both_flagged(first: FlaggedView, second: FlaggedView)
    requires
        first.0.zip_code == second.0.zip_code,
        first.0.city_id == second.0.city_id,
    ensures
        first.1 && second.1 ==> merged(seq![first, second]) == seq![
            first.0.with_town(first.0.town + second.0.town),
        ],
        !(first.1 && second.1) ==> merged(seq![first, second]) == seq![first.0, second.0],
        merged(seq![first, second]).len() == 1 <==> first.1 && second.1,
{
    let rows = seq![first, second];
    let tail = rows.drop_first();
    assert(tail =~= seq![second]);
    assert(tail.drop_first() =~= Seq::<FlaggedView>::empty());
    assert(rows[0] == first);
    assert(tail[0] == second);
    reveal_with_fuel(merge_from, 4);
    if first.1 && second.1 {
        assert(merged(rows) =~= seq![first.0.with_town(first.0.town + second.0.town)]);
    } else {
        assert(merged(rows) =~= seq![first.0, second.0]);
    }
}

/// Two rows that differ in zip code or in city id never merge, whatever
/// their flags.
pub proof fn lemma_pair_of_different_places_never_merges(first: FlaggedView, second: FlaggedView)
    requires
        first.0.zip_code != second.0.zip_code || first.0.city_id != second.0.city_id,
    ensures
        merged(seq![first, second]) == seq![first.0, second.0],
{
    let rows = seq![first, second];
    let tail = rows.drop_first();
    assert(tail =~= seq![second]);
    assert(tail.drop_first() =~= Seq::<FlaggedView>::empty());
    assert(rows[0] == first);
    assert(tail[0] == second);
    reveal_with_fuel(merge_from, 4);
    assert(merged(rows) =~= seq![first.0, second.0]);
}

/// Merging never makes more records than there are rows.
pub proof fn lemma_merged_is_no_longer(rows: Seq<FlaggedView>)
    ensures
        merged(rows).len() <= rows.len(),
{
    if rows.len() > 0 {
        lemma_merged_after(rows[0], rows.drop_first());
    }
}

proof fn lemma_merged_after(pending: FlaggedView, rows: Seq<FlaggedView>)
    ensures
        merge_from(Some(pending), rows).len() <= rows.len() + 1,
    decreases rows.len(),
{
    if rows.len() > 0 {
        if continues(pending, rows[0]) {
            lemma_merged_after(absorb(pending, rows[0]), rows.drop_first());
        } else {
            lemma_merged_after(rows[0], rows.drop_first());
        }
    }
}

/// Rows without the flag are never merged: each becomes a record of its
/// own, in order.
pub proof fn lemma_unflagged_rows_stay_apart(pending: Option<FlaggedView>, rows: Seq<FlaggedView>)
    requires
        forall|i: int| 0 <= i < rows.len() ==> !(#[trigger] rows[i]).1,
    ensures
        merge_from(pending, rows) == match pending {
            Some(p) => seq![p.0] + Seq::new(rows.len(), |i: int| rows[i].0),
            None => Seq::new(rows.len(), |i: int| rows[i].0),
        },
    decreases rows.len(),
{
    let records = Seq::new(rows.len(), |i: int| rows[i].0);
    if rows.len() == 0 {
        match pending {
            Some(p) => {
                assert(seq![p.0] + records =~= seq![p.0]);
            },
            None => {
                assert(records =~= Seq::<PostalCodeView>::empty());
            },
        }
    } else {
        let rest = rows.drop_first();
        let rest_records = Seq::new(rest.len(), |i: int| rest[i].0);
        assert forall|i: int| 0 <= i < rest.len() implies !(#[trigger] rest[i]).1 by {
            assert(rest[i] == rows[i + 1]);
        }
        assert(!rows[0].1);
        lemma_unflagged_rows_stay_apart(Some(rows[0]), rest);
        assert(seq![rows[0].0] + rest_records =~= records);
        match pending {
            Some(p) => {
                assert(seq![p.0] + (seq![rows[0].0] + rest_records) =~= seq![p.0] + records);
            },
            None => {},
        }
    }
}

/// Merges the rows of the feed, in order, into canonical records.
pub fn merge_continuations(rows: Vec<(PostalCode, bool)>) -> (records: Vec<PostalCode>)
    ensures
        records_view(records@) == merged(flagged_view(rows@)),
{
    let ghost all = flagged_view(rows@);
    let mut records: Vec<PostalCode> = Vec::new();
    let mut pending: Option<(PostalCode, bool)> = None;
    let mut i: usize = 0;
    assert(all.skip(0) =~= all);
    assert(records_view(records@) + merge_from(None, all) =~= merged(all));
    while i < rows.len()
        invariant
            i <= rows.len(),
            all == flagged_view(rows@),
            records_view(records@) + merge_from(
                match pending {
                    Some(p) => Some((p.0@, p.1)),
                    None => None,
                },
                all.skip(i as int),
            ) == merged(all),
        decreases rows.len() - i,
    {
        let ghost rest = all.skip(i as int);
        let ghost before = records_view(records@);
        proof {
            assert(rest.drop_first() =~= all.skip(i + 1));
            assert(rest[0] == (rows[i as int].0@, rows[i as int].1));
        }
        let current = rows[i].0.clone();
        let flag = rows[i].1;
        match pending {
            Some((mut kept, kept_flag)) => {
                if kept_flag && flag && kept.zip_code == current.zip_code && kept.city_id
                    == current.city_id {
                    kept.town.append(current.town.as_str());
                    pending = Some((kept, kept_flag));
                } else {
                    let ghost emitted = kept@;
                    records.push(kept);
                    pending = Some((current, flag));
                    proof {
                        assert(records_view(records@) =~= before + seq![emitted]);
                        assert((before + seq![emitted]) + merge_from(
                            Some(rest[0]),
                            rest.drop_first(),
                        ) =~= before + (seq![emitted] + merge_from(
                            Some(rest[0]),
                            rest.drop_first(),
                        )));
                    }
                }
            },
            None => {
                pending = Some((current, flag));
            },
        }
        i = i + 1;
    }
    assert(all.skip(rows.len() as int) =~= Seq::<FlaggedView>::empty());
    let ghost before = records_view(records@);
    match pending {
        Some((last, _)) => {
            let ghost emitted = last@;
            records.push(last);
            assert(records_view(records@) =~= before + seq![emitted]);
        },
        None => {
            assert(before + Seq::<PostalCodeView>::empty() =~= before);
        },
    }
    records
}

/// Whether a key is the primary key of one of the records.
pub open spec fn holds_key(records: Seq<PostalCodeView>, key: crate::models::PrimaryKey) -> bool {
    exists|j: int| 0 <= j < records.len() && (#[trigger] records[j]).primary_key() == key
}

/// The records without those that repeat the primary key of an earlier one:
/// of the records with one key the first stays, and the order is kept.
pub open spec fn deduplicated(records: Seq<PostalCodeView>) -> Seq<PostalCodeView>
    decreases records.len(),
{
    if records.len() == 0 {
        Seq::empty()
    } else {
        let earlier = deduplicated(records.drop_last());
        if holds_key(earlier, records.last().primary_key()) {
            earlier
        } else {
            earlier.push(records.last())
        }
    }
}

/// Whether no two records share a primary key.
pub open spec fn keys_distinct(records: Seq<PostalCodeView>) -> bool {
    forall|i: int, j: int|
        0 <= i < j < records.len() ==> (#[trigger] records[i]).primary_key() != (
        #[trigger] records[j]).primary_key()
}

/// After deduplication no two records are equal on the primary key.
pub proof fn lemma_deduplicated_keys_distinct(records: Seq<PostalCodeView>)
    ensures
        keys_distinct(deduplicated(records)),
    decreases records.len(),
{
    if records.len() > 0 {
        lemma_deduplicated_keys_distinct(records.drop_last());
    }
}

/// Deduplication loses no key and invents none: a key is held after it
/// exactly when it was held before.
pub proof fn lemma_deduplicated_keeps_keys(
    records: Seq<PostalCodeView>,
    key: crate::models::PrimaryKey,
)
    ensures
        holds_key(deduplicated(records), key) == holds_key(records, key),
    decreases records.len(),
{
    if records.len() > 0 {
        let earlier = records.drop_last();
        let kept = deduplicated(earlier);
        lemma_deduplicated_keeps_keys(earlier, key);
        lemma_deduplicated_keeps_keys(earlier, records.last().primary_key());
        if holds_key(records, key) {
            let j = choose|j: int|
                0 <= j < records.len() && (#[trigger] records[j]).primary_key() == key;
            if j < records.len() - 1 {
                assert(earlier[j].primary_key() == key);
            }
            if holds_key(kept, key) {
                let k = choose|k: int|
                    0 <= k < kept.len() && (#[trigger] kept[k]).primary_key() == key;
                assert(deduplicated(records)[k].primary_key() == key);
            } else {
                assert(j == records.len() - 1);
                assert(deduplicated(records) == kept.push(records.last()));
                assert(deduplicated(records)[kept.len() as int].primary_key() == key);
            }
        }
        if holds_key(deduplicated(records), key) {
            let k = choose|k: int|
                0 <= k < deduplicated(records).len() && (#[trigger] deduplicated(
                    records,
                )[k]).primary_key() == key;
            if k < kept.len() {
                assert(kept[k].primary_key() == key);
                let j = choose|j: int|
                    0 <= j < earlier.len() && (#[trigger] earlier[j]).primary_key() == key;
                assert(records[j].primary_key() == key);
            } else {
                assert(records[records.len() - 1].primary_key() == key);
            }
        }
    }
}

/// Whether `part` is what is left of `whole` when some of its records are
/// taken out and the others keep their order.
pub open spec fn is_subsequence(part: Seq<PostalCodeView>, whole: Seq<PostalCodeView>) -> bool
    decreases whole.len(),
{
    if part.len() == 0 {
        true
    } else if whole.len() == 0 {
        false
    } else {
        (part.last() == whole.last() && is_subsequence(part.drop_last(), whole.drop_last()))
            || is_subsequence(part, whole.drop_last())
    }
}

/// How many of the records are stored under the key.
pub open spec fn key_count(records: Seq<PostalCodeView>, key: crate::models::PrimaryKey) -> nat
    decreases records.len(),
{
    if records.len() == 0 {
        0
    } else if records.last().primary_key() == key {
        key_count(records.drop_last(), key) + 1
    } else {
        key_count(records.drop_last(), key)
    }
}

/// Deduplication only takes records out: what it leaves are records of the
/// list, in the order of the list.
pub proof fn lemma_deduplicated_is_subsequence(records: Seq<PostalCodeView>)
    ensures
        is_subsequence(deduplicated(records), records),
    decreases records.len(),
{
    if records.len() > 0 {
        let earlier = deduplicated(records.drop_last());
        lemma_deduplicated_is_subsequence(records.drop_last());
        if !holds_key(earlier, records.last().primary_key()) {
            assert(earlier.push(records.last()).drop_last() =~= earlier);
        }
    }
}

/// After deduplication every key of the list is the key of exactly one
/// record, and no other key is the key of any.
pub proof fn lemma_deduplicated_holds_each_key_once(
    records: Seq<PostalCodeView>,
    key: crate::models::PrimaryKey,
)
    ensures
        key_count(deduplicated(records), key) == if holds_key(records, key) {
            1nat
        } else {
            0nat
        },
    decreases records.len(),
{
    if records.len() > 0 {
        let shorter = records.drop_last();
        let earlier = deduplicated(shorter);
        let last = records.last();
        lemma_deduplicated_holds_each_key_once(shorter, key);
        lemma_deduplicated_keeps_keys(shorter, key);
        lemma_deduplicated_keeps_keys(shorter, last.primary_key());
        if holds_key(shorter, key) {
            let j = choose|j: int|
                0 <= j < shorter.len() && (#[trigger] shorter[j]).primary_key() == key;
            assert(records[j].primary_key() == key);
        }
        if holds_key(records, key) && last.primary_key() != key {
            let j = choose|j: int|
                0 <= j < records.len() && (#[trigger] records[j]).primary_key() == key;
            assert(shorter[j].primary_key() == key);
        }
        if last.primary_key() == key {
            assert(records[records.len() - 1].primary_key() == key);
        }
        if !holds_key(earlier, last.primary_key()) {
            assert(earlier.push(last).drop_last() =~= earlier);
        }
    }
}

/// A list without repeated keys is left as it is.
pub proof fn lemma_deduplicated_of_distinct(records: Seq<PostalCodeView>)
    requires
        keys_distinct(records),
    ensures
        deduplicated(records) == records,
    decreases records.len(),
{
    if records.len() > 0 {
        let earlier = records.drop_last();
        lemma_deduplicated_of_distinct(earlier);
        if holds_key(earlier, records.last().primary_key()) {
            let j = choose|j: int|
                0 <= j < earlier.len() && (#[trigger] earlier[j]).primary_key()
                    == records.last().primary_key();
            assert(records[j].primary_key() != records[records.len() - 1].primary_key());
        }
        assert(earlier.push(records.last()) =~= records);
    }
}

/// A number mixed from a number so far and one more value.
pub closed spec fn mixed(so_far: u64, value: u64) -> u64 {
    so_far.wrapping_mul(31).wrapping_add(value)
}

/// A number that depends on the starting number and the text alone.
pub closed spec fn text_hash(start: u64, text: Seq<char>) -> u64
    decreases text.len(),
{
    if text.len() == 0 {
        start
    } else {
        text_hash(mixed(start, text[0] as u32 as u64), text.drop_first())
    }
}

/// A number that depends on the primary key alone: records with one key
/// have one number, and the records are looked for under it.
pub closed spec fn key_hash(key: crate::models::PrimaryKey) -> u64 {
    text_hash(text_hash(mixed(text_hash(17, key.0), (key.1 + 32768) as u64), key.2), key.3)
}

fn hash_text(start: u64, text: &str) -> (hash: u64)
    ensures
        hash == text_hash(start, text@),
{
    let mut hash = start;
    assert(text@.skip(0) =~= text@);
    for c in iter: text.chars()
        invariant
            iter.seq() == text@,
            text_hash(start, text@) == text_hash(hash, text@.skip(iter.index() as int)),
    {
        proof {
            let rest = text@.skip(iter.index() as int);
            assert(rest[0] == c);
            assert(rest.drop_first() =~= text@.skip(iter.index() + 1));
        }
        hash = hash.wrapping_mul(31).wrapping_add(c as u32 as u64);
    }
    assert(text@.skip(text@.len() as int) =~= Seq::<char>::empty());
    hash
}

fn hash_key(record: &PostalCode) -> (hash: u64)
    ensures
        hash == key_hash(record@.primary_key()),
{
    let zip = hash_text(17, record.zip_code.as_str());
    let id: u64 = (record.prefecture_id as i32 + 32768) as u64;
    let with_id = zip.wrapping_mul(31).wrapping_add(id);
    hash_text(hash_text(with_id, record.city.as_str()), record.town.as_str())
}

/// Whether a list of places holds the place.
spec fn lists(places: Seq<usize>, place: int) -> bool {
    exists|n: int| 0 <= n < places.len() && #[trigger] places[n] == place
}

/// Whether every kept record is listed under the number of its key, and
/// nothing is listed that is not kept.
spec fn listed(buckets: Map<u64, Vec<usize>>, kept: Seq<PostalCodeView>) -> bool {
    &&& forall|j: int|
        0 <= j < kept.len() ==> buckets.contains_key(key_hash((#[trigger] kept[j]).primary_key()))
            && lists(buckets[key_hash(kept[j].primary_key())]@, j)
    &&& forall|h: u64, k: int|
        buckets.contains_key(h) && 0 <= k < buckets[h]@.len() ==> (#[trigger] buckets[h]@[k])
            < kept.len()
}

/// Whether one of the records is stored under the key of `candidate`.
fn key_taken(
    buckets: &HashMap<u64, Vec<usize>>,
    hash: u64,
    kept: &Vec<PostalCode>,
    candidate: &PostalCode,
) -> (taken: bool)
    requires
        hash == key_hash(candidate@.primary_key()),
        listed(buckets@, records_view(kept@)),
    ensures
        taken == holds_key(records_view(kept@), candidate@.primary_key()),
{
    broadcast use vstd::std_specs::hash::group_hash_axioms;

    let ghost views = records_view(kept@);
    let ghost key = candidate@.primary_key();
    match buckets.get(&hash) {
        Some(bucket) => {
            let mut k: usize = 0;
            while k < bucket.len()
                invariant
                    k <= bucket.len(),
                    views == records_view(kept@),
                    key == candidate@.primary_key(),
                    buckets@.contains_key(hash),
                    bucket == buckets@[hash],
                    listed(buckets@, views),
                    forall|n: int| 0 <= n < k ==> (#[trigger] views[bucket@[n] as int]).primary_key()
                        != key,
                decreases bucket.len() - k,
            {
                let j = bucket[k];
                assert(j < kept.len());
                if kept[j].same_primary_key(candidate) {
                    assert(views[j as int].primary_key() == key);
                    return true;
                }
                k = k + 1;
            }
            proof {
                if holds_key(views, key) {
                    let j = choose|j: int|
                        0 <= j < views.len() && (#[trigger] views[j]).primary_key() == key;
                    assert(lists(bucket@, j));
                    let n = choose|n: int| 0 <= n < bucket@.len() && #[trigger] bucket@[n] == j;
                    assert(views[bucket@[n] as int].primary_key() != key);
                }
            }
            false
        },
        None => {
            proof {
                if holds_key(views, key) {
                    let j = choose|j: int|
                        0 <= j < views.len() && (#[trigger] views[j]).primary_key() == key;
                    assert(buckets@.contains_key(key_hash(views[j].primary_key())));
                }
            }
            false
        },
    }
}

/// Removes the records that repeat the primary key of an earlier record.
pub fn dedup_by_primary_key(records: Vec<PostalCode>) -> (kept: Vec<PostalCode>)
    ensures
        records_view(kept@) == deduplicated(records_view(records@)),
        keys_distinct(records_view(kept@)),
{
    broadcast use vstd::std_specs::hash::group_hash_axioms;

    let ghost all = records_view(records@);
    let mut kept: Vec<PostalCode> = Vec::new();
    let mut buckets: HashMap<u64, Vec<usize>> = HashMap::new();
    let mut i: usize = 0;
    assert(all.take(0) =~= Seq::<PostalCodeView>::empty());
    assert(records_view(kept@) =~= Seq::<PostalCodeView>::empty());
    while i < records.len()
        invariant
            i <= records.len(),
            all == records_view(records@),
            records_view(kept@) == deduplicated(all.take(i as int)),
            listed(buckets@, records_view(kept@)),
            kept@.len() <= i,
        decreases records.len() - i,
    {
        let ghost before = records_view(kept@);
        let ghost old_buckets = buckets@;
        proof {
            assert(all.take(i + 1).drop_last() =~= all.take(i as int));
            assert(all.take(i + 1).last() == records[i as int]@);
        }
        let hash = hash_key(&records[i]);
        if !key_taken(&buckets, hash, &kept, &records[i]) {
            let at = kept.len();
            kept.push(records[i].clone());
            let mut bucket = match buckets.remove(&hash) {
                Some(bucket) => bucket,
                None => Vec::new(),
            };
            let ghost old_bucket = bucket@;
            bucket.push(at);
            buckets.insert(hash, bucket);
            proof {
                let after = records_view(kept@);
                assert(after =~= before.push(records[i as int]@));
                assert(buckets@[hash]@ == old_bucket.push(at));
                assert(old_buckets.contains_key(hash) ==> old_bucket == old_buckets[hash]@);
                assert(!old_buckets.contains_key(hash) ==> old_bucket.len() == 0);
                assert forall|j: int| 0 <= j < after.len() implies buckets@.contains_key(
                    key_hash((#[trigger] after[j]).primary_key()),
                ) && lists(buckets@[key_hash(after[j].primary_key())]@, j) by {
                    let h = key_hash(after[j].primary_key());
                    if j == at {
                        assert(buckets@[hash]@[old_bucket.len() as int] == at);
                    } else {
                        assert(after[j] == before[j]);
                        assert(old_buckets.contains_key(h) && lists(old_buckets[h]@, j));
                        if h == hash {
                            let n = choose|n: int|
                                0 <= n < old_bucket.len() && #[trigger] old_bucket[n] == j;
                            assert(buckets@[hash]@[n] == j);
                        } else {
                            assert(buckets@[h] == old_buckets[h]);
                        }
                    }
                }
                assert forall|h: u64, k: int|
                    buckets@.contains_key(h) && 0 <= k < buckets@[h]@.len() implies (
                #[trigger] buckets@[h]@[k]) < after.len() by {
                    if h == hash {
                        if k < old_bucket.len() {
                            assert(buckets@[h]@[k] == old_bucket[k]);
                            assert(old_buckets[h]@[k] < before.len());
                        }
                    } else {
                        assert(buckets@[h] == old_buckets[h]);
                        assert(old_buckets[h]@[k] < before.len());
                    }
                }
            }
        }
        i = i + 1;
    }
    proof {
        assert(all.take(records.len() as int) =~= all);
        lemma_deduplicated_keys_distinct(all);
    }
    kept
}

} // verus!
