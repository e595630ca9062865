//! The read operations on the live table: lookup by zip code, the lists of
//! prefectures and cities, and the address search.

use vstd::prelude::*;

use crate::api::{CityResponse, PrefectureResponse};
use crate::feed::merge::records_view;
use crate::models::{PostalCode, PostalCodeView};
use crate::search::engine::{
    gathered_with,
    lemma_gathered_from_rows,
    lemma_gathered_with,
    limit_of,
    records_distinct,
    search_mode_of,
    SearchMode,
    SearchPlan,
};
use crate::search::normalize::{candidates_of, normalize, normalized, texts_view};
use crate::store::table::{LiveTable, StoredRowView};
use crate::text::chars_of;

verus! {

/// Whether the needle stands in the text at the given place.
pub open spec fn occurs_at(text: Seq<char>, needle: Seq<char>, at: int) -> bool {
    0 <= at && at + needle.len() <= text.len() && text.subrange(at, at + needle.len()) == needle
}

/// Whether the needle stands somewhere in the text.
pub open spec fn contains_text(text: Seq<char>, needle: Seq<char>) -> bool {
    exists|at: int| occurs_at(text, needle, at)
}

/// Whether a column matches a candidate: it equals it, starts with it, or
/// holds it somewhere, as the mode says.
pub open spec fn column_matches(mode: SearchMode, column: Seq<char>, candidate: Seq<char>) -> bool {
    match mode {
        SearchMode::Exact => column == candidate,
        SearchMode::Prefix => occurs_at(column, candidate, 0),
        SearchMode::Partial => contains_text(column, candidate),
    }
}

/// Whether a record matches a candidate in its prefecture, its city or its
/// town.
pub open spec fn record_matches(mode: SearchMode, record: PostalCodeView, candidate: Seq<char>) -> bool {
    column_matches(mode, record.prefecture, candidate) || column_matches(
        mode,
        record.city,
        candidate,
    ) || column_matches(mode, record.town, candidate)
}

/// The records of the first rows, up to `limit`, that match a candidate.
pub open spec fn matching_records(
    rows: Seq<StoredRowView>,
    mode: SearchMode,
    candidate: Seq<char>,
    limit: nat,
) -> Seq<PostalCodeView>
    decreases rows.len(),
{
    if rows.len() == 0 {
        Seq::empty()
    } else {
        let earlier = matching_records(rows.drop_last(), mode, candidate, limit);
        if earlier.len() < limit && record_matches(mode, rows.last().record, candidate) {
            earlier.push(rows.last().record)
        } else {
            earlier
        }
    }
}

/// The records of the rows with the zip code, in order.
pub open spec fn records_with_zip(rows: Seq<StoredRowView>, zip: Seq<char>) -> Seq<PostalCodeView>
    decreases rows.len(),
{
    if rows.len() == 0 {
        Seq::empty()
    } else if rows.last().record.zip_code == zip {
        records_with_zip(rows.drop_last(), zip).push(rows.last().record)
    } else {
        records_with_zip(rows.drop_last(), zip)
    }
}

/// What a search gathers over the candidates, asked in order: each
/// candidate adds the records that match it and are not gathered yet, and
/// nothing is asked once the limit is reached.
pub open spec fn search_over(
    rows: Seq<StoredRowView>,
    mode: SearchMode,
    candidates: Seq<Seq<char>>,
    limit: nat,
) -> Seq<PostalCodeView>
    decreases candidates.len(),
{
    if candidates.len() == 0 {
        Seq::empty()
    } else {
        let earlier = search_over(rows, mode, candidates.drop_last(), limit);
        if earlier.len() >= limit {
            earlier
        } else {
            gathered_with(
                earlier,
                matching_records(rows, mode, candidates.last(), (limit - earlier.len()) as nat),
                limit,
            )
        }
    }
}

/// Whether a record is the record of one of the rows.
pub open spec fn is_record_of(rows: Seq<StoredRowView>, record: PostalCodeView) -> bool {
    exists|i: int| 0 <= i < rows.len() && (#[trigger] rows[i]).record == record
}

/// Whether a record matches one of the candidates.
pub open spec fn matches_one_of(
    mode: SearchMode,
    record: PostalCodeView,
    candidates: Seq<Seq<char>>,
) -> bool {
    exists|c: int| 0 <= c < candidates.len() && record_matches(mode, record, #[trigger] candidates[c])
}

/// Every record that matches is the record of a row and matches the
/// candidate, and there are no more of them than the limit.
pub proof fn lemma_matching_records(
    rows: Seq<StoredRowView>,
    mode: SearchMode,
    candidate: Seq<char>,
    limit: nat,
)
    ensures
        matching_records(rows, mode, candidate, limit).len() <= limit,
        forall|k: int|
            0 <= k < matching_records(rows, mode, candidate, limit).len() ==> record_matches(
                mode,
                #[trigger] matching_records(rows, mode, candidate, limit)[k],
                candidate,
            ) && is_record_of(rows, matching_records(rows, mode, candidate, limit)[k]),
    decreases rows.len(),
{
    if rows.len() > 0 {
        lemma_matching_records(rows.drop_last(), mode, candidate, limit);
        let earlier = matching_records(rows.drop_last(), mode, candidate, limit);
        let result = matching_records(rows, mode, candidate, limit);
        assert forall|k: int| 0 <= k < result.len() implies record_matches(
            mode,
            #[trigger] result[k],
            candidate,
        ) && is_record_of(rows, result[k]) by {
            if k < earlier.len() {
                assert(result[k] == earlier[k]);
                let i = choose|i: int|
                    0 <= i < rows.drop_last().len() && (#[trigger] rows.drop_last()[i]).record
                        == earlier[k];
                assert(rows[i].record == result[k]);
            } else {
                assert(rows[rows.len() - 1].record == result[k]);
            }
        }
    }
}

/// Every record that a search finds is the record of a row of the table
/// and matches one of the candidates.
pub proof fn lemma_search_finds_matches(
    rows: Seq<StoredRowView>,
    mode: SearchMode,
    candidates: Seq<Seq<char>>,
    limit: nat,
)
    ensures
        forall|k: int|
            0 <= k < search_over(rows, mode, candidates, limit).len() ==> matches_one_of(
                mode,
                #[trigger] search_over(rows, mode, candidates, limit)[k],
                candidates,
            ) && is_record_of(rows, search_over(rows, mode, candidates, limit)[k]),
    decreases candidates.len(),
{
    if candidates.len() > 0 {
        let shorter = candidates.drop_last();
        lemma_search_finds_matches(rows, mode, shorter, limit);
        let earlier = search_over(rows, mode, shorter, limit);
        let result = search_over(rows, mode, candidates, limit);
        let last = candidates.last();
        let answer = matching_records(rows, mode, last, (limit - earlier.len()) as nat);
        if earlier.len() < limit {
            lemma_matching_records(rows, mode, last, (limit - earlier.len()) as nat);
            lemma_gathered_with(earlier, answer, limit);
            lemma_gathered_from_rows(earlier, answer, limit);
        }
        assert forall|k: int| 0 <= k < result.len() implies matches_one_of(
            mode,
            #[trigger] result[k],
            candidates,
        ) && is_record_of(rows, result[k]) by {
            if k < earlier.len() {
                assert(result[k] == earlier[k]) by {
                    if earlier.len() < limit {
                        assert(result.take(earlier.len() as int)[k] == earlier[k]);
                    }
                }
                let c = choose|c: int|
                    0 <= c < shorter.len() && record_matches(mode, earlier[k], #[trigger] shorter[c]);
                assert(candidates[c] == shorter[c]);
            } else {
                let j = choose|j: int| 0 <= j < answer.len() && #[trigger] answer[j] == result[k];
                assert(record_matches(mode, answer[j], last));
                assert(candidates[candidates.len() - 1] == last);
            }
        }
    }
}

fn occurs_here(text: &Vec<char>, needle: &Vec<char>, at: usize) -> (found: bool)
    ensures
        found == occurs_at(text@, needle@, at as int),
{
    if needle.len() > text.len() || at > text.len() - needle.len() {
        return false;
    }
    let mut k: usize = 0;
    while k < needle.len()
        invariant
            k <= needle.len(),
            at + needle.len() <= text.len(),
            forall|j: int| 0 <= j < k ==> text@[at + j] == needle@[j],
        decreases needle.len() - k,
    {
        if text[at + k] != needle[k] {
            assert(text@.subrange(at as int, at + needle.len())[k as int] != needle@[k as int]);
            return false;
        }
        k = k + 1;
    }
    assert(text@.subrange(at as int, at + needle.len()) =~= needle@);
    true
}

fn contains_here(text: &Vec<char>, needle: &Vec<char>) -> (found: bool)
    ensures
        found == contains_text(text@, needle@),
{
    if needle.len() > text.len() {
        return false;
    }
    let last: usize = text.len() - needle.len();
    let mut at: usize = 0;
    loop
        invariant
            at <= last,
            last == text.len() - needle.len(),
            needle.len() <= text.len(),
            forall|j: int| 0 <= j < at ==> !occurs_at(text@, needle@, j),
        ensures
            forall|j: int| 0 <= j <= last ==> !occurs_at(text@, needle@, j),
        decreases last - at,
    {
        if occurs_here(text, needle, at) {
            return true;
        }
        if at == last {
            break ;
        }
        at = at + 1;
    }
    false
}

fn column_matches_here(mode: SearchMode, column: &str, candidate: &Vec<char>) -> (found: bool)
    ensures
        found == column_matches(mode, column@, candidate@),
{
    let text = chars_of(column);
    match mode {
        SearchMode::Exact => {
            let same = text.len() == candidate.len() && occurs_here(&text, candidate, 0);
            proof {
                if text.len() == candidate.len() {
                    assert(text@.subrange(0, text@.len() as int) =~= text@);
                }
            }
            same
        },
        SearchMode::Prefix => occurs_here(&text, candidate, 0),
        SearchMode::Partial => contains_here(&text, candidate),
    }
}

fn record_matches_here(mode: SearchMode, record: &PostalCode, candidate: &Vec<char>) -> (found:
    bool)
    ensures
        found == record_matches(mode, record@, candidate@),
{
    column_matches_here(mode, record.prefecture.as_str(), candidate) || column_matches_here(
        mode,
        record.city.as_str(),
        candidate,
    ) || column_matches_here(mode, record.town.as_str(), candidate)
}

/// The records under a zip code, in the order of the table.
pub fn get_by_zip(table: &LiveTable, zip: &str) -> (found: Vec<PostalCode>)
    ensures
        records_view(found@) == records_with_zip(table@, zip@),
{
    let rows = table.rows();
    let ghost all = table@;
    let mut found: Vec<PostalCode> = Vec::new();
    let mut i: usize = 0;
    assert(all.take(0) =~= Seq::<StoredRowView>::empty());
    assert(records_view(found@) =~= Seq::<PostalCodeView>::empty());
    while i < rows.len()
        invariant
            i <= rows.len(),
            all == crate::store::table::rows_view(rows@),
            records_view(found@) == records_with_zip(all.take(i as int), zip@),
        decreases rows.len() - i,
    {
        let ghost before = records_view(found@);
        proof {
            assert(all.take(i + 1).drop_last() =~= all.take(i as int));
            assert(all.take(i + 1).last() == rows[i as int]@);
        }
        if rows[i].record.zip_code.as_str().eq(zip) {
            found.push(rows[i].record.clone());
            assert(records_view(found@) =~= before.push(rows[i as int].record@));
        }
        i = i + 1;
    }
    assert(all.take(rows.len() as int) =~= all);
    found
}

/// The first records, up to `limit`, that match a candidate, in the order
/// of the table.
pub fn select_matching(table: &LiveTable, mode: SearchMode, candidate: &str, limit: usize) -> (found:
    Vec<PostalCode>)
    ensures
        records_view(found@) == matching_records(table@, mode, candidate@, limit as nat),
{
    let rows = table.rows();
    let needle = chars_of(candidate);
    let ghost all = table@;
    let mut found: Vec<PostalCode> = Vec::new();
    let mut i: usize = 0;
    assert(all.take(0) =~= Seq::<StoredRowView>::empty());
    assert(records_view(found@) =~= Seq::<PostalCodeView>::empty());
    while i < rows.len()
        invariant
            i <= rows.len(),
            needle@ == candidate@,
            all == crate::store::table::rows_view(rows@),
            records_view(found@) == matching_records(
                all.take(i as int),
                mode,
                candidate@,
                limit as nat,
            ),
        decreases rows.len() - i,
    {
        let ghost before = records_view(found@);
        proof {
            assert(all.take(i + 1).drop_last() =~= all.take(i as int));
            assert(all.take(i + 1).last() == rows[i as int]@);
        }
        if found.len() < limit && record_matches_here(mode, &rows[i].record, &needle) {
            found.push(rows[i].record.clone());
            assert(records_view(found@) =~= before.push(rows[i as int].record@));
        }
        i = i + 1;
    }
    assert(all.take(rows.len() as int) =~= all);
    found
}

/// Searches the table for an address: the input is normalized, its
/// candidates are asked in order, and the records that match are gathered
/// without repeats up to the limit.
pub fn search(table: &LiveTable, address: &str, limit: Option<i64>, mode: Option<&str>) -> (found:
    Vec<PostalCode>)
    ensures
        records_view(found@) == search_over(
            table@,
            search_mode_of(
                match mode {
                    Some(n) => Some(n@),
                    None => None,
                },
            ),
            candidates_of(normalized(address@)),
            limit_of(
                match limit {
                    Some(n) => Some(n as int),
                    None => None,
                },
            ),
        ),
        found@.len() <= limit_of(
            match limit {
                Some(n) => Some(n as int),
                None => None,
            },
        ),
        records_distinct(records_view(found@)),
{
    let normal = normalize(address);
    let mut plan = SearchPlan::new(normal.as_str(), limit, mode);
    let ghost forms = texts_view(plan.candidates@);
    let ghost rows = table@;
    let ghost mode_asked = plan.mode;
    let ghost limit_asked = plan.limit;
    assert(forms.take(0) =~= Seq::<Seq<char>>::empty());
    assert(records_view(plan.results@) =~= Seq::<PostalCodeView>::empty());
    loop
        invariant
            plan.wf(),
            rows == table@,
            forms == texts_view(plan.candidates@),
            plan.mode == mode_asked,
            plan.limit == limit_asked,
            records_view(plan.results@) == search_over(
                rows,
                mode_asked,
                forms.take(plan.tried as int),
                limit_asked as nat,
            ),
        ensures
            plan.wf(),
            plan.limit == limit_asked,
            records_view(plan.results@) == search_over(rows, mode_asked, forms, limit_asked as nat),
        decreases plan.candidates@.len() - plan.tried,
    {
        if plan.tried >= plan.candidates.len() || plan.results.len() >= plan.limit {
            proof {
                lemma_search_stops(rows, plan.mode, forms, plan.limit as nat, plan.tried as int);
            }
            break ;
        }
        let remaining = plan.limit - plan.results.len();
        let answer = select_matching(
            table,
            plan.mode,
            plan.candidates[plan.tried].as_str(),
            remaining,
        );
        proof {
            let k = plan.tried as int;
            assert(forms.take(k + 1).drop_last() =~= forms.take(k));
            assert(forms.take(k + 1).last() == plan.candidates@[k]@);
        }
        plan.absorb(answer);
    }
    plan.into_results()
}

/// Once the limit is reached after some candidates, the candidates that
/// are left add nothing; and when all candidates are tried, the search is
/// over.
proof fn lemma_search_stops(
    rows: Seq<StoredRowView>,
    mode: SearchMode,
    candidates: Seq<Seq<char>>,
    limit: nat,
    tried: int,
)
    requires
        0 <= tried <= candidates.len(),
        tried == candidates.len() || search_over(rows, mode, candidates.take(tried), limit).len()
            >= limit,
    ensures
        search_over(rows, mode, candidates, limit) == search_over(
            rows,
            mode,
            candidates.take(tried),
            limit,
        ),
    decreases candidates.len() - tried,
{
    if tried == candidates.len() {
        assert(candidates.take(tried) =~= candidates);
    } else {
        let next = candidates.take(tried + 1);
        assert(next.drop_last() =~= candidates.take(tried));
        lemma_search_stops(rows, mode, candidates, limit, tried + 1);
    }
}

/// One prefecture of the list: its id and its label.
pub type PrefecturePair = (int, Seq<char>);

/// The pairs of a list of prefectures.
pub open spec fn prefectures_view(list: Seq<PrefectureResponse>) -> Seq<PrefecturePair> {
    Seq::new(list.len(), |i: int| (list[i].prefecture_id as int, list[i].prefecture@))
}

/// Where a prefecture with the id goes in the list: behind the last one
/// whose id is not larger.
pub open spec fn place_for_id(list: Seq<PrefecturePair>, id: int) -> int
    decreases list.len(),
{
    if list.len() == 0 {
        0
    } else if list.last().0 <= id {
        list.len() as int
    } else {
        place_for_id(list.drop_last(), id)
    }
}

/// The list with a prefecture taken in: unchanged where it holds the pair
/// already, else with the pair at its place.
pub open spec fn with_prefecture(list: Seq<PrefecturePair>, pair: PrefecturePair) -> Seq<
    PrefecturePair,
> {
    if list.contains(pair) {
        list
    } else {
        list.insert(place_for_id(list, pair.0), pair)
    }
}

/// The distinct prefectures of the rows, by ascending id; two labels under
/// one id stand in the order in which the table first holds them.
pub open spec fn prefectures_of(rows: Seq<StoredRowView>) -> Seq<PrefecturePair>
    decreases rows.len(),
{
    if rows.len() == 0 {
        Seq::empty()
    } else {
        with_prefecture(
            prefectures_of(rows.drop_last()),
            (rows.last().record.prefecture_id, rows.last().record.prefecture),
        )
    }
}

/// Whether the ids of a list never fall.
pub open spec fn ids_ascending(list: Seq<PrefecturePair>) -> bool {
    forall|i: int, j: int| 0 <= i < j < list.len() ==> list[i].0 <= list[j].0
}

/// The place for an id lies within the list, the ids before it are not
/// larger and, in an ascending list, those from it on are larger.
proof fn lemma_place_for_id(list: Seq<PrefecturePair>, id: int)
    ensures
        0 <= place_for_id(list, id) <= list.len(),
        place_for_id(list, id) > 0 ==> list[place_for_id(list, id) - 1].0 <= id,
        forall|k: int| place_for_id(list, id) <= k < list.len() ==> list[k].0 > id,
    decreases list.len(),
{
    if list.len() > 0 && list.last().0 > id {
        lemma_place_for_id(list.drop_last(), id);
        assert forall|k: int| place_for_id(list, id) <= k < list.len() implies list[k].0
            > id by {
            if k < list.len() - 1 {
                assert(list.drop_last()[k] == list[k]);
            }
        }
        if place_for_id(list, id) > 0 {
            assert(list.drop_last()[place_for_id(list, id) - 1] == list[place_for_id(list, id)
                - 1]);
        }
    }
}

/// The list of prefectures is ascending by id, holds no pair twice, and
/// holds exactly the pairs of the rows.
pub proof fn lemma_prefectures_of(rows: Seq<StoredRowView>)
    ensures
        ids_ascending(prefectures_of(rows)),
        prefectures_of(rows).no_duplicates(),
        forall|pair: PrefecturePair|
            prefectures_of(rows).contains(pair) <==> exists|i: int|
                0 <= i < rows.len() && (#[trigger] rows[i]).record.prefecture_id == pair.0
                    && rows[i].record.prefecture == pair.1,
    decreases rows.len(),
{
    if rows.len() > 0 {
        let earlier = rows.drop_last();
        lemma_prefectures_of(earlier);
        let list = prefectures_of(earlier);
        let pair = (rows.last().record.prefecture_id, rows.last().record.prefecture);
        let result = prefectures_of(rows);
        let at = place_for_id(list, pair.0);
        lemma_place_for_id(list, pair.0);
        if !list.contains(pair) {
            assert forall|i: int, j: int| 0 <= i < j < result.len() implies result[i].0
                <= result[j].0 by {
                if j < at {
                    assert(result[i] == list[i] && result[j] == list[j]);
                } else if j == at {
                    assert(result[i] == list[i]);
                    if i < at - 1 {
                        assert(list[i].0 <= list[at - 1].0);
                    }
                } else if i < at {
                    assert(result[i] == list[i] && result[j] == list[j - 1]);
                } else if i == at {
                    assert(result[j] == list[j - 1]);
                } else {
                    assert(result[i] == list[i - 1] && result[j] == list[j - 1]);
                }
            }
            assert forall|i: int, j: int| 0 <= i < result.len() && 0 <= j < result.len() && i
                != j implies result[i] != result[j] by {
                let a = if i < at { i } else { i - 1 };
                let b = if j < at { j } else { j - 1 };
                if i == at {
                    assert(result[j] == list[b]);
                    assert(list.contains(list[b]));
                } else if j == at {
                    assert(result[i] == list[a]);
                    assert(list.contains(list[a]));
                } else {
                    assert(result[i] == list[a] && result[j] == list[b]);
                }
            }
        }
        assert forall|p: PrefecturePair| result.contains(p) <==> exists|i: int|
            0 <= i < rows.len() && (#[trigger] rows[i]).record.prefecture_id == p.0
                && rows[i].record.prefecture == p.1 by {
            if result.contains(p) {
                let k = choose|k: int| 0 <= k < result.len() && result[k] == p;
                if list.contains(pair) || k != at {
                    let b = if list.contains(pair) || k < at { k } else { k - 1 };
                    assert(list[b] == p);
                    assert(list.contains(p));
                    let i = choose|i: int|
                        0 <= i < earlier.len() && (#[trigger] earlier[i]).record.prefecture_id
                            == p.0 && earlier[i].record.prefecture == p.1;
                    assert(rows[i] == earlier[i]);
                } else {
                    assert(rows[rows.len() - 1].record.prefecture_id == p.0);
                }
            }
            if exists|i: int|
                0 <= i < rows.len() && (#[trigger] rows[i]).record.prefecture_id == p.0
                    && rows[i].record.prefecture == p.1 {
                let i = choose|i: int|
                    0 <= i < rows.len() && (#[trigger] rows[i]).record.prefecture_id == p.0
                        && rows[i].record.prefecture == p.1;
                if i < earlier.len() {
                    assert(earlier[i] == rows[i]);
                    assert(list.contains(p));
                    let k = choose|k: int| 0 <= k < list.len() && list[k] == p;
                    if list.contains(pair) {
                        assert(result[k] == p);
                    } else if k < at {
                        assert(result[k] == p);
                    } else {
                        assert(result[k + 1] == p);
                    }
                } else {
                    assert(p == pair);
                    if list.contains(pair) {
                    } else {
                        assert(result[at] == p);
                    }
                }
            }
        }
    }
}

/// The distinct prefectures of the table, by ascending id.
pub fn list_prefectures(table: &LiveTable) -> (list: Vec<PrefectureResponse>)
    ensures
        prefectures_view(list@) == prefectures_of(table@),
        ids_ascending(prefectures_view(list@)),
        prefectures_view(list@).no_duplicates(),
{
    let rows = table.rows();
    let ghost all = table@;
    let mut list: Vec<PrefectureResponse> = Vec::new();
    let mut i: usize = 0;
    assert(all.take(0) =~= Seq::<StoredRowView>::empty());
    assert(prefectures_view(list@) =~= Seq::<PrefecturePair>::empty());
    while i < rows.len()
        invariant
            i <= rows.len(),
            all == crate::store::table::rows_view(rows@),
            prefectures_view(list@) == prefectures_of(all.take(i as int)),
        decreases rows.len() - i,
    {
        let ghost before = prefectures_view(list@);
        let record = &rows[i].record;
        let ghost pair = (record.prefecture_id as int, record.prefecture@);
        proof {
            assert(all.take(i + 1).drop_last() =~= all.take(i as int));
            assert(all.take(i + 1).last() == rows[i as int]@);
        }
        let mut known = false;
        let mut k: usize = 0;
        while k < list.len()
            invariant_except_break
                !known,
                forall|j: int| 0 <= j < k ==> before[j] != pair,
            invariant
                k <= list.len(),
                before == prefectures_view(list@),
                pair == (record.prefecture_id as int, record.prefecture@),
            ensures
                known == before.contains(pair),
            decreases list.len() - k,
        {
            if list[k].prefecture_id == record.prefecture_id && list[k].prefecture
                == record.prefecture {
                assert(before[k as int] == pair);
                known = true;
                break ;
            }
            k = k + 1;
        }
        if !known {
            let mut at: usize = list.len();
            assert(before.take(before.len() as int) =~= before);
            while at > 0 && list[at - 1].prefecture_id > record.prefecture_id
                invariant
                    at <= list.len(),
                    before == prefectures_view(list@),
                    place_for_id(before, record.prefecture_id as int) == place_for_id(
                        before.take(at as int),
                        record.prefecture_id as int,
                    ),
                decreases at,
            {
                proof {
                    assert(before.take(at as int).last() == before[at - 1]);
                    assert(before.take(at as int).drop_last() =~= before.take(at - 1));
                }
                at = at - 1;
            }
            proof {
                if at > 0 {
                    assert(before.take(at as int).last() == before[at - 1]);
                }
            }
            list.insert(
                at,
                PrefectureResponse {
                    prefecture_id: record.prefecture_id,
                    prefecture: record.prefecture.clone(),
                },
            );
            assert(prefectures_view(list@) =~= before.insert(at as int, pair));
        }
        i = i + 1;
    }
    proof {
        assert(all.take(rows.len() as int) =~= all);
        lemma_prefectures_of(all);
    }
    list
}

/// Whether a text stands before another, or is the same, in the order of
/// the code points of their characters.
pub open spec fn text_le(a: Seq<char>, b: Seq<char>) -> bool
    decreases a.len(),
{
    if a.len() == 0 {
        true
    } else if b.len() == 0 {
        false
    } else if a[0] != b[0] {
        (a[0] as u32) < (b[0] as u32)
    } else {
        text_le(a.drop_first(), b.drop_first())
    }
}

/// Of two texts one stands before the other, or they are the same.
pub proof fn lemma_text_le_total(a: Seq<char>, b: Seq<char>)
    ensures
        text_le(a, b) || text_le(b, a),
    decreases a.len(),
{
    if a.len() > 0 && b.len() > 0 {
        if a[0] == b[0] {
            lemma_text_le_total(a.drop_first(), b.drop_first());
        } else if a[0] as u32 == b[0] as u32 {
            vstd::utf8::char_u32_cast(a[0], a[0] as u32);
            vstd::utf8::char_u32_cast(b[0], b[0] as u32);
        }
    }
}

/// What stands before a text stands before all that the text stands
/// before.
pub proof fn lemma_text_le_transitive(a: Seq<char>, b: Seq<char>, c: Seq<char>)
    requires
        text_le(a, b),
        text_le(b, c),
    ensures
        text_le(a, c),
    decreases a.len(),
{
    if a.len() > 0 && b.len() > 0 && c.len() > 0 && a[0] == b[0] && b[0] == c[0] {
        lemma_text_le_transitive(a.drop_first(), b.drop_first(), c.drop_first());
    }
}

fn text_le_here(a: &Vec<char>, b: &Vec<char>) -> (le: bool)
    ensures
        le == text_le(a@, b@),
{
    let mut i: usize = 0;
    assert(a@.skip(0) =~= a@ && b@.skip(0) =~= b@);
    loop
        invariant
            i <= a.len(),
            i <= b.len(),
            text_le(a@, b@) == text_le(a@.skip(i as int), b@.skip(i as int)),
        decreases a.len() - i,
    {
        if i >= a.len() {
            return true;
        }
        if i >= b.len() {
            return false;
        }
        proof {
            assert(a@.skip(i as int)[0] == a@[i as int]);
            assert(b@.skip(i as int)[0] == b@[i as int]);
            assert(a@.skip(i as int).drop_first() =~= a@.skip(i + 1));
            assert(b@.skip(i as int).drop_first() =~= b@.skip(i + 1));
        }
        if a[i] != b[i] {
            return (a[i] as u32) < (b[i] as u32);
        }
        i = i + 1;
    }
}

/// One city of the list: its id and its name.
pub type CityPair = (Seq<char>, Seq<char>);

/// The pairs of a list of cities.
pub open spec fn cities_view(list: Seq<CityResponse>) -> Seq<CityPair> {
    Seq::new(list.len(), |i: int| (list[i].city_id@, list[i].city@))
}

/// Where a city with the id goes in the list: behind the last one whose id
/// does not stand behind it.
pub open spec fn place_for_city(list: Seq<CityPair>, id: Seq<char>) -> int
    decreases list.len(),
{
    if list.len() == 0 {
        0
    } else if text_le(list.last().0, id) {
        list.len() as int
    } else {
        place_for_city(list.drop_last(), id)
    }
}

/// The list with a city taken in: unchanged where it holds the pair
/// already, else with the pair at its place.
pub open spec fn with_city(list: Seq<CityPair>, pair: CityPair) -> Seq<CityPair> {
    if list.contains(pair) {
        list
    } else {
        list.insert(place_for_city(list, pair.0), pair)
    }
}

/// The distinct cities of the rows of a prefecture, by ascending city id;
/// two names under one id stand in the order in which the table first
/// holds them.
pub open spec fn cities_of(rows: Seq<StoredRowView>, prefecture_id: int) -> Seq<CityPair>
    decreases rows.len(),
{
    if rows.len() == 0 {
        Seq::empty()
    } else if rows.last().record.prefecture_id == prefecture_id {
        with_city(
            cities_of(rows.drop_last(), prefecture_id),
            (rows.last().record.city_id, rows.last().record.city),
        )
    } else {
        cities_of(rows.drop_last(), prefecture_id)
    }
}

/// Whether the ids of a list of cities never fall.
pub open spec fn city_ids_ascending(list: Seq<CityPair>) -> bool {
    forall|i: int, j: int| 0 <= i < j < list.len() ==> text_le(list[i].0, list[j].0)
}

proof fn lemma_place_for_city(list: Seq<CityPair>, id: Seq<char>)
    ensures
        0 <= place_for_city(list, id) <= list.len(),
        place_for_city(list, id) > 0 ==> text_le(list[place_for_city(list, id) - 1].0, id),
        forall|k: int| place_for_city(list, id) <= k < list.len() ==> !text_le(list[k].0, id),
    decreases list.len(),
{
    if list.len() > 0 && !text_le(list.last().0, id) {
        lemma_place_for_city(list.drop_last(), id);
        assert forall|k: int| place_for_city(list, id) <= k < list.len() implies !text_le(
            list[k].0,
            id,
        ) by {
            if k < list.len() - 1 {
                assert(list.drop_last()[k] == list[k]);
            }
        }
        if place_for_city(list, id) > 0 {
            assert(list.drop_last()[place_for_city(list, id) - 1] == list[place_for_city(list, id)
                - 1]);
        }
    }
}

/// Taking a city into an ascending list without repeats leaves the list
/// ascending and without repeats.
proof fn lemma_with_city(list: Seq<CityPair>, pair: CityPair)
    requires
        city_ids_ascending(list),
        list.no_duplicates(),
    ensures
        city_ids_ascending(with_city(list, pair)),
        with_city(list, pair).no_duplicates(),
        with_city(list, pair).contains(pair),
        forall|p: CityPair| p != pair ==> with_city(list, pair).contains(p) == list.contains(p),
{
    let result = with_city(list, pair);
    let at = place_for_city(list, pair.0);
    lemma_place_for_city(list, pair.0);
    if !list.contains(pair) {
        assert(result[at] == pair);
        assert forall|i: int, j: int| 0 <= i < j < result.len() implies text_le(
            result[i].0,
            result[j].0,
        ) by {
            if j < at {
                assert(result[i] == list[i] && result[j] == list[j]);
            } else if j == at {
                assert(result[i] == list[i]);
                if i < at - 1 {
                    lemma_text_le_transitive(list[i].0, list[at - 1].0, pair.0);
                }
            } else if i < at {
                assert(result[i] == list[i] && result[j] == list[j - 1]);
            } else if i == at {
                assert(result[j] == list[j - 1]);
                lemma_text_le_total(list[j - 1].0, pair.0);
            } else {
                assert(result[i] == list[i - 1] && result[j] == list[j - 1]);
            }
        }
        assert forall|i: int, j: int| 0 <= i < result.len() && 0 <= j < result.len() && i
            != j implies result[i] != result[j] by {
            let a = if i < at { i } else { i - 1 };
            let b = if j < at { j } else { j - 1 };
            if i == at {
                assert(result[j] == list[b]);
                assert(list.contains(list[b]));
            } else if j == at {
                assert(result[i] == list[a]);
                assert(list.contains(list[a]));
            } else {
                assert(result[i] == list[a] && result[j] == list[b]);
            }
        }
        assert forall|p: CityPair| p != pair implies result.contains(p) == list.contains(p) by {
            if result.contains(p) {
                let k = choose|k: int| 0 <= k < result.len() && result[k] == p;
                let b = if k < at { k } else { k - 1 };
                assert(list[b] == p);
            }
            if list.contains(p) {
                let k = choose|k: int| 0 <= k < list.len() && list[k] == p;
                if k < at {
                    assert(result[k] == p);
                } else {
                    assert(result[k + 1] == p);
                }
            }
        }
    }
}

/// The list of cities of a prefecture is ascending by city id, holds no
/// pair twice, and holds exactly the pairs of the rows of the prefecture.
pub proof fn lemma_cities_of(rows: Seq<StoredRowView>, prefecture_id: int)
    ensures
        city_ids_ascending(cities_of(rows, prefecture_id)),
        cities_of(rows, prefecture_id).no_duplicates(),
        forall|pair: CityPair|
            cities_of(rows, prefecture_id).contains(pair) <==> exists|i: int|
                0 <= i < rows.len() && (#[trigger] rows[i]).record.prefecture_id == prefecture_id
                    && rows[i].record.city_id == pair.0 && rows[i].record.city == pair.1,
    decreases rows.len(),
{
    if rows.len() > 0 {
        let earlier = rows.drop_last();
        lemma_cities_of(earlier, prefecture_id);
        let list = cities_of(earlier, prefecture_id);
        let result = cities_of(rows, prefecture_id);
        let own = (rows.last().record.city_id, rows.last().record.city);
        let counts = rows.last().record.prefecture_id == prefecture_id;
        if counts {
            lemma_with_city(list, own);
        }
        assert forall|p: CityPair| result.contains(p) <==> exists|i: int|
            0 <= i < rows.len() && (#[trigger] rows[i]).record.prefecture_id == prefecture_id
                && rows[i].record.city_id == p.0 && rows[i].record.city == p.1 by {
            if result.contains(p) {
                if counts && p == own {
                    assert(rows[rows.len() - 1].record.city_id == p.0);
                } else {
                    assert(list.contains(p));
                    let i = choose|i: int|
                        0 <= i < earlier.len() && (#[trigger] earlier[i]).record.prefecture_id
                            == prefecture_id && earlier[i].record.city_id == p.0
                            && earlier[i].record.city == p.1;
                    assert(rows[i] == earlier[i]);
                }
            }
            if exists|i: int|
                0 <= i < rows.len() && (#[trigger] rows[i]).record.prefecture_id == prefecture_id
                    && rows[i].record.city_id == p.0 && rows[i].record.city == p.1 {
                let i = choose|i: int|
                    0 <= i < rows.len() && (#[trigger] rows[i]).record.prefecture_id
                        == prefecture_id && rows[i].record.city_id == p.0 && rows[i].record.city
                        == p.1;
                if i < earlier.len() {
                    assert(earlier[i] == rows[i]);
                    assert(list.contains(p));
                } else {
                    assert(p == own);
                }
            }
        }
    }
}

/// The distinct cities of a prefecture, by ascending city id.
pub fn list_cities(table: &LiveTable, prefecture_id: i16) -> (list: Vec<CityResponse>)
    ensures
        cities_view(list@) == cities_of(table@, prefecture_id as int),
        city_ids_ascending(cities_view(list@)),
        cities_view(list@).no_duplicates(),
{
    let rows = table.rows();
    let ghost all = table@;
    let mut list: Vec<CityResponse> = Vec::new();
    let mut i: usize = 0;
    assert(all.take(0) =~= Seq::<StoredRowView>::empty());
    assert(cities_view(list@) =~= Seq::<CityPair>::empty());
    while i < rows.len()
        invariant
            i <= rows.len(),
            all == crate::store::table::rows_view(rows@),
            cities_view(list@) == cities_of(all.take(i as int), prefecture_id as int),
        decreases rows.len() - i,
    {
        let ghost before = cities_view(list@);
        let record = &rows[i].record;
        let ghost pair = (record.city_id@, record.city@);
        proof {
            assert(all.take(i + 1).drop_last() =~= all.take(i as int));
            assert(all.take(i + 1).last() == rows[i as int]@);
        }
        if record.prefecture_id == prefecture_id {
            let mut known = false;
            let mut k: usize = 0;
            while k < list.len()
                invariant_except_break
                    !known,
                    forall|j: int| 0 <= j < k ==> before[j] != pair,
                invariant
                    k <= list.len(),
                    before == cities_view(list@),
                    pair == (record.city_id@, record.city@),
                ensures
                    known == before.contains(pair),
                decreases list.len() - k,
            {
                if list[k].city_id == record.city_id && list[k].city == record.city {
                    assert(before[k as int] == pair);
                    known = true;
                    break ;
                }
                k = k + 1;
            }
            if !known {
                let id = chars_of(record.city_id.as_str());
                let mut at: usize = list.len();
                assert(before.take(before.len() as int) =~= before);
                loop
                    invariant
                        at <= list.len(),
                        id@ == record.city_id@,
                        before == cities_view(list@),
                        place_for_city(before, id@) == place_for_city(before.take(at as int), id@),
                    ensures
                        at <= list.len(),
                        place_for_city(before, id@) == at,
                    decreases at,
                {
                    if at == 0 {
                        break ;
                    }
                    let other = chars_of(list[at - 1].city_id.as_str());
                    proof {
                        assert(before.take(at as int).last() == before[at - 1]);
                        assert(before.take(at as int).drop_last() =~= before.take(at - 1));
                    }
                    if text_le_here(&other, &id) {
                        break ;
                    }
                    at = at - 1;
                }
                list.insert(
                    at,
                    CityResponse { city_id: record.city_id.clone(), city: record.city.clone() },
                );
                assert(cities_view(list@) =~= before.insert(at as int, pair));
            }
        }
        i = i + 1;
    }
    proof {
        assert(all.take(rows.len() as int) =~= all);
        lemma_cities_of(all, prefecture_id as int);
    }
    list
}

} // verus!
