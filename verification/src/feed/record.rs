//! From one row of the feed to one raw record and its continuation flag.

use std::collections::HashMap;
use std::collections::VecDeque;
use vstd::prelude::*;

use crate::feed::fold::{fold_text, replace_japanese_to_alphanumeric_with_cache};
use crate::feed::prefecture::{prefecture_id_of, PrefectureTable};
use crate::models::{PostalCode, PostalCodeView};

verus! {

/// Column of the feed that holds the city id.
pub const COLUMN_CITY_ID: usize = 0;

/// Column of the feed that holds the zip code.
pub const COLUMN_ZIP_CODE: usize = 2;

/// Column of the feed that holds the prefecture's label.
pub const COLUMN_PREFECTURE: usize = 6;

/// Column of the feed that holds the city.
pub const COLUMN_CITY: usize = 7;

/// Column of the feed that holds the town.
pub const COLUMN_TOWN: usize = 8;

/// Column of the feed that holds the flag of a town split over rows.
pub const COLUMN_CONTINUATION: usize = 12;

/// The fewest columns a row must have to hold every column that is read.
pub const MIN_COLUMNS: usize = 13;

/// The town that stands for "not otherwise listed".
pub open spec fn unlisted_town() -> Seq<char> {
    "以下に掲載がない場合"@
}

/// The text of a column; empty where the row is too short to have it.
pub open spec fn column(row: Seq<Seq<char>>, i: int) -> Seq<char> {
    if 0 <= i < row.len() {
        row[i]
    } else {
        Seq::empty()
    }
}

/// The town of a row: folded, and empty where that gives the "not
/// otherwise listed" town.
pub open spec fn town_of(row: Seq<Seq<char>>, replace: Map<u32, char>) -> Seq<char> {
    let town = fold_text(replace, column(row, COLUMN_TOWN as int));
    if town == unlisted_town() {
        Seq::empty()
    } else {
        town
    }
}

/// The raw record of a row. The prefecture id is looked up under the label
/// as the row holds it; the prefecture that is stored is the label folded.
pub open spec fn record_of(
    row: Seq<Seq<char>>,
    prefectures: Map<Seq<char>, Seq<char>>,
    replace: Map<u32, char>,
) -> PostalCodeView {
    let label = column(row, COLUMN_PREFECTURE as int);
    PostalCodeView {
        zip_code: column(row, COLUMN_ZIP_CODE as int),
        prefecture_id: prefecture_id_of(prefectures, label) as int,
        city_id: column(row, COLUMN_CITY_ID as int),
        prefecture: fold_text(replace, label),
        city: fold_text(replace, column(row, COLUMN_CITY as int)),
        town: town_of(row, replace),
    }
}

/// Whether a row carries the flag of a town split over adjacent rows.
pub open spec fn continuation_flag_of(row: Seq<Seq<char>>) -> bool {
    column(row, COLUMN_CONTINUATION as int) == "1"@
}

/// A copy of the text of a column; empty where the row is too short.
fn column_text(record: &VecDeque<String>, i: usize) -> (text: String)
    ensures
        text@ == column(record.deep_view(), i as int),
{
    if i < record.len() {
        record[i].clone()
    } else {
        String::new()
    }
}

/// Formats one row of the feed: the raw record, and whether the row carries
/// the continuation flag. A column that the row lacks counts as empty.
pub fn format_csv_record_with_cache(
    record: &VecDeque<String>,
    pref_cache: &PrefectureTable,
    replace_cache: &HashMap<u32, char>,
) -> (formatted: (PostalCode, bool))
    ensures
        formatted.0@ == record_of(record.deep_view(), pref_cache@, replace_cache@),
        formatted.1 == continuation_flag_of(record.deep_view()),
{
    let city_id = column_text(record, COLUMN_CITY_ID);
    let zip_code = column_text(record, COLUMN_ZIP_CODE);
    let label = column_text(record, COLUMN_PREFECTURE);
    let prefecture_id = pref_cache.prefecture_id(label.as_str());
    let prefecture = replace_japanese_to_alphanumeric_with_cache(label.as_str(), replace_cache);
    let city = replace_japanese_to_alphanumeric_with_cache(
        column_text(record, COLUMN_CITY).as_str(),
        replace_cache,
    );
    let town = replace_japanese_to_alphanumeric_with_cache(
        column_text(record, COLUMN_TOWN).as_str(),
        replace_cache,
    );
    let is_continuation = column_text(record, COLUMN_CONTINUATION).as_str().eq("1");
    let town = if town.as_str().eq("以下に掲載がない場合") {
        String::new()
    } else {
        town
    };
    (PostalCode { zip_code, prefecture_id, city_id, prefecture, city, town }, is_continuation)
}

} // verus!
