//! What of a record goes into the statements of the write.

use vstd::prelude::*;

use crate::models::{PostalCode, PostalCodeView};
use crate::whitespace::{trim, trimmed};

verus! {

/// The table that the records are written to.
pub fn live_table_name() -> (name: &'static str)
    ensures
        name@ == "postal_codes"@,
{
    "postal_codes"
}

/// The names of the columns of the upsert, in the order of the parameters
/// of a row: the six fields of a record, then the creation stamp and the
/// update stamp.
pub open spec fn upsert_column_names() -> Seq<Seq<char>> {
    seq![
        "zip_code"@,
        "prefecture_id"@,
        "city_id"@,
        "prefecture"@,
        "city"@,
        "town"@,
        "created_at"@,
        "updated_at"@,
    ]
}

/// The names of the columns of the upsert.
pub fn upsert_columns() -> (columns: [&'static str; 8])
    ensures
        crate::writer::query_builder::names_view(columns@) == upsert_column_names(),
{
    let columns = [
        "zip_code",
        "prefecture_id",
        "city_id",
        "prefecture",
        "city",
        "town",
        "created_at",
        "updated_at",
    ];
    assert(crate::writer::query_builder::names_view(columns@) =~= upsert_column_names());
    columns
}

/// A record as MySQL stores it: prefecture, city and town without
/// whitespace at their ends.
pub open spec fn trimmed_record(record: PostalCodeView) -> PostalCodeView {
    PostalCodeView {
        prefecture: trimmed(record.prefecture),
        city: trimmed(record.city),
        town: trimmed(record.town),
        ..record
    }
}

/// The record as MySQL stores it.
pub fn trim_for_mysql(record: &PostalCode) -> (stored: PostalCode)
    ensures
        stored@ == trimmed_record(record@),
{
    PostalCode {
        zip_code: record.zip_code.clone(),
        prefecture_id: record.prefecture_id,
        city_id: record.city_id.clone(),
        prefecture: trim(record.prefecture.as_str()),
        city: trim(record.city.as_str()),
        town: trim(record.town.as_str()),
    }
}

} // verus!
