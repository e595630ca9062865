//! The statements of the read path and of the sweep, for each store.

use vstd::prelude::*;
use vstd::string::StringExecFns;

use crate::config::DatabaseType;
use crate::text::{push_char, push_decimal};
use crate::writer::query_builder::{joined, lemma_joined_push, placeholder};

verus! {

/// The start of every statement that reads records: the six fields of a
/// record, in their order.
pub open spec fn select_record_text() -> Seq<char> {
    "SELECT zip_code, prefecture_id, city_id, prefecture, city, town FROM postal_codes"@
}

/// How a store writes the parameter with the given number: PostgreSQL with
/// `$` and the number, the others with a question mark.
pub open spec fn parameter_text(database_type: DatabaseType, number: nat) -> Seq<char> {
    if database_type == DatabaseType::Postgres {
        placeholder(number)
    } else {
        "?"@
    }
}

/// How a term is compared with a column: for equality, or as a pattern.
pub open spec fn comparison_text(equality: bool) -> Seq<char> {
    if equality {
        " = "@
    } else {
        " LIKE "@
    }
}

/// The statement of a lookup by zip code; its parameter is the zip code.
pub open spec fn zip_lookup_text(database_type: DatabaseType) -> Seq<char> {
    select_record_text() + " WHERE zip_code = "@ + parameter_text(database_type, 1)
}

/// The statement of one query of an address search: the term is compared
/// with prefecture, city and town, any one of them sufficing, and the
/// number of rows is limited. Its parameters are the term, once on
/// PostgreSQL and three times on the other stores, and the limit.
pub open spec fn search_text(database_type: DatabaseType, equality: bool) -> Seq<char> {
    select_record_text() + " WHERE prefecture"@ + comparison_text(equality) + parameter_text(
        database_type,
        1,
    ) + " OR city"@ + comparison_text(equality) + parameter_text(database_type, 1) + " OR town"@
        + comparison_text(equality) + parameter_text(database_type, 1) + " LIMIT "@
        + parameter_text(database_type, 2)
}

/// The statement of the list of cities; its parameter is the prefecture id.
pub open spec fn cities_text(database_type: DatabaseType) -> Seq<char> {
    "SELECT DISTINCT city_id, city FROM postal_codes WHERE prefecture_id = "@ + parameter_text(
        database_type,
        1,
    ) + " ORDER BY city_id"@
}

/// The statement of the sweep; its parameter is the stamp of the run.
pub open spec fn sweep_text(database_type: DatabaseType) -> Seq<char> {
    "DELETE FROM postal_codes WHERE updated_at < "@ + parameter_text(database_type, 1)
}

fn push_parameter(out: &mut String, database_type: DatabaseType, number: u64)
    ensures
        final(out)@ == old(out)@ + parameter_text(database_type, number as nat),
{
    match database_type {
        DatabaseType::Postgres => {
            push_char(out, '$');
            push_decimal(out, number);
            assert(out@ =~= old(out)@ + placeholder(number as nat));
        },
        _ => {
            out.append("?");
        },
    }
}

fn push_comparison(out: &mut String, equality: bool)
    ensures
        final(out)@ == old(out)@ + comparison_text(equality),
{
    if equality {
        out.append(" = ");
    } else {
        out.append(" LIKE ");
    }
}

/// The statement of a lookup by zip code.
pub fn zip_lookup_statement(database_type: DatabaseType) -> (statement: String)
    ensures
        statement@ == zip_lookup_text(database_type),
{
    let mut statement = String::from_str(
        "SELECT zip_code, prefecture_id, city_id, prefecture, city, town FROM postal_codes",
    );
    statement.append(" WHERE zip_code = ");
    push_parameter(&mut statement, database_type, 1);
    statement
}

/// The statement of one query of an address search.
pub fn search_statement(database_type: DatabaseType, equality: bool) -> (statement: String)
    ensures
        statement@ == search_text(database_type, equality),
{
    let mut statement = String::from_str(
        "SELECT zip_code, prefecture_id, city_id, prefecture, city, town FROM postal_codes",
    );
    statement.append(" WHERE prefecture");
    push_comparison(&mut statement, equality);
    push_parameter(&mut statement, database_type, 1);
    statement.append(" OR city");
    push_comparison(&mut statement, equality);
    push_parameter(&mut statement, database_type, 1);
    statement.append(" OR town");
    push_comparison(&mut statement, equality);
    push_parameter(&mut statement, database_type, 1);
    statement.append(" LIMIT ");
    push_parameter(&mut statement, database_type, 2);
    statement
}

/// The statement of the list of prefectures: each pair of id and label
/// once, by ascending id.
pub fn prefectures_statement() -> (statement: &'static str)
    ensures
        statement@
            == "SELECT DISTINCT prefecture_id, prefecture FROM postal_codes ORDER BY prefecture_id"@,
{
    "SELECT DISTINCT prefecture_id, prefecture FROM postal_codes ORDER BY prefecture_id"
}

/// The statement of the list of the cities of a prefecture: each pair of
/// id and name once, by ascending id.
pub fn cities_statement(database_type: DatabaseType) -> (statement: String)
    ensures
        statement@ == cities_text(database_type),
{
    let mut statement = String::from_str(
        "SELECT DISTINCT city_id, city FROM postal_codes WHERE prefecture_id = ",
    );
    push_parameter(&mut statement, database_type, 1);
    statement.append(" ORDER BY city_id");
    statement
}

/// The statement of the sweep: the rows stamped before the run are deleted.
pub fn sweep_statement(database_type: DatabaseType) -> (statement: String)
    ensures
        statement@ == sweep_text(database_type),
{
    let mut statement = String::from_str("DELETE FROM postal_codes WHERE updated_at < ");
    push_parameter(&mut statement, database_type, 1);
    statement
}

/// The statement of the readiness check.
pub fn ping_statement() -> (statement: &'static str)
    ensures
        statement@ == "SELECT 1"@,
{
    "SELECT 1"
}

/// The upsert of one record on MySQL: a row whose primary key is stored
/// already has prefecture, town and update stamp taken from the new row,
/// and keeps its creation stamp. Its parameters are the six fields of the
/// record, then the stamp of the run twice.
pub fn mysql_upsert_statement() -> (statement: &'static str)
    ensures
        statement@
            == "INSERT INTO postal_codes (zip_code, prefecture_id, city_id, prefecture, city, town, created_at, updated_at) VALUES (?, ?, ?, ?, ?, ?, ?, ?) ON DUPLICATE KEY UPDATE prefecture = VALUES(prefecture), town = VALUES(town), updated_at = VALUES(updated_at)"@,
{
    "INSERT INTO postal_codes (zip_code, prefecture_id, city_id, prefecture, city, town, created_at, updated_at) VALUES (?, ?, ?, ?, ?, ?, ?, ?) ON DUPLICATE KEY UPDATE prefecture = VALUES(prefecture), town = VALUES(town), updated_at = VALUES(updated_at)"
}

/// How a store is asked for a number of rows: PostgreSQL is told the type of
/// the number.
pub open spec fn count_text(database_type: DatabaseType) -> Seq<char> {
    if database_type == DatabaseType::Postgres {
        "SELECT COUNT(*)::BIGINT FROM "@
    } else {
        "SELECT COUNT(*) FROM "@
    }
}

/// The statement that counts the rows that a run touched: those whose
/// update stamp is the stamp of the run, its parameter.
pub open spec fn touched_count_text(database_type: DatabaseType) -> Seq<char> {
    count_text(database_type) + "postal_codes WHERE updated_at = "@ + parameter_text(
        database_type,
        1,
    )
}

/// The statement that counts the rows that a run inserted: those whose
/// update stamp and creation stamp are the stamp of the run. Its parameter
/// is the stamp, once on PostgreSQL and twice on the other stores.
pub open spec fn inserted_count_text(database_type: DatabaseType) -> Seq<char> {
    touched_count_text(database_type) + " AND created_at = "@ + parameter_text(database_type, 1)
}

/// The statement that counts all rows of the live table.
pub open spec fn total_count_text(database_type: DatabaseType) -> Seq<char> {
    count_text(database_type) + "postal_codes"@
}

/// The statement that counts the rows of a snapshot; its parameter is the
/// data version.
pub open spec fn snapshot_count_text(database_type: DatabaseType) -> Seq<char> {
    count_text(database_type) + "postal_codes_snapshots WHERE data_version = "@ + parameter_text(
        database_type,
        1,
    )
}

/// The statement that copies the live table into a snapshot, passing over
/// rows that the snapshot holds already. Its parameter is the data version.
pub open spec fn snapshot_text(database_type: DatabaseType) -> Seq<char> {
    (if database_type == DatabaseType::MySql {
        "INSERT IGNORE INTO"@
    } else {
        "INSERT INTO"@
    })
        + " postal_codes_snapshots (data_version, zip_code, prefecture_id, city_id, prefecture, city, town, created_at, updated_at) SELECT "@
        + parameter_text(database_type, 1)
        + ", zip_code, prefecture_id, city_id, prefecture, city, town, created_at, updated_at FROM postal_codes"@
        + (if database_type == DatabaseType::MySql {
        ""@
    } else {
        " ON CONFLICT (data_version, zip_code, prefecture_id, city, town) DO NOTHING"@
    })
}

/// The statement that fills the live table from a snapshot, stamps
/// included. Its parameter is the data version.
pub open spec fn restore_text(database_type: DatabaseType) -> Seq<char> {
    "INSERT INTO postal_codes (zip_code, prefecture_id, city_id, prefecture, city, town, created_at, updated_at) SELECT zip_code, prefecture_id, city_id, prefecture, city, town, created_at, updated_at FROM postal_codes_snapshots WHERE data_version = "@
        + parameter_text(database_type, 1)
}

fn push_count(out: &mut String, database_type: DatabaseType)
    ensures
        final(out)@ == old(out)@ + count_text(database_type),
{
    match database_type {
        DatabaseType::Postgres => {
            out.append("SELECT COUNT(*)::BIGINT FROM ");
        },
        _ => {
            out.append("SELECT COUNT(*) FROM ");
        },
    }
}

/// The statements that count what a run did: the rows it touched, the
/// rows it inserted, and all rows, in this order.
pub fn counts_statements(database_type: DatabaseType) -> (statements: (String, String, String))
    ensures
        statements.0@ == touched_count_text(database_type),
        statements.1@ == inserted_count_text(database_type),
        statements.2@ == total_count_text(database_type),
{
    let mut touched = String::new();
    push_count(&mut touched, database_type);
    touched.append("postal_codes WHERE updated_at = ");
    push_parameter(&mut touched, database_type, 1);
    assert(touched@ =~= touched_count_text(database_type));
    let mut inserted = touched.clone();
    inserted.append(" AND created_at = ");
    push_parameter(&mut inserted, database_type, 1);
    let mut total = String::new();
    push_count(&mut total, database_type);
    total.append("postal_codes");
    assert(total@ =~= total_count_text(database_type));
    (touched, inserted, total)
}

/// The statement that counts the rows of a snapshot.
pub fn snapshot_count_statement(database_type: DatabaseType) -> (statement: String)
    ensures
        statement@ == snapshot_count_text(database_type),
{
    let mut statement = String::new();
    push_count(&mut statement, database_type);
    statement.append("postal_codes_snapshots WHERE data_version = ");
    push_parameter(&mut statement, database_type, 1);
    assert(statement@ =~= snapshot_count_text(database_type));
    statement
}

/// The statement that copies the live table into a snapshot.
pub fn snapshot_statement(database_type: DatabaseType) -> (statement: String)
    ensures
        statement@ == snapshot_text(database_type),
{
    proof {
        reveal_strlit("");
        assert(""@ =~= Seq::<char>::empty());
    }
    let mut statement = String::new();
    match database_type {
        DatabaseType::MySql => {
            statement.append("INSERT IGNORE INTO");
        },
        _ => {
            statement.append("INSERT INTO");
        },
    }
    statement.append(
        " postal_codes_snapshots (data_version, zip_code, prefecture_id, city_id, prefecture, city, town, created_at, updated_at) SELECT ",
    );
    push_parameter(&mut statement, database_type, 1);
    statement.append(
        ", zip_code, prefecture_id, city_id, prefecture, city, town, created_at, updated_at FROM postal_codes",
    );
    match database_type {
        DatabaseType::MySql => {},
        _ => {
            statement.append(
                " ON CONFLICT (data_version, zip_code, prefecture_id, city, town) DO NOTHING",
            );
        },
    }
    assert(statement@ =~= snapshot_text(database_type));
    statement
}

/// The statement that empties the live table before it is restored.
pub fn clear_statement() -> (statement: &'static str)
    ensures
        statement@ == "DELETE FROM postal_codes"@,
{
    "DELETE FROM postal_codes"
}

/// The statement that fills the live table from a snapshot.
pub fn restore_statement(database_type: DatabaseType) -> (statement: String)
    ensures
        statement@ == restore_text(database_type),
{
    let mut statement = String::from_str(
        "INSERT INTO postal_codes (zip_code, prefecture_id, city_id, prefecture, city, town, created_at, updated_at) SELECT zip_code, prefecture_id, city_id, prefecture, city, town, created_at, updated_at FROM postal_codes_snapshots WHERE data_version = ",
    );
    push_parameter(&mut statement, database_type, 1);
    statement
}

/// The number of values of an audit row.
pub const AUDIT_COLUMNS: usize = 13;

/// The parameters of a statement with `count` of them, separated by a comma
/// and a space.
pub open spec fn parameter_list_text(database_type: DatabaseType, count: nat) -> Seq<char> {
    joined(Seq::new(count, |i: int| parameter_text(database_type, (i + 1) as nat)), ", "@)
}

/// The statement that writes an audit row. Its parameters are the values
/// of the row in the order of its columns.
pub open spec fn audit_insert_text(database_type: DatabaseType) -> Seq<char> {
    "INSERT INTO data_update_audits (data_version, database_type, source_url, run_started_at, run_finished_at, batch_timestamp, records_in_feed, inserted_count, updated_count, deleted_count, total_count, status, error_message) VALUES ("@
        + parameter_list_text(database_type, AUDIT_COLUMNS as nat) + ")"@
}

/// The statement that writes an audit row.
pub fn audit_insert_statement(database_type: DatabaseType) -> (statement: String)
    ensures
        statement@ == audit_insert_text(database_type),
{
    let mut statement = String::from_str(
        "INSERT INTO data_update_audits (data_version, database_type, source_url, run_started_at, run_finished_at, batch_timestamp, records_in_feed, inserted_count, updated_count, deleted_count, total_count, status, error_message) VALUES (",
    );
    let ghost head = statement@;
    let ghost all = Seq::new(
        AUDIT_COLUMNS as nat,
        |i: int| parameter_text(database_type, (i + 1) as nat),
    );
    let mut i: usize = 0;
    assert(all.take(0) =~= Seq::<Seq<char>>::empty());
    assert(statement@ =~= head + joined(all.take(0), ", "@));
    while i < AUDIT_COLUMNS
        invariant
            i <= AUDIT_COLUMNS,
            all == Seq::new(
                AUDIT_COLUMNS as nat,
                |i: int| parameter_text(database_type, (i + 1) as nat),
            ),
            statement@ == head + joined(all.take(i as int), ", "@),
        decreases AUDIT_COLUMNS - i,
    {
        proof {
            lemma_joined_push(all.take(i as int), ", "@, all[i as int]);
            assert(all.take(i as int).push(all[i as int]) =~= all.take(i + 1));
        }
        if i > 0 {
            statement.append(", ");
        }
        push_parameter(&mut statement, database_type, (i + 1) as u64);
        assert(statement@ =~= head + joined(all.take(i + 1), ", "@));
        i = i + 1;
    }
    assert(all.take(AUDIT_COLUMNS as int) =~= all);
    statement.append(")");
    statement
}

} // verus!
