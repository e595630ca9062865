use postal_core::config::DatabaseType;
use postal_core::statements::{
    audit_insert_statement, cities_statement, clear_statement, counts_statements,
    mysql_upsert_statement, ping_statement, prefectures_statement, restore_statement,
    search_statement, snapshot_count_statement, snapshot_statement, sweep_statement,
    zip_lookup_statement,
};

const SELECT: &str = "SELECT zip_code, prefecture_id, city_id, prefecture, city, town FROM postal_codes";
const COLUMNS: &str = "zip_code, prefecture_id, city_id, prefecture, city, town, created_at, updated_at";

#[test]
fn a_search_compares_for_equality_or_by_pattern() {
    assert_eq!(
        search_statement(DatabaseType::Postgres, false),
        format!("{SELECT} WHERE prefecture LIKE $1 OR city LIKE $1 OR town LIKE $1 LIMIT $2")
    );
    assert_eq!(
        search_statement(DatabaseType::Postgres, true),
        format!("{SELECT} WHERE prefecture = $1 OR city = $1 OR town = $1 LIMIT $2")
    );
    assert_eq!(
        search_statement(DatabaseType::MySql, false),
        format!("{SELECT} WHERE prefecture LIKE ? OR city LIKE ? OR town LIKE ? LIMIT ?")
    );
    assert_eq!(
        search_statement(DatabaseType::Sqlite, true),
        format!("{SELECT} WHERE prefecture = ? OR city = ? OR town = ? LIMIT ?")
    );
}

#[test]
fn the_other_statements_name_their_parameters_as_the_store_does() {
    assert_eq!(zip_lookup_statement(DatabaseType::Postgres), format!("{SELECT} WHERE zip_code = $1"));
    assert_eq!(zip_lookup_statement(DatabaseType::MySql), format!("{SELECT} WHERE zip_code = ?"));
    assert_eq!(
        cities_statement(DatabaseType::Postgres),
        "SELECT DISTINCT city_id, city FROM postal_codes WHERE prefecture_id = $1 ORDER BY city_id"
    );
    assert_eq!(
        cities_statement(DatabaseType::MySql),
        "SELECT DISTINCT city_id, city FROM postal_codes WHERE prefecture_id = ? ORDER BY city_id"
    );
    assert_eq!(
        prefectures_statement(),
        "SELECT DISTINCT prefecture_id, prefecture FROM postal_codes ORDER BY prefecture_id"
    );
    assert_eq!(sweep_statement(DatabaseType::Postgres), "DELETE FROM postal_codes WHERE updated_at < $1");
    assert_eq!(sweep_statement(DatabaseType::MySql), "DELETE FROM postal_codes WHERE updated_at < ?");
    assert_eq!(ping_statement(), "SELECT 1");
    assert_eq!(clear_statement(), "DELETE FROM postal_codes");
}

#[test]
fn the_mysql_upsert_restamps_a_known_key_and_keeps_its_creation_stamp() {
    assert_eq!(
        mysql_upsert_statement(),
        format!(
            "INSERT INTO postal_codes ({COLUMNS}) VALUES (?, ?, ?, ?, ?, ?, ?, ?) ON DUPLICATE KEY UPDATE prefecture = VALUES(prefecture), town = VALUES(town), updated_at = VALUES(updated_at)"
        )
    );
    assert!(!mysql_upsert_statement().contains("created_at = VALUES"));
}

#[test]
fn the_counts_of_a_run_are_asked_for_in_three_statements() {
    let (touched, inserted, total) = counts_statements(DatabaseType::Postgres);
    assert_eq!(touched, "SELECT COUNT(*)::BIGINT FROM postal_codes WHERE updated_at = $1");
    assert_eq!(
        inserted,
        "SELECT COUNT(*)::BIGINT FROM postal_codes WHERE updated_at = $1 AND created_at = $1"
    );
    assert_eq!(total, "SELECT COUNT(*)::BIGINT FROM postal_codes");
    let (touched, inserted, total) = counts_statements(DatabaseType::MySql);
    assert_eq!(touched, "SELECT COUNT(*) FROM postal_codes WHERE updated_at = ?");
    assert_eq!(inserted, "SELECT COUNT(*) FROM postal_codes WHERE updated_at = ? AND created_at = ?");
    assert_eq!(total, "SELECT COUNT(*) FROM postal_codes");
    assert_eq!(
        snapshot_count_statement(DatabaseType::Postgres),
        "SELECT COUNT(*)::BIGINT FROM postal_codes_snapshots WHERE data_version = $1"
    );
    assert_eq!(
        snapshot_count_statement(DatabaseType::MySql),
        "SELECT COUNT(*) FROM postal_codes_snapshots WHERE data_version = ?"
    );
}

#[test]
fn a_snapshot_is_copied_and_restored_with_its_stamps() {
    assert_eq!(
        snapshot_statement(DatabaseType::Postgres),
        format!(
            "INSERT INTO postal_codes_snapshots (data_version, {COLUMNS}) SELECT $1, {COLUMNS} FROM postal_codes ON CONFLICT (data_version, zip_code, prefecture_id, city, town) DO NOTHING"
        )
    );
    assert_eq!(
        snapshot_statement(DatabaseType::MySql),
        format!(
            "INSERT IGNORE INTO postal_codes_snapshots (data_version, {COLUMNS}) SELECT ?, {COLUMNS} FROM postal_codes"
        )
    );
    assert_eq!(
        restore_statement(DatabaseType::Postgres),
        format!(
            "INSERT INTO postal_codes ({COLUMNS}) SELECT {COLUMNS} FROM postal_codes_snapshots WHERE data_version = $1"
        )
    );
    assert_eq!(
        restore_statement(DatabaseType::MySql),
        format!(
            "INSERT INTO postal_codes ({COLUMNS}) SELECT {COLUMNS} FROM postal_codes_snapshots WHERE data_version = ?"
        )
    );
}

#[test]
fn an_audit_row_has_thirteen_values() {
    let columns = "data_version, database_type, source_url, run_started_at, run_finished_at, batch_timestamp, records_in_feed, inserted_count, updated_count, deleted_count, total_count, status, error_message";
    assert_eq!(
        audit_insert_statement(DatabaseType::Postgres),
        format!(
            "INSERT INTO data_update_audits ({columns}) VALUES ($1, $2, $3, $4, $5, $6, $7, $8, $9, $10, $11, $12, $13)"
        )
    );
    assert_eq!(
        audit_insert_statement(DatabaseType::MySql),
        format!("INSERT INTO data_update_audits ({columns}) VALUES (?, ?, ?, ?, ?, ?, ?, ?, ?, ?, ?, ?, ?)")
    );
}
