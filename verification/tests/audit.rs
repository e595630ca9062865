use postal_core::audit::{
    build_data_version, build_rollback_data_version, compute_diff_counts, feed_count,
    make_failed_audit_record, make_rollback_audit_record, make_success_audit_record, AuditStatus,
};
use postal_core::config::DatabaseType;
use postal_core::timestamp::Timestamp;

fn stamp(milli: u32) -> Timestamp {
    Timestamp::from_ymd_hms_milli(2026, 2, 12, 21, 37, 5, milli).expect("valid time")
}

#[test]
fn build_data_version_has_fixed_prefix_and_length() {
    let ts = Timestamp::from_ymd_hms_milli(2026, 2, 12, 21, 37, 5, 123).expect("valid time");
    let v = build_data_version(ts);
    assert_eq!(v, "v20260212213705123");
}

#[test]
fn data_version_pads_every_field() {
    let ts = Timestamp::new(7, 1, 2, 3, 4, 5, 6_000_000).expect("valid time");
    assert_eq!(build_data_version(ts), "v00070102030405006");
    let ts = Timestamp::new(9999, 12, 31, 23, 59, 59, 999_999_999).expect("valid time");
    assert_eq!(build_data_version(ts), "v99991231235959999");
    let ts = Timestamp::new(0, 1, 1, 0, 0, 0, 0).expect("valid time");
    let v = build_data_version(ts);
    assert_eq!(v, "v00000101000000000");
    assert_eq!(v.len(), 18);
    assert!(v[1..].chars().all(|c| c.is_ascii_digit()));
}

#[test]
fn rollback_version_starts_with_r() {
    assert_eq!(build_rollback_data_version(stamp(7)), "rv20260212213705007");
}

#[test]
fn timestamps_accept_exactly_the_civil_times() {
    assert!(Timestamp::new(2024, 2, 29, 0, 0, 0, 0).is_some());
    assert!(Timestamp::new(2023, 2, 29, 0, 0, 0, 0).is_none());
    assert!(Timestamp::new(1900, 2, 29, 0, 0, 0, 0).is_none());
    assert!(Timestamp::new(2000, 2, 29, 0, 0, 0, 0).is_some());
    assert!(Timestamp::new(2026, 4, 31, 0, 0, 0, 0).is_none());
    assert!(Timestamp::new(2026, 4, 30, 0, 0, 0, 0).is_some());
    assert!(Timestamp::new(2026, 0, 1, 0, 0, 0, 0).is_none());
    assert!(Timestamp::new(2026, 13, 1, 0, 0, 0, 0).is_none());
    assert!(Timestamp::new(2026, 1, 0, 0, 0, 0, 0).is_none());
    assert!(Timestamp::new(2026, 1, 1, 24, 0, 0, 0).is_none());
    assert!(Timestamp::new(2026, 1, 1, 0, 60, 0, 0).is_none());
    assert!(Timestamp::new(2026, 1, 1, 0, 0, 60, 0).is_none());
    assert!(Timestamp::new(2026, 1, 1, 0, 0, 59, 1_000_000_000).is_none());
    assert!(Timestamp::new(10000, 1, 1, 0, 0, 0, 0).is_none());
    assert!(Timestamp::new(-1, 1, 1, 0, 0, 0, 0).is_none());
    assert!(Timestamp::from_ymd_hms_milli(2026, 1, 1, 0, 0, 0, 1000).is_none());
}

#[test]
fn timestamps_truncate_and_compare() {
    let a = stamp(123);
    let b = a.truncate_to_seconds();
    assert_eq!(b.nanosecond(), 0);
    assert_eq!((b.year(), b.month(), b.day(), b.hour(), b.minute(), b.second()), (2026, 2, 12, 21, 37, 5));
    assert_eq!(a.millisecond(), 123);
    assert!(b.is_before(&a));
    assert!(!a.is_before(&b));
    assert!(!a.is_before(&a));
    assert!(a.is_same(&a));
    assert!(!a.is_same(&b));
    let later = Timestamp::new(2026, 2, 13, 0, 0, 0, 0).unwrap();
    assert!(a.is_before(&later));
    let earlier_year = Timestamp::new(2025, 12, 31, 23, 59, 59, 999_999_999).unwrap();
    assert!(earlier_year.is_before(&a));
    assert_eq!(a.compact(), "20260212213705");
}

#[test]
fn diff_counts_follow_the_formula() {
    assert_eq!(compute_diff_counts(10, 4, 100), (4, 6, 100));
    assert_eq!(compute_diff_counts(4, 4, 4), (4, 0, 4));
    assert_eq!(compute_diff_counts(3, 5, 9), (5, 0, 9));
    assert_eq!(compute_diff_counts(0, 0, 0), (0, 0, 0));
    assert_eq!(compute_diff_counts(i64::MAX, i64::MIN, 1), (i64::MIN, i64::MAX, 1));
    assert_eq!(feed_count(124_000), 124_000);
}

#[test]
fn success_record_holds_the_counts_of_the_run() {
    let t = stamp(0);
    let record = make_success_audit_record(
        DatabaseType::Postgres,
        "https://example.invalid/ken_all.zip",
        stamp(1),
        stamp(2),
        t,
        3,
        compute_diff_counts(3, 1, 7),
        5,
    );
    assert_eq!(record.data_version, "v20260212213705000");
    assert_eq!(record.database_type, DatabaseType::Postgres);
    assert_eq!(record.source_url, "https://example.invalid/ken_all.zip");
    assert_eq!(record.records_in_feed, 3);
    assert_eq!(record.inserted_count, 1);
    assert_eq!(record.updated_count, 2);
    assert_eq!(record.deleted_count, 5);
    assert_eq!(record.total_count, 7);
    assert_eq!(record.inserted_count + record.updated_count, 3);
    assert_eq!(record.status, AuditStatus::Success);
    assert_eq!(record.status.as_str(), "success");
    assert_eq!(record.error_message, None);
    assert!(record.run_started_at.is_same(&stamp(1)));
    assert!(record.run_finished_at.is_same(&stamp(2)));
    assert!(record.batch_timestamp.is_same(&t));
}

#[test]
fn failed_record_counts_nothing_and_keeps_the_error() {
    let record = make_failed_audit_record(
        DatabaseType::MySql,
        "src",
        stamp(1),
        stamp(2),
        stamp(0),
        9,
        "deadlock after retries",
    );
    assert_eq!(record.status.as_str(), "failed");
    assert_eq!(record.database_type.as_str(), "mysql");
    assert_eq!(record.records_in_feed, 9);
    assert_eq!(
        (record.inserted_count, record.updated_count, record.deleted_count, record.total_count),
        (0, 0, 0, 0)
    );
    assert_eq!(record.error_message.as_deref(), Some("deadlock after retries"));
}

#[test]
fn rollback_record_names_the_target_and_counts_the_restored_rows() {
    let now_local = stamp(123);
    let now_utc = Timestamp::from_ymd_hms_milli(2026, 2, 12, 12, 37, 5, 123).unwrap();
    let record =
        make_rollback_audit_record(DatabaseType::Postgres, "v20260213001549224", 42, now_utc, now_local);
    assert_eq!(record.data_version, "rv20260212213705123");
    assert!(record.data_version.starts_with('r'));
    assert_eq!(record.source_url, "rollback_cli:v20260213001549224");
    assert_eq!(record.status.as_str(), "rollback");
    assert_eq!(record.records_in_feed, 42);
    assert_eq!(record.inserted_count, 42);
    assert_eq!(record.updated_count, 0);
    assert_eq!(record.deleted_count, 0);
    assert_eq!(record.total_count, 42);
    assert_eq!(record.error_message, None);
    assert!(record.run_started_at.is_same(&now_utc));
    assert!(record.run_finished_at.is_same(&now_utc));
    assert!(record.batch_timestamp.is_same(&now_local.truncate_to_seconds()));
}
