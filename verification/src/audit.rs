//! The record of a run: its data version, its counts and its status.

use vstd::prelude::*;
use vstd::string::StringExecFns;

use crate::config::DatabaseType;
use crate::text::{lemma_zero_padded_shape, pow10, push_zero_padded, zero_padded};
use crate::timestamp::{Timestamp, TimestampView};

verus! {

/// How a run ended.
#[derive(Debug, Clone, Copy, PartialEq, Eq, Structural)]
pub enum AuditStatus {
    Success,
    Failed,
    Rollback,
}

impl AuditStatus {
    /// The word that stands for the status in an audit row.
    pub open spec fn name(self) -> Seq<char> {
        match self {
            AuditStatus::Success => "success"@,
            AuditStatus::Failed => "failed"@,
            AuditStatus::Rollback => "rollback"@,
        }
    }

    /// The word that stands for the status in an audit row.
    pub fn as_str(&self) -> (name: &'static str)
        ensures
            name@ == self.name(),
    {
        match self {
            AuditStatus::Success => "success",
            AuditStatus::Failed => "failed",
            AuditStatus::Rollback => "rollback",
        }
    }
}

/// One audit row: what a run did.
#[derive(Debug)]
pub struct DataUpdateAuditRecord {
    pub data_version: String,
    pub database_type: DatabaseType,
    pub source_url: String,
    pub run_started_at: Timestamp,
    pub run_finished_at: Timestamp,
    pub batch_timestamp: Timestamp,
    pub records_in_feed: i64,
    pub inserted_count: i64,
    pub updated_count: i64,
    pub deleted_count: i64,
    pub total_count: i64,
    pub status: AuditStatus,
    pub error_message: Option<String>,
}

impl Clone for DataUpdateAuditRecord {
    fn clone(&self) -> (copy: Self)
        ensures
            copy == *self,
    {
        DataUpdateAuditRecord {
            data_version: self.data_version.clone(),
            database_type: self.database_type,
            source_url: self.source_url.clone(),
            run_started_at: self.run_started_at,
            run_finished_at: self.run_finished_at,
            batch_timestamp: self.batch_timestamp,
            records_in_feed: self.records_in_feed,
            inserted_count: self.inserted_count,
            updated_count: self.updated_count,
            deleted_count: self.deleted_count,
            total_count: self.total_count,
            status: self.status,
            error_message: match &self.error_message {
                Some(message) => Some(message.clone()),
                None => None,
            },
        }
    }
}

/// The data version of a run that was stamped with the given time: `v`,
/// the fourteen digits of date and time, and the milliseconds with three
/// digits.
pub open spec fn data_version_text(stamp: TimestampView) -> Seq<char> {
    seq!['v'] + stamp.compact() + zero_padded(stamp.millisecond() as nat, 3)
}

/// The data version under which a rollback is recorded: `r` in front of
/// the data version of the time of the rollback.
pub open spec fn rollback_version_text(stamp: TimestampView) -> Seq<char> {
    seq!['r'] + data_version_text(stamp)
}

/// The source that a rollback is recorded with: where it came from, and
/// the data version it restored.
pub open spec fn rollback_source_text(target: Seq<char>) -> Seq<char> {
    "rollback_cli:"@ + target
}

/// A data version is `v` followed by seventeen digits.
pub proof fn lemma_data_version_shape(stamp: TimestampView)
    requires
        stamp.valid(),
    ensures
        data_version_text(stamp).len() == 18,
        data_version_text(stamp)[0] == 'v',
        forall|i: int| 1 <= i < 18 ==> '0' <= #[trigger] data_version_text(stamp)[i] <= '9',
        data_version_text(stamp).subrange(15, 18) == zero_padded(stamp.millisecond() as nat, 3),
{
    assert(pow10(2) == 100 && pow10(3) == 1000 && pow10(4) == 10000) by {
        reveal_with_fuel(pow10, 5);
    }
    lemma_zero_padded_shape(stamp.year as nat, 4);
    lemma_zero_padded_shape(stamp.month as nat, 2);
    lemma_zero_padded_shape(stamp.day as nat, 2);
    lemma_zero_padded_shape(stamp.hour as nat, 2);
    lemma_zero_padded_shape(stamp.minute as nat, 2);
    lemma_zero_padded_shape(stamp.second as nat, 2);
    lemma_zero_padded_shape(stamp.millisecond() as nat, 3);
    let version = data_version_text(stamp);
    let y = zero_padded(stamp.year as nat, 4);
    let mo = zero_padded(stamp.month as nat, 2);
    let d = zero_padded(stamp.day as nat, 2);
    let h = zero_padded(stamp.hour as nat, 2);
    let mi = zero_padded(stamp.minute as nat, 2);
    let s = zero_padded(stamp.second as nat, 2);
    let ms = zero_padded(stamp.millisecond() as nat, 3);
    assert(version =~= seq!['v'] + y + mo + d + h + mi + s + ms);
    assert forall|i: int| 1 <= i < 18 implies '0' <= #[trigger] version[i] <= '9' by {
        if i < 5 {
            assert(version[i] == y[i - 1]);
        } else if i < 7 {
            assert(version[i] == mo[i - 5]);
        } else if i < 9 {
            assert(version[i] == d[i - 7]);
        } else if i < 11 {
            assert(version[i] == h[i - 9]);
        } else if i < 13 {
            assert(version[i] == mi[i - 11]);
        } else if i < 15 {
            assert(version[i] == s[i - 13]);
        } else {
            assert(version[i] == ms[i - 15]);
        }
    }
    assert(version.subrange(15, 18) =~= ms);
}

/// Builds the data version of a run from its time stamp.
pub fn build_data_version(batch_timestamp: Timestamp) -> (version: String)
    ensures
        version@ == data_version_text(batch_timestamp@),
        version@.len() == 18,
        version@[0] == 'v',
        forall|i: int| 1 <= i < 18 ==> '0' <= #[trigger] version@[i] <= '9',
{
    let mut version = String::from_str("v");
    proof {
        reveal_strlit("v");
        assert("v"@ =~= seq!['v']);
    }
    version.append(batch_timestamp.compact().as_str());
    push_zero_padded(&mut version, batch_timestamp.millisecond() as u64, 3);
    batch_timestamp.note_valid();
    proof {
        lemma_data_version_shape(batch_timestamp@);
    }
    version
}

/// The data version under which a rollback at the given time is recorded.
pub fn build_rollback_data_version(now: Timestamp) -> (version: String)
    ensures
        version@ == rollback_version_text(now@),
        version@.len() == 19,
        version@[0] == 'r',
{
    let mut version = String::from_str("r");
    proof {
        reveal_strlit("r");
        assert("r"@ =~= seq!['r']);
    }
    version.append(build_data_version(now).as_str());
    version
}

/// The rows that a run updated: those it touched and did not insert; none
/// where the counts say that it inserted more than it touched.
pub open spec fn updated_of(touched: int, inserted: int) -> int {
    if touched > inserted {
        touched - inserted
    } else {
        0
    }
}

/// A count as it is stored: itself where a 64-bit number holds it, else the
/// largest 64-bit number.
pub open spec fn stored_count(count: int) -> int {
    if count > i64::MAX {
        i64::MAX as int
    } else {
        count
    }
}

/// The counts of a run, from what the live table shows after it: the rows
/// stamped with the run's time (`touched_count`), those of them created
/// with the same stamp (`inserted_count`), and all rows (`total_count`).
/// The result is the inserted, the updated and the total count.
pub fn compute_diff_counts(touched_count: i64, inserted_count: i64, total_count: i64) -> (counts: (
    i64,
    i64,
    i64,
))
    ensures
        counts.0 == inserted_count,
        counts.1 == stored_count(updated_of(touched_count as int, inserted_count as int)),
        counts.2 == total_count,
{
    let difference: i128 = touched_count as i128 - inserted_count as i128;
    let updated: i64 = if difference <= 0 {
        0
    } else if difference > i64::MAX as i128 {
        i64::MAX
    } else {
        difference as i64
    };
    (inserted_count, updated, total_count)
}

/// Where the inserted rows are among the touched ones, as they are in any
/// table, the inserted and the updated count add up to the touched count.
pub proof fn lemma_inserted_and_updated_add_up(touched: int, inserted: int)
    requires
        0 <= inserted <= touched <= i64::MAX,
    ensures
        inserted + stored_count(updated_of(touched, inserted)) == touched,
{
}

/// The number of records of a feed as an audit row holds it.
pub fn feed_count(feed_len: usize) -> (count: i64)
    ensures
        count == stored_count(feed_len as int),
{
    let wide: u64 = feed_len as u64;
    if wide > 0x7fff_ffff_ffff_ffff {
        i64::MAX
    } else {
        wide as i64
    }
}

/// The audit row of a run that succeeded.
pub fn make_success_audit_record(
    database_type: DatabaseType,
    source_url: &str,
    run_started_at: Timestamp,
    run_finished_at: Timestamp,
    batch_timestamp: Timestamp,
    feed_len: usize,
    counts: (i64, i64, i64),
    deleted_count: i64,
) -> (record: DataUpdateAuditRecord)
    ensures
        record.data_version@ == data_version_text(batch_timestamp@),
        record.database_type == database_type,
        record.source_url@ == source_url@,
        record.run_started_at == run_started_at,
        record.run_finished_at == run_finished_at,
        record.batch_timestamp == batch_timestamp,
        record.records_in_feed == stored_count(feed_len as int),
        record.inserted_count == counts.0,
        record.updated_count == counts.1,
        record.deleted_count == deleted_count,
        record.total_count == counts.2,
        record.status == AuditStatus::Success,
        record.error_message is None,
{
    DataUpdateAuditRecord {
        data_version: build_data_version(batch_timestamp),
        database_type,
        source_url: String::from_str(source_url),
        run_started_at,
        run_finished_at,
        batch_timestamp,
        records_in_feed: feed_count(feed_len),
        inserted_count: counts.0,
        updated_count: counts.1,
        deleted_count,
        total_count: counts.2,
        status: AuditStatus::Success,
        error_message: None,
    }
}

/// The audit row of a run that failed: no row is counted, and the error is
/// kept.
pub fn make_failed_audit_record(
    database_type: DatabaseType,
    source_url: &str,
    run_started_at: Timestamp,
    run_finished_at: Timestamp,
    batch_timestamp: Timestamp,
    feed_len: usize,
    error_message: &str,
) -> (record: DataUpdateAuditRecord)
    ensures
        record.data_version@ == data_version_text(batch_timestamp@),
        record.database_type == database_type,
        record.source_url@ == source_url@,
        record.run_started_at == run_started_at,
        record.run_finished_at == run_finished_at,
        record.batch_timestamp == batch_timestamp,
        record.records_in_feed == stored_count(feed_len as int),
        record.inserted_count == 0,
        record.updated_count == 0,
        record.deleted_count == 0,
        record.total_count == 0,
        record.status == AuditStatus::Failed,
        record.error_message matches Some(message) && message@ == error_message@,
{
    DataUpdateAuditRecord {
        data_version: build_data_version(batch_timestamp),
        database_type,
        source_url: String::from_str(source_url),
        run_started_at,
        run_finished_at,
        batch_timestamp,
        records_in_feed: feed_count(feed_len),
        inserted_count: 0,
        updated_count: 0,
        deleted_count: 0,
        total_count: 0,
        status: AuditStatus::Failed,
        error_message: Some(String::from_str(error_message)),
    }
}

/// The audit row of a rollback to `target_data_version` that restored
/// `restored_count` rows, made at `now_local` by the clock of the place and
/// `now_utc` by universal time.
pub fn make_rollback_audit_record(
    database_type: DatabaseType,
    target_data_version: &str,
    restored_count: i64,
    now_utc: Timestamp,
    now_local: Timestamp,
) -> (record: DataUpdateAuditRecord)
    ensures
        record.data_version@ == rollback_version_text(now_local@),
        record.data_version@[0] == 'r',
        record.database_type == database_type,
        record.source_url@ == rollback_source_text(target_data_version@),
        record.run_started_at == now_utc,
        record.run_finished_at == now_utc,
        record.batch_timestamp@ == now_local@.truncated(),
        record.records_in_feed == restored_count,
        record.inserted_count == restored_count,
        record.updated_count == 0,
        record.deleted_count == 0,
        record.total_count == restored_count,
        record.status == AuditStatus::Rollback,
        record.error_message is None,
{
    let mut source_url = String::from_str("rollback_cli:");
    source_url.append(target_data_version);
    DataUpdateAuditRecord {
        data_version: build_rollback_data_version(now_local),
        database_type,
        source_url,
        run_started_at: now_utc,
        run_finished_at: now_utc,
        batch_timestamp: now_local.truncate_to_seconds(),
        records_in_feed: restored_count,
        inserted_count: restored_count,
        updated_count: 0,
        deleted_count: 0,
        total_count: restored_count,
        status: AuditStatus::Rollback,
        error_message: None,
    }
}

} // verus!
