use postal_core::models::PostalCode;
use postal_core::writer::plan::{
    determine_thread_num, next_chunk, plan_chunks, plan_shards, shard_range, thread_num_for, CHUNK_SIZE,
};
use postal_core::writer::query_builder::build_pg_bulk_insert_query;
use postal_core::config::DatabaseType;
use postal_core::writer::retry::{
    mysql_outcome, pause_millis, postgres_outcome, retry_transaction, AttemptOutcome, RetryAction,
    ShardAction, ShardProgress, MAX_RETRIES, MYSQL_DEADLOCK_CODE,
};
use postal_core::writer::rows::{live_table_name, trim_for_mysql, upsert_columns};

const CONFLICT: &str = " ON CONFLICT (zip_code, prefecture_id, city, town) DO UPDATE SET prefecture = EXCLUDED.prefecture, town = EXCLUDED.town, updated_at = EXCLUDED.updated_at;";

#[test]
fn workers_are_one_less_than_the_cores_and_at_least_one() {
    assert_eq!(thread_num_for(0), 1);
    assert_eq!(thread_num_for(1), 1);
    assert_eq!(thread_num_for(2), 1);
    assert_eq!(thread_num_for(3), 2);
    assert_eq!(thread_num_for(8), 7);
    assert_eq!(thread_num_for(usize::MAX), usize::MAX - 1);
    assert!(determine_thread_num() >= 1);
}

#[test]
fn shards_cover_the_batch_without_gap_or_overlap() {
    assert_eq!(plan_shards(10, 3), vec![(0, 3), (3, 6), (6, 10)]);
    assert_eq!(plan_shards(10, 1), vec![(0, 10)]);
    assert_eq!(plan_shards(2, 4), vec![(0, 0), (0, 0), (0, 0), (0, 2)]);
    assert_eq!(plan_shards(0, 2), vec![(0, 0), (0, 0)]);
    assert_eq!(shard_range(124_000, 7, 6), (106_284, 124_000));
    for (len, workers) in [(0usize, 1usize), (1, 1), (7, 3), (124_000, 7), (5, 8)] {
        let shards = plan_shards(len, workers);
        assert_eq!(shards.len(), workers);
        assert_eq!(shards[0].0, 0);
        assert_eq!(shards[workers - 1].1, len);
        for i in 0..workers {
            assert!(shards[i].0 <= shards[i].1);
            if i + 1 < workers {
                assert_eq!(shards[i].1, shards[i + 1].0);
            }
        }
    }
}

#[test]
fn chunks_hold_two_hundred_records_at_most() {
    assert_eq!(CHUNK_SIZE, 200);
    assert_eq!(plan_chunks(0), vec![]);
    assert_eq!(plan_chunks(1), vec![(0, 1)]);
    assert_eq!(plan_chunks(200), vec![(0, 200)]);
    assert_eq!(plan_chunks(201), vec![(0, 200), (200, 201)]);
    assert_eq!(plan_chunks(450), vec![(0, 200), (200, 400), (400, 450)]);
    assert_eq!(next_chunk(400, 450), Some((400, 450)));
    assert_eq!(next_chunk(0, 450), Some((0, 200)));
    assert_eq!(next_chunk(450, 450), None);
    assert_eq!(next_chunk(500, 450), None);
}

#[test]
fn a_deadlock_is_retried_three_times_and_other_errors_never() {
    assert_eq!(MAX_RETRIES, 3);
    assert_eq!(retry_transaction(0, 3, AttemptOutcome::Committed), (0, RetryAction::Finish));
    assert_eq!(retry_transaction(2, 3, AttemptOutcome::Committed), (2, RetryAction::Finish));
    assert_eq!(retry_transaction(0, 3, AttemptOutcome::Deadlock), (1, RetryAction::Retry));
    assert_eq!(retry_transaction(2, 3, AttemptOutcome::Deadlock), (3, RetryAction::Retry));
    assert_eq!(retry_transaction(3, 3, AttemptOutcome::Deadlock), (3, RetryAction::GiveUp));
    assert_eq!(retry_transaction(0, 3, AttemptOutcome::Failed), (0, RetryAction::GiveUp));
    assert_eq!(retry_transaction(0, 0, AttemptOutcome::Deadlock), (0, RetryAction::GiveUp));
    let mut attempt = 0;
    let mut tries = 0;
    loop {
        tries += 1;
        let (next, action) = retry_transaction(attempt, MAX_RETRIES, AttemptOutcome::Deadlock);
        attempt = next;
        if action != RetryAction::Retry {
            break;
        }
    }
    assert_eq!(tries, 4);
}

#[test]
fn deadlocks_are_told_by_their_codes() {
    assert_eq!(postgres_outcome(Some("40P01")), AttemptOutcome::Deadlock);
    assert_eq!(postgres_outcome(Some("23505")), AttemptOutcome::Failed);
    assert_eq!(postgres_outcome(Some("40p01")), AttemptOutcome::Failed);
    assert_eq!(postgres_outcome(None), AttemptOutcome::Failed);
    assert_eq!(MYSQL_DEADLOCK_CODE, 1213);
    assert_eq!(mysql_outcome(Some(1213)), AttemptOutcome::Deadlock);
    assert_eq!(mysql_outcome(Some(1062)), AttemptOutcome::Failed);
    assert_eq!(mysql_outcome(None), AttemptOutcome::Failed);
}

#[test]
fn a_shard_is_written_chunk_by_chunk_in_order() {
    let mut progress = ShardProgress::new(100, 550);
    assert_eq!(
        progress.first_action(),
        ShardAction::WriteChunk { from: 100, to: 300, after_deadlock: false }
    );
    assert_eq!(
        progress.advance(AttemptOutcome::Deadlock),
        ShardAction::WriteChunk { from: 100, to: 300, after_deadlock: true }
    );
    assert_eq!(
        progress.advance(AttemptOutcome::Committed),
        ShardAction::WriteChunk { from: 300, to: 500, after_deadlock: false }
    );
    assert_eq!(progress.attempt, 0);
    assert_eq!(
        progress.advance(AttemptOutcome::Committed),
        ShardAction::WriteChunk { from: 500, to: 550, after_deadlock: false }
    );
    assert_eq!(progress.advance(AttemptOutcome::Committed), ShardAction::Finished);
    assert_eq!(progress.advance(AttemptOutcome::Failed), ShardAction::Finished);
    assert_eq!(ShardProgress::new(5, 5).first_action(), ShardAction::Finished);
}

#[test]
fn a_shard_is_given_up_after_the_retries_or_on_another_error() {
    let mut progress = ShardProgress::new(0, 10);
    for _ in 0..3 {
        assert_eq!(
            progress.advance(AttemptOutcome::Deadlock),
            ShardAction::WriteChunk { from: 0, to: 10, after_deadlock: true }
        );
    }
    assert_eq!(progress.advance(AttemptOutcome::Deadlock), ShardAction::Aborted);
    assert_eq!(progress.advance(AttemptOutcome::Committed), ShardAction::Aborted);
    assert_eq!(progress.position, 0);
    let mut other = ShardProgress::new(0, 10);
    assert_eq!(other.advance(AttemptOutcome::Failed), ShardAction::Aborted);
}

#[test]
fn the_upsert_numbers_its_placeholders_row_by_row() {
    let data = vec![vec![1, 2, 3], vec![4, 5, 6]];
    let (query, params) = build_pg_bulk_insert_query("postal_codes", &["a", "b", "c"], &data);
    assert_eq!(
        query,
        format!("INSERT INTO postal_codes (a, b, c) VALUES ($1, $2, $3), ($4, $5, $6){}", CONFLICT)
    );
    assert_eq!(params, vec![1, 2, 3, 4, 5, 6]);
}

#[test]
fn the_upsert_of_no_rows_and_of_one_column() {
    let none: Vec<Vec<u8>> = vec![];
    let (query, params) = build_pg_bulk_insert_query("t", &[], &none);
    assert_eq!(query, format!("INSERT INTO t () VALUES {}", CONFLICT));
    assert!(params.is_empty());
    let (query, params) = build_pg_bulk_insert_query("t", &["x"], &vec![vec!['a'], vec!['b'], vec![]]);
    assert_eq!(query, format!("INSERT INTO t (x) VALUES ($1), ($2), (){}", CONFLICT));
    assert_eq!(params, vec!['a', 'b']);
}

#[test]
fn a_full_chunk_reaches_placeholder_sixteen_hundred() {
    let data: Vec<Vec<u32>> = (0..200).map(|i| vec![i; 8]).collect();
    let columns = upsert_columns();
    let (query, params) = build_pg_bulk_insert_query(live_table_name(), &columns, &data);
    assert!(query.starts_with(
        "INSERT INTO postal_codes (zip_code, prefecture_id, city_id, prefecture, city, town, created_at, updated_at) VALUES ($1, $2, $3, $4, $5, $6, $7, $8), ($9, "
    ));
    assert!(query.contains("($1593, $1594, $1595, $1596, $1597, $1598, $1599, $1600) ON CONFLICT"));
    assert_eq!(params.len(), 1600);
}

#[test]
fn mysql_rows_are_trimmed() {
    let record = PostalCode {
        zip_code: " 1000001 ".to_string(),
        prefecture_id: 13,
        city_id: " 13101".to_string(),
        prefecture: " 東京都\u{3000}".to_string(),
        city: "\t千代田区 \n".to_string(),
        town: "  丸 の 内  ".to_string(),
    };
    let stored = trim_for_mysql(&record);
    assert_eq!(stored.zip_code, " 1000001 ");
    assert_eq!(stored.city_id, " 13101");
    assert_eq!(stored.prefecture, "東京都");
    assert_eq!(stored.city, "千代田区");
    assert_eq!(stored.town, "丸 の 内");
    assert_eq!(stored.prefecture_id, 13);
}

#[test]
fn a_worker_waits_before_retries_and_between_chunks() {
    let fresh = ShardAction::WriteChunk { from: 0, to: 200, after_deadlock: false };
    let retry = ShardAction::WriteChunk { from: 0, to: 200, after_deadlock: true };
    assert_eq!(pause_millis(DatabaseType::Postgres, fresh, true), 0);
    assert_eq!(pause_millis(DatabaseType::Postgres, fresh, false), 200);
    assert_eq!(pause_millis(DatabaseType::Postgres, retry, true), 200);
    assert_eq!(pause_millis(DatabaseType::MySql, fresh, true), 0);
    assert_eq!(pause_millis(DatabaseType::MySql, fresh, false), 500);
    assert_eq!(pause_millis(DatabaseType::MySql, retry, false), 500);
    assert_eq!(pause_millis(DatabaseType::MySql, ShardAction::Finished, false), 0);
    assert_eq!(pause_millis(DatabaseType::Postgres, ShardAction::Aborted, false), 0);
}
