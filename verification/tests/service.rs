use postal_core::api::{
    prefecture_id_param, read_step, response_status, zip_lookup_result, ReadAction, ReadEvent, ReadRules,
    ReadState,
};
use postal_core::cache::{
    cities_key, invalidation_pattern, prefectures_key, search_key, zip_key, Invalidation,
    InvalidationStep, SCAN_BATCH,
};
use postal_core::models::PostalCode;
use postal_core::scheduler::{after_cycle, batch_timestamp, first_stage, next_stage, CycleStage, SchedulerAction};
use postal_core::search::engine::SearchMode;
use postal_core::service::{
    liveness_status, readiness, resolve_cache_state, ApiError, CacheState, Metrics, ReadyReport,
};
use postal_core::timestamp::Timestamp;

#[test]
fn cache_state_is_resolved_from_the_three_switches() {
    for ping in [false, true] {
        for strict in [false, true] {
            assert_eq!(resolve_cache_state(false, ping, strict).map(|s| s.as_str()), Ok("disabled"));
        }
    }
    for strict in [false, true] {
        assert_eq!(resolve_cache_state(true, true, strict).map(|s| s.as_str()), Ok("ok"));
    }
    assert_eq!(resolve_cache_state(true, false, false).map(|s| s.as_str()), Ok("error"));
    assert_eq!(
        resolve_cache_state(true, false, true).map_err(|e| e.message()),
        Err("cache not ready")
    );
}

#[test]
fn readiness_needs_the_store_and_heeds_the_cache() {
    assert_eq!(readiness(false, true, true, false), Err(ApiError::DatabaseNotReady));
    assert_eq!(readiness(false, false, false, true).unwrap_err().message(), "database not ready");
    assert_eq!(readiness(false, false, false, true).unwrap_err().status_code(), 503);
    assert_eq!(readiness(true, false, false, true), Ok(ReadyReport { cache: CacheState::Disabled }));
    assert_eq!(readiness(true, true, true, true), Ok(ReadyReport { cache: CacheState::Available }));
    assert_eq!(readiness(true, true, false, false), Ok(ReadyReport { cache: CacheState::Unavailable }));
    assert_eq!(readiness(true, true, false, true), Err(ApiError::CacheNotReady));
    assert_eq!(ApiError::CacheNotReady.status_code(), 503);
    let report = readiness(true, true, true, false).unwrap();
    assert_eq!((report.status(), report.database(), report.cache.as_str()), ("ok", "ok", "ok"));
    assert_eq!(liveness_status(), "ok");
}

#[test]
fn errors_have_their_status_and_text() {
    assert_eq!((ApiError::NotFound.status_code(), ApiError::NotFound.message()), (404, "not found"));
    assert_eq!((ApiError::Store.status_code(), ApiError::Store.message()), (500, "internal server error"));
}

#[test]
fn metrics_count_requests_errors_and_latency() {
    let mut metrics = Metrics::new();
    metrics.record(200, 10_000);
    metrics.record(404, 30_000);
    metrics.record(500, 20_000);
    let snapshot = metrics.snapshot();
    assert_eq!(snapshot.requests_total, 3);
    assert_eq!(snapshot.not_found_total, 1);
    assert_eq!(snapshot.errors_total, 1);
    assert_eq!(snapshot.latency_total_micros, 60_000);
    let error_rate = snapshot.errors_total as f64 / snapshot.requests_total as f64;
    let average_latency_ms =
        snapshot.latency_total_micros as f64 / snapshot.requests_total as f64 / 1000.0;
    assert!((error_rate - 1.0 / 3.0).abs() < 1e-12);
    assert_eq!(average_latency_ms, 20.0);
}

#[test]
fn metrics_tell_server_errors_from_the_rest_and_start_over_when_full() {
    let mut metrics = Metrics::new();
    for status in [499, 500, 503, 599, 600, 404, 403] {
        metrics.record(status, 1);
    }
    assert_eq!(metrics.errors_total, 3);
    assert_eq!(metrics.not_found_total, 1);
    assert_eq!(metrics.requests_total, 7);
    let mut full = Metrics {
        requests_total: u64::MAX,
        errors_total: u64::MAX,
        not_found_total: u64::MAX,
        latency_total_micros: u64::MAX - 1,
    };
    full.record(500, 5);
    assert_eq!(full, Metrics { requests_total: 0, errors_total: 0, not_found_total: u64::MAX, latency_total_micros: 3 });
    assert_eq!(Metrics::new().requests_total, 0);
}

#[test]
fn cache_keys_are_built_from_their_parts() {
    assert_eq!(zip_key("1000001"), "postal:zip:1000001");
    assert_eq!(prefectures_key(), "postal:prefectures");
    assert_eq!(cities_key(13), "postal:cities:13");
    assert_eq!(cities_key(0), "postal:cities:0");
    assert_eq!(cities_key(-7), "postal:cities:-7");
    assert_eq!(cities_key(i16::MIN), "postal:cities:-32768");
    assert_eq!(search_key(SearchMode::Partial, "シンジュク", 10), "postal:search:partial:シンジュク:10");
    assert_eq!(search_key(SearchMode::Exact, "", 200), "postal:search:exact::200");
    assert_eq!(invalidation_pattern(), "postal:*");
    assert_eq!(SCAN_BATCH, 500);
}

#[test]
fn invalidation_scans_until_the_cursor_is_back_at_zero() {
    let mut progress = Invalidation::new();
    assert_eq!(progress.next_step(), InvalidationStep::Scan { cursor: 0 });
    progress.record_scan(17, 500);
    assert_eq!(progress.next_step(), InvalidationStep::Scan { cursor: 17 });
    progress.record_scan(42, 0);
    assert_eq!(progress.next_step(), InvalidationStep::Scan { cursor: 42 });
    progress.record_scan(0, 12);
    assert_eq!(progress.next_step(), InvalidationStep::Done);
    assert_eq!(progress.found, 512);
    progress.record_scan(5, 5);
    assert_eq!(progress.next_step(), InvalidationStep::Done);
    assert_eq!(progress.found, 512);
}

#[test]
fn invalidation_ends_on_a_failure_and_on_an_empty_cache() {
    let mut progress = Invalidation::new();
    progress.record_scan(9, 3);
    progress.record_failure();
    assert_eq!(progress.next_step(), InvalidationStep::Done);
    assert_eq!((progress.cursor, progress.found), (9, 3));
    let mut empty = Invalidation::new();
    empty.record_scan(0, 0);
    assert_eq!(empty.next_step(), InvalidationStep::Done);
}

#[test]
fn a_read_with_a_cache_asks_it_first() {
    let rules = ReadRules { cache_configured: true, empty_is_not_found: true };
    let (state, action) = read_step(rules, ReadState::Start, ReadEvent::Begin);
    assert_eq!((state, action), (ReadState::AwaitingCache, ReadAction::LookUpCache));
    assert_eq!(read_step(rules, state, ReadEvent::CacheHit), (ReadState::Done, ReadAction::RespondFromCache));
    let (state, action) = read_step(rules, state, ReadEvent::CacheMiss);
    assert_eq!((state, action), (ReadState::AwaitingStore, ReadAction::QueryStore));
    assert_eq!(
        read_step(rules, state, ReadEvent::StoreAnswered { rows: 2 }),
        (ReadState::Done, ReadAction::RespondRows { store_in_cache: true })
    );
    assert_eq!(
        read_step(rules, state, ReadEvent::StoreAnswered { rows: 0 }),
        (ReadState::Done, ReadAction::RespondError { error: ApiError::NotFound })
    );
    assert_eq!(
        read_step(rules, state, ReadEvent::StoreFailed),
        (ReadState::Done, ReadAction::RespondError { error: ApiError::Store })
    );
}

#[test]
fn a_read_without_a_cache_goes_to_the_store() {
    let rules = ReadRules { cache_configured: false, empty_is_not_found: false };
    let (state, action) = read_step(rules, ReadState::Start, ReadEvent::Begin);
    assert_eq!((state, action), (ReadState::AwaitingStore, ReadAction::QueryStore));
    assert_eq!(
        read_step(rules, state, ReadEvent::StoreAnswered { rows: 0 }),
        (ReadState::Done, ReadAction::RespondRows { store_in_cache: false })
    );
    assert_eq!(read_step(rules, state, ReadEvent::CacheHit), (state, ReadAction::Ignore));
    assert_eq!(read_step(rules, ReadState::Done, ReadEvent::Begin), (ReadState::Done, ReadAction::Ignore));
}

#[test]
fn answers_have_their_status() {
    assert_eq!(response_status(ReadAction::RespondFromCache), Some(200));
    assert_eq!(response_status(ReadAction::RespondRows { store_in_cache: false }), Some(200));
    assert_eq!(response_status(ReadAction::RespondError { error: ApiError::NotFound }), Some(404));
    assert_eq!(response_status(ReadAction::RespondError { error: ApiError::Store }), Some(500));
    assert_eq!(response_status(ReadAction::QueryStore), None);
    assert_eq!(response_status(ReadAction::Ignore), None);
}

#[test]
fn a_lookup_without_rows_is_not_found() {
    assert_eq!(zip_lookup_result(vec![]), Err(ApiError::NotFound));
    let row = PostalCode {
        zip_code: "1000001".to_string(),
        prefecture_id: 13,
        city_id: "13101".to_string(),
        prefecture: "東京都".to_string(),
        city: "千代田区".to_string(),
        town: "千代田".to_string(),
    };
    assert_eq!(zip_lookup_result(vec![row.clone()]), Ok(vec![row]));
}

#[test]
fn wide_prefecture_ids_are_refused() {
    assert_eq!(prefecture_id_param(13), Some(13));
    assert_eq!(prefecture_id_param(0), Some(0));
    assert_eq!(prefecture_id_param(32767), Some(32767));
    assert_eq!(prefecture_id_param(-32768), Some(-32768));
    assert_eq!(prefecture_id_param(32768), None);
    assert_eq!(prefecture_id_param(-32769), None);
    assert_eq!(prefecture_id_param(i64::MAX), None);
}

#[test]
fn the_scheduler_leaves_in_one_shot_mode_and_sleeps_otherwise() {
    for ok in [false, true] {
        assert_eq!(after_cycle(true, 86400, ok), SchedulerAction::Exit);
        assert_eq!(after_cycle(false, 86400, ok), SchedulerAction::Sleep { seconds: 86400 });
        assert_eq!(after_cycle(false, 5, ok), SchedulerAction::Sleep { seconds: 5 });
    }
    let now = Timestamp::new(2026, 2, 12, 21, 37, 5, 123_456_789).unwrap();
    let stamp = batch_timestamp(now);
    assert!(stamp.is_same(&Timestamp::new(2026, 2, 12, 21, 37, 5, 0).unwrap()));
}

#[test]
fn a_cycle_runs_its_stages_in_order() {
    let mut stage = first_stage();
    let mut seen = vec![stage];
    while stage != CycleStage::Succeeded {
        stage = next_stage(stage, true);
        seen.push(stage);
    }
    assert_eq!(
        seen,
        vec![
            CycleStage::Fetch,
            CycleStage::Unpack,
            CycleStage::Build,
            CycleStage::Write,
            CycleStage::Sweep,
            CycleStage::Audit,
            CycleStage::Snapshot,
            CycleStage::Invalidate,
            CycleStage::Succeeded,
        ]
    );
}

#[test]
fn a_failed_stage_ends_the_cycle() {
    for stage in [CycleStage::Fetch, CycleStage::Unpack, CycleStage::Build] {
        assert_eq!(next_stage(stage, false), CycleStage::Failed);
    }
    for stage in [CycleStage::Write, CycleStage::Sweep, CycleStage::Audit] {
        assert_eq!(next_stage(stage, false), CycleStage::AuditFailure);
    }
    assert_eq!(next_stage(CycleStage::Snapshot, false), CycleStage::Failed);
    assert_eq!(next_stage(CycleStage::AuditFailure, true), CycleStage::Failed);
    assert_eq!(next_stage(CycleStage::AuditFailure, false), CycleStage::Failed);
    assert_eq!(next_stage(CycleStage::Invalidate, false), CycleStage::Succeeded);
    assert_eq!(next_stage(CycleStage::Failed, true), CycleStage::Failed);
    assert_eq!(next_stage(CycleStage::Succeeded, false), CycleStage::Succeeded);
}
