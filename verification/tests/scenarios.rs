use postal_core::api::{
    read_step, response_status, zip_lookup_result, CityResponse, PrefectureResponse, ReadAction, ReadEvent,
    ReadRules, ReadState,
};
use postal_core::audit::make_rollback_audit_record;
use postal_core::config::DatabaseType;
use postal_core::feed::decode::records_from_rows;
use postal_core::feed::fold::build_replace_cache;
use postal_core::feed::prefecture::{build_prefecture_cache, PrefectureEntry};
use postal_core::models::PostalCode;
use postal_core::rollback::check_snapshot;
use postal_core::search::engine::SearchMode;
use postal_core::service::ApiError;
use postal_core::store::query::{get_by_zip, list_cities, list_prefectures, search, select_matching};
use postal_core::store::table::LiveTable;
use postal_core::timestamp::Timestamp;
use std::collections::VecDeque;

fn at(second: u32) -> Timestamp {
    Timestamp::new(2026, 2, 12, 0, 0, second, 0).unwrap()
}

fn record(zip: &str, id: i16, prefecture: &str, city_id: &str, city: &str, town: &str) -> PostalCode {
    PostalCode {
        zip_code: zip.to_string(),
        prefecture_id: id,
        city_id: city_id.to_string(),
        prefecture: prefecture.to_string(),
        city: city.to_string(),
        town: town.to_string(),
    }
}

fn seeded() -> LiveTable {
    let mut table = LiveTable::new();
    table.write(
        &vec![
            record("5300001", 27, "大阪府", "27127", "大阪市北区", "梅田"),
            record("1000001", 13, "東京都", "13101", "千代田区", "千代田"),
            record("1600022", 13, "東京都", "13104", "新宿区", "新宿"),
            record("1600023", 13, "東京都", "13104", "新宿区", "西新宿"),
            record("0600000", 1, "北海道", "01101", "札幌市中央区", ""),
            record("9800000", 0, "みやぎ", "04101", "せんだいし", "しんじゅくまち"),
            record("9800001", 0, "みやぎ", "04101", "センダイシ", "シンジュクマチ"),
            record("1000002", 13, "東京都", "13101", "千代田区", "皇居外苑"),
        ],
        at(1),
    );
    table
}

fn serve_zip(table: &LiveTable, zip: &str) -> (u16, Result<Vec<PostalCode>, ApiError>) {
    let rules = ReadRules { cache_configured: false, empty_is_not_found: true };
    let (state, action) = read_step(rules, ReadState::Start, ReadEvent::Begin);
    assert_eq!(action, ReadAction::QueryStore);
    let rows = get_by_zip(table, zip);
    let (state, action) = read_step(rules, state, ReadEvent::StoreAnswered { rows: rows.len() });
    assert_eq!(state, ReadState::Done);
    (response_status(action).expect("an answer"), zip_lookup_result(rows))
}

#[test]
fn a_known_zip_code_is_answered_with_its_records() {
    let (status, answer) = serve_zip(&seeded(), "1000001");
    assert_eq!(status, 200);
    let rows = answer.unwrap();
    assert!(!rows.is_empty());
    assert!(rows.iter().all(|r| r.zip_code == "1000001"));
    assert_eq!(rows, vec![record("1000001", 13, "東京都", "13101", "千代田区", "千代田")]);
}

#[test]
fn an_unknown_zip_code_is_not_found() {
    let (status, answer) = serve_zip(&LiveTable::new(), "9999999");
    assert_eq!(status, 404);
    let error = answer.unwrap_err();
    assert_eq!(error.message(), "not found");
    let (status, _) = serve_zip(&seeded(), "9999999");
    assert_eq!(status, 404);
}

#[test]
fn a_search_finds_both_kana_forms_within_the_limit() {
    let table = seeded();
    let found = search(&table, "しんじゅく", Some(10), Some("partial"));
    assert!(found.len() <= 10);
    assert_eq!(
        found,
        vec![
            record("9800000", 0, "みやぎ", "04101", "せんだいし", "しんじゅくまち"),
            record("9800001", 0, "みやぎ", "04101", "センダイシ", "シンジュクマチ"),
        ]
    );
    for r in &found {
        let columns = [&r.prefecture, &r.city, &r.town];
        assert!(columns.iter().any(|c| c.contains("しんじゅく") || c.contains("シンジュク")));
    }
}

#[test]
fn a_search_heeds_mode_and_limit() {
    let table = seeded();
    assert_eq!(search(&table, "東京都", Some(2), None).len(), 2);
    assert_eq!(search(&table, "東京都", None, Some("exact")).len(), 4);
    assert_eq!(search(&table, "東京", None, Some("exact")).len(), 0);
    assert_eq!(search(&table, "東京", None, Some("prefix")).len(), 4);
    assert_eq!(search(&table, "京都", None, Some("prefix")).len(), 0);
    assert_eq!(search(&table, "新宿", None, Some("partial")).len(), 2);
    assert_eq!(search(&table, "新宿", None, Some("exact")).len(), 1);
    assert_eq!(search(&table, " 新 宿 ", Some(1), Some("prefix")).len(), 1);
    assert_eq!(search(&table, "   ", None, None), Vec::<PostalCode>::new());
    assert_eq!(search(&table, "せんだい", Some(200), Some("prefix")).len(), 2);
    assert_eq!(search(&table, "センダイシ", Some(200), Some("exact")).len(), 2);
    assert_eq!(search(&table, "", None, Some("partial")).len(), 0);
    assert_eq!(select_matching(&table, SearchMode::Partial, "", 3).len(), 3);
    assert_eq!(select_matching(&table, SearchMode::Partial, "田", 0).len(), 0);
    assert_eq!(select_matching(&table, SearchMode::Partial, "田", 9).len(), 3);
}

#[test]
fn prefectures_are_listed_once_each_by_ascending_id() {
    let list = list_prefectures(&seeded());
    assert_eq!(
        list,
        vec![
            PrefectureResponse { prefecture_id: 0, prefecture: "みやぎ".to_string() },
            PrefectureResponse { prefecture_id: 1, prefecture: "北海道".to_string() },
            PrefectureResponse { prefecture_id: 13, prefecture: "東京都".to_string() },
            PrefectureResponse { prefecture_id: 27, prefecture: "大阪府".to_string() },
        ]
    );
    assert!(list.contains(&PrefectureResponse { prefecture_id: 13, prefecture: "東京都".to_string() }));
    assert!(list.windows(2).all(|w| w[0].prefecture_id <= w[1].prefecture_id));
    assert!(list_prefectures(&LiveTable::new()).is_empty());
}

#[test]
fn cities_are_listed_once_each_by_ascending_id() {
    let table = seeded();
    assert_eq!(
        list_cities(&table, 13),
        vec![
            CityResponse { city_id: "13101".to_string(), city: "千代田区".to_string() },
            CityResponse { city_id: "13104".to_string(), city: "新宿区".to_string() },
        ]
    );
    assert_eq!(
        list_cities(&table, 0),
        vec![
            CityResponse { city_id: "04101".to_string(), city: "せんだいし".to_string() },
            CityResponse { city_id: "04101".to_string(), city: "センダイシ".to_string() },
        ]
    );
    assert!(list_cities(&table, 47).is_empty());
    let mut mixed = LiveTable::new();
    mixed.write(
        &vec![
            record("1", 5, "p", "b", "x", ""),
            record("2", 5, "p", "ab", "x", ""),
            record("3", 5, "p", "a", "x", ""),
            record("4", 5, "p", "", "x", ""),
            record("5", 5, "p", "あ", "x", ""),
            record("6", 5, "p", "B", "x", ""),
        ],
        at(1),
    );
    let ids: Vec<String> = list_cities(&mixed, 5).into_iter().map(|c| c.city_id).collect();
    let mut sorted = ids.clone();
    sorted.sort();
    assert_eq!(ids, sorted);
    assert_eq!(ids, vec!["", "B", "a", "ab", "b", "あ"]);
}

#[test]
fn a_town_split_over_two_rows_is_stored_as_one_record() {
    let row = |town: &str| -> VecDeque<String> {
        ["X", "100", "1000001", "", "", "", "東京都", "千代田区", town, "0", "0", "0", "1", "0", "0"]
            .iter()
            .map(|s| s.to_string())
            .collect()
    };
    let table_of_prefectures = build_prefecture_cache(&vec![PrefectureEntry {
        label: Some("東京都".to_string()),
        id: Some("13".to_string()),
    }]);
    let records =
        records_from_rows(&vec![Some(row("A")), Some(row("B"))], &table_of_prefectures, &build_replace_cache());
    let mut table = LiveTable::new();
    table.write(&records, at(1));
    assert_eq!(table.len(), 1);
    assert_eq!(get_by_zip(&table, "1000001"), vec![record("1000001", 13, "東京都", "X", "千代田区", "AB")]);
}

#[test]
fn a_rollback_restores_the_snapshot_and_is_recorded() {
    let mut table = seeded();
    let snapshot = table.snapshot();
    let rows_then: Vec<PostalCode> = table.rows().iter().map(|r| r.record.clone()).collect();
    table.write(&vec![record("7", 7, "p", "c", "c", "t")], at(9));
    assert_eq!(table.len(), 1);
    assert!(check_snapshot("v20260212000001000", snapshot.len() as i64).is_ok());
    let restored = table.restore(&snapshot);
    let rows_now: Vec<PostalCode> = table.rows().iter().map(|r| r.record.clone()).collect();
    assert_eq!(rows_now, rows_then);
    assert!(table.rows().iter().all(|r| r.updated_at.is_same(&at(1)) && r.created_at.is_same(&at(1))));
    let now = Timestamp::new(2026, 2, 13, 1, 2, 3, 4_000_000).unwrap();
    let audit = make_rollback_audit_record(
        DatabaseType::Postgres,
        "v20260212000001000",
        restored as i64,
        now,
        now,
    );
    assert_eq!(audit.status.as_str(), "rollback");
    assert!(audit.data_version.starts_with('r'));
    assert_eq!(audit.inserted_count, 8);
    assert_eq!(audit.source_url, "rollback_cli:v20260212000001000");
    assert!(check_snapshot("v0", 0).is_err());
}
