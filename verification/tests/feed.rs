use postal_core::feed::decode::{
    csv_stream_format, records_from_rows, skipped_rows, try_csv_stream_format, DecodeError,
    SkippedRow,
};
use postal_core::feed::fold::{
    build_replace_cache, remove_parentheses, replace_japanese_to_alphanumeric_with_cache,
};
use postal_core::feed::merge::{dedup_by_primary_key, merge_continuations};
use postal_core::feed::prefecture::{build_prefecture_cache, PrefectureEntry, PrefectureTable};
use postal_core::feed::record::format_csv_record_with_cache;
use postal_core::models::PostalCode;
use std::collections::VecDeque;

fn entry(label: &str, id: &str) -> PrefectureEntry {
    PrefectureEntry { label: Some(label.to_string()), id: Some(id.to_string()) }
}

fn prefectures() -> PrefectureTable {
    build_prefecture_cache(&vec![entry("北海道", "1"), entry("東京都", "13"), entry("大阪府", "27")])
}

fn row(city_id: &str, zip: &str, prefecture: &str, city: &str, town: &str, flag: &str) -> VecDeque<String> {
    let fields = vec![
        city_id, "100", zip, "ﾄｳｷｮｳﾄ", "ﾁﾖﾀﾞｸ", "ｲｶﾆｹｲｻｲｶﾞﾅｲﾊﾞｱｲ", prefecture, city, town, "0", "0", "0",
        flag, "0", "0",
    ];
    fields.into_iter().map(String::from).collect()
}

fn record(zip: &str, city_id: &str, town: &str) -> PostalCode {
    PostalCode {
        zip_code: zip.to_string(),
        prefecture_id: 13,
        city_id: city_id.to_string(),
        prefecture: "東京都".to_string(),
        city: "千代田区".to_string(),
        town: town.to_string(),
    }
}

#[test]
fn replace_cache_holds_the_fourteen_entries() {
    let cache = build_replace_cache();
    assert_eq!(cache.len(), 14);
    assert_eq!(cache.get(&('（' as u32)), Some(&'('));
    assert_eq!(cache.get(&('）' as u32)), Some(&')'));
    assert_eq!(cache.get(&('ー' as u32)), Some(&'-'));
    assert_eq!(cache.get(&('、' as u32)), Some(&','));
    assert_eq!(cache.get(&('０' as u32)), Some(&'0'));
    assert_eq!(cache.get(&('９' as u32)), Some(&'9'));
    assert_eq!(cache.get(&('a' as u32)), None);
}

#[test]
fn folding_replaces_table_characters_and_keeps_the_rest() {
    let cache = build_replace_cache();
    assert_eq!(
        replace_japanese_to_alphanumeric_with_cache("銀座（１２３４５６７８９０丁目、ー）", &cache),
        "銀座(1234567890丁目,-)"
    );
    assert_eq!(replace_japanese_to_alphanumeric_with_cache("", &cache), "");
    assert_eq!(replace_japanese_to_alphanumeric_with_cache("abc", &cache), "abc");
}

#[test]
fn parenthesised_remarks_are_removed() {
    assert_eq!(remove_parentheses("銀座(1丁目)"), "銀座");
    assert_eq!(remove_parentheses("a(b(c)d)e"), "ae");
    assert_eq!(remove_parentheses("a)b(c"), "ab");
    assert_eq!(remove_parentheses("(a)(b)c"), "c");
    assert_eq!(remove_parentheses(""), "");
}

#[test]
fn prefecture_table_resolves_labels_and_defaults_to_zero() {
    let table = prefectures();
    assert_eq!(table.prefecture_id("東京都"), 13);
    assert_eq!(table.prefecture_id("大阪府"), 27);
    assert_eq!(table.prefecture_id("火星"), 0);
    assert_eq!(table.get("北海道").map(|s| s.as_str()), Some("1"));
    assert_eq!(table.get("火星"), None);
}

#[test]
fn prefecture_table_skips_incomplete_entries_and_lets_the_last_win() {
    let table = build_prefecture_cache(&vec![
        entry("東京都", "13"),
        PrefectureEntry { label: None, id: Some("5".to_string()) },
        PrefectureEntry { label: Some("京都府".to_string()), id: None },
        entry("東京都", "99"),
        entry("大阪府", "\"27\""),
        entry("沖縄県", "99999"),
    ]);
    assert_eq!(table.prefecture_id("東京都"), 99);
    assert_eq!(table.prefecture_id("京都府"), 0);
    assert_eq!(table.prefecture_id("大阪府"), 0);
    assert_eq!(table.prefecture_id("沖縄県"), 0);
}

#[test]
fn a_row_becomes_a_record_and_a_flag() {
    let cache = build_replace_cache();
    let table = prefectures();
    let (rec, flag) = format_csv_record_with_cache(
        &row("13101", "1000004", "東京都", "千代田区", "大手町（次のビルを除く）", "1"),
        &table,
        &cache,
    );
    assert_eq!(
        rec,
        PostalCode {
            zip_code: "1000004".to_string(),
            prefecture_id: 13,
            city_id: "13101".to_string(),
            prefecture: "東京都".to_string(),
            city: "千代田区".to_string(),
            town: "大手町(次のビルを除く)".to_string(),
        }
    );
    assert!(flag);
    assert_eq!(remove_parentheses(&rec.town), "大手町");
}

#[test]
fn the_unlisted_town_becomes_empty_and_unknown_prefecture_zero() {
    let cache = build_replace_cache();
    let table = prefectures();
    let (rec, flag) = format_csv_record_with_cache(
        &row("99999", "1000000", "火星", "千代田区", "以下に掲載がない場合", "0"),
        &table,
        &cache,
    );
    assert_eq!(rec.town, "");
    assert_eq!(rec.prefecture_id, 0);
    assert_eq!(rec.prefecture, "火星");
    assert!(!flag);
}

#[test]
fn a_short_row_reads_missing_columns_as_empty() {
    let cache = build_replace_cache();
    let table = prefectures();
    let short: VecDeque<String> = vec!["13101".to_string(), "100".to_string(), "1000001".to_string()].into();
    let (rec, flag) = format_csv_record_with_cache(&short, &table, &cache);
    assert_eq!(rec.city_id, "13101");
    assert_eq!(rec.zip_code, "1000001");
    assert_eq!(rec.prefecture, "");
    assert_eq!(rec.prefecture_id, 0);
    assert_eq!(rec.city, "");
    assert_eq!(rec.town, "");
    assert!(!flag);
}

#[test]
fn two_flagged_rows_of_one_place_merge() {
    let merged = merge_continuations(vec![
        (record("1000001", "X", "A"), true),
        (record("1000001", "X", "B"), true),
    ]);
    assert_eq!(merged, vec![record("1000001", "X", "AB")]);
}

#[test]
fn rows_do_not_merge_when_either_lacks_the_flag() {
    let a = record("1000001", "X", "A");
    let b = record("1000001", "X", "B");
    for (fa, fb) in [(true, false), (false, true), (false, false)] {
        let merged = merge_continuations(vec![(a.clone(), fa), (b.clone(), fb)]);
        assert_eq!(merged, vec![a.clone(), b.clone()]);
    }
}

#[test]
fn rows_of_different_places_do_not_merge() {
    let a = record("1000001", "X", "A");
    let other_zip = record("1000002", "X", "B");
    let other_city = record("1000001", "Y", "B");
    assert_eq!(
        merge_continuations(vec![(a.clone(), true), (other_zip.clone(), true)]),
        vec![a.clone(), other_zip]
    );
    assert_eq!(
        merge_continuations(vec![(a.clone(), true), (other_city.clone(), true)]),
        vec![a, other_city]
    );
}

#[test]
fn a_run_of_three_merges_and_the_next_record_starts_anew() {
    let merged = merge_continuations(vec![
        (record("1000001", "X", "A"), true),
        (record("1000001", "X", "B"), true),
        (record("1000001", "X", "C"), true),
        (record("1000002", "X", "D"), false),
    ]);
    assert_eq!(merged, vec![record("1000001", "X", "ABC"), record("1000002", "X", "D")]);
    assert_eq!(merge_continuations(vec![]), Vec::<PostalCode>::new());
}

#[test]
fn duplicates_on_the_primary_key_keep_the_first() {
    let mut twin = record("1000001", "OTHER", "A");
    twin.prefecture = "別".to_string();
    let kept = dedup_by_primary_key(vec![
        record("1000001", "X", "A"),
        record("1000002", "X", "A"),
        twin,
        record("1000001", "X", "B"),
        record("1000002", "X", "A"),
    ]);
    assert_eq!(
        kept,
        vec![record("1000001", "X", "A"), record("1000002", "X", "A"), record("1000001", "X", "B")]
    );
    for i in 0..kept.len() {
        for j in 0..i {
            assert!(!kept[i].same_primary_key(&kept[j]));
        }
    }
}

#[test]
fn rows_that_failed_or_are_too_short_are_skipped() {
    let cache = build_replace_cache();
    let table = prefectures();
    let short: VecDeque<String> = vec!["13101".to_string(); 12].into();
    let rows = vec![
        Some(row("13101", "1000001", "東京都", "千代田区", "A", "1")),
        None,
        Some(short),
        Some(row("13101", "1000001", "東京都", "千代田区", "B", "1")),
    ];
    let records = records_from_rows(&rows, &table, &cache);
    assert_eq!(records, vec![record("1000001", "13101", "AB")]);
    assert_eq!(
        skipped_rows(&rows),
        vec![
            SkippedRow { row: 1, error: DecodeError::Unreadable },
            SkippedRow { row: 2, error: DecodeError::TooShort { columns: 12 } },
        ]
    );
}

#[test]
fn a_shift_jis_feed_is_decoded_parsed_merged_and_deduplicated() {
    let text = "\
13101,\"100  \",\"1000001\",\"ﾄｳｷｮｳﾄ\",\"ﾁﾖﾀﾞｸ\",\"ｱ\",\"東京都\",\"千代田区\",\"大手町（１\",0,0,0,1,0,0\r\n\
13101,\"100  \",\"1000001\",\"ﾄｳｷｮｳﾄ\",\"ﾁﾖﾀﾞｸ\",\"ｱ\",\"東京都\",\"千代田区\",\"丁目）ビル\",0,0,0,1,0,0\r\n\
13101,\"100  \",\"1000002\",\"ﾄｳｷｮｳﾄ\",\"ﾁﾖﾀﾞｸ\",\"ｱ\",\"東京都\",\"千代田区\",\"以下に掲載がない場合\",0,0,0,0,0,0\r\n\
13101,\"100  \",\"1000002\"\r\n\
13101,\"100  \",\"1000002\",\"ﾄｳｷｮｳﾄ\",\"ﾁﾖﾀﾞｸ\",\"ｱ\",\"東京都\",\"千代田区\",\"以下に掲載がない場合\",0,0,0,0,0,0\r\n\
27100,\"530  \",\"5300001\",\"ｵｵｻｶﾌ\",\"ｵｵｻｶｼ\",\"ｱ\",\"大阪府\",\"大阪市\",\"梅田ー２、３\",0,0,0,0,0,0\r\n";
    let (bytes, _, had_errors) = encoding_rs::SHIFT_JIS.encode(text);
    assert!(!had_errors);
    let feed = csv_stream_format(&bytes, false, &prefectures());
    assert_eq!(feed.skipped, vec![SkippedRow { row: 3, error: DecodeError::Unreadable }]);
    assert_eq!(
        feed.records,
        vec![
            PostalCode {
                zip_code: "1000001".to_string(),
                prefecture_id: 13,
                city_id: "13101".to_string(),
                prefecture: "東京都".to_string(),
                city: "千代田区".to_string(),
                town: "大手町(1丁目)ビル".to_string(),
            },
            PostalCode {
                zip_code: "1000002".to_string(),
                prefecture_id: 13,
                city_id: "13101".to_string(),
                prefecture: "東京都".to_string(),
                city: "千代田区".to_string(),
                town: "".to_string(),
            },
            PostalCode {
                zip_code: "5300001".to_string(),
                prefecture_id: 27,
                city_id: "27100".to_string(),
                prefecture: "大阪府".to_string(),
                city: "大阪市".to_string(),
                town: "梅田-2,3".to_string(),
            },
        ]
    );
}

#[test]
fn a_header_row_is_left_out_when_asked() {
    let text = "a,b,c,d,e,f,g,h,i,j,k,l,m,n,o\r\n13101,100,1000001,x,y,z,東京都,千代田区,丸の内,0,0,0,0,0,0\r\n";
    let (bytes, _, _) = encoding_rs::SHIFT_JIS.encode(text);
    let with_header = csv_stream_format(&bytes, true, &prefectures()).records;
    assert_eq!(with_header.len(), 1);
    assert_eq!(with_header[0].town, "丸の内");
    let without_header = csv_stream_format(&bytes, false, &prefectures()).records;
    assert_eq!(without_header.len(), 2);
    assert_eq!(without_header[0].zip_code, "c");
}

#[test]
fn a_feed_of_short_rows_gives_no_record() {
    let text = "13101,100,1000001\r\n13101,100,1000002\r\n";
    let (bytes, _, _) = encoding_rs::SHIFT_JIS.encode(text);
    let feed = csv_stream_format(&bytes, false, &prefectures());
    assert!(feed.records.is_empty());
    assert_eq!(
        feed.skipped,
        vec![
            SkippedRow { row: 0, error: DecodeError::TooShort { columns: 3 } },
            SkippedRow { row: 1, error: DecodeError::TooShort { columns: 3 } },
        ]
    );
    let empty = csv_stream_format(&[], false, &prefectures());
    assert!(empty.records.is_empty() && empty.skipped.is_empty());
}

#[test]
fn the_prefecture_is_looked_up_under_the_label_as_read() {
    let cache = build_replace_cache();
    let table = build_prefecture_cache(&vec![entry("第１県（仮）", "7"), entry("第1県(仮)", "8")]);
    let (rec, _) = format_csv_record_with_cache(
        &row("1", "1000001", "第１県（仮）", "市", "町", "0"),
        &table,
        &cache,
    );
    assert_eq!(rec.prefecture_id, 7);
    assert_eq!(rec.prefecture, "第1県(仮)");
    let only_raw = build_prefecture_cache(&vec![entry("第１県（仮）", "7")]);
    let (rec, _) = format_csv_record_with_cache(
        &row("1", "1000001", "第１県（仮）", "市", "町", "0"),
        &only_raw,
        &cache,
    );
    assert_eq!(rec.prefecture_id, 7);
    let only_folded = build_prefecture_cache(&vec![entry("第1県(仮)", "8")]);
    let (rec, _) = format_csv_record_with_cache(
        &row("1", "1000001", "第１県（仮）", "市", "町", "0"),
        &only_folded,
        &cache,
    );
    assert_eq!(rec.prefecture_id, 0);
    assert_eq!(rec.prefecture, "第1県(仮)");
}

#[test]
fn a_feed_that_fits_is_built_whichever_way_it_is_asked_for() {
    let text = "13101,100,1000001,x,y,z,東京都,千代田区,丸の内,0,0,0,0,0,0\r\n";
    let (bytes, _, _) = encoding_rs::SHIFT_JIS.encode(text);
    let checked = try_csv_stream_format(&bytes, false, &prefectures()).expect("the feed fits");
    let plain = csv_stream_format(&bytes, false, &prefectures());
    assert_eq!(checked.records, plain.records);
    assert_eq!(checked.skipped, plain.skipped);
    assert_eq!(checked.records.len(), 1);
    assert_eq!(checked.records[0].prefecture_id, 13);
}
