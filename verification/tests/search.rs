use postal_core::models::PostalCode;
use postal_core::search::engine::{
    build_search_term, clamp_limit, parse_search_mode, SearchMode, SearchPlan, DEFAULT_LIMIT, MAX_LIMIT,
    MIN_LIMIT,
};
use postal_core::search::normalize::{
    candidates, candidates_from_normalized, hiragana_to_katakana, katakana_to_hiragana, normalize,
};

fn record(zip: &str, town: &str) -> PostalCode {
    PostalCode {
        zip_code: zip.to_string(),
        prefecture_id: 13,
        city_id: "13104".to_string(),
        prefecture: "東京都".to_string(),
        city: "新宿区".to_string(),
        town: town.to_string(),
    }
}

#[test]
fn normalize_folds_half_width_kana_and_strips_whitespace() {
    assert_eq!(normalize("  ｼﾝ ｼﾞｭｸ  "), "シンジュク");
}

#[test]
fn normalize_handles_other_forms() {
    assert_eq!(normalize(""), "");
    assert_eq!(normalize(" \t\u{3000}\n"), "");
    assert_eq!(normalize("ＡＢＣ　１２３"), "ABC123");
    assert_eq!(normalize("新 宿"), "新宿");
    assert_eq!(normalize("か\u{3099}"), "が");
}

#[test]
fn hiragana_becomes_katakana() {
    assert_eq!(hiragana_to_katakana("しんじゅく"), "シンジュク");
    assert_eq!(hiragana_to_katakana("ゔ"), "ヴ");
    assert_eq!(hiragana_to_katakana("ぁゖ"), "ァヶ");
    assert_eq!(hiragana_to_katakana("\u{3040}\u{3097}"), "\u{3040}\u{3097}");
    assert_eq!(hiragana_to_katakana("新宿 abc シン"), "新宿 abc シン");
}

#[test]
fn katakana_becomes_hiragana() {
    assert_eq!(katakana_to_hiragana("シンジュク"), "しんじゅく");
    assert_eq!(katakana_to_hiragana("ヴ"), "ゔ");
    assert_eq!(katakana_to_hiragana("ァヶ"), "ぁゖ");
    assert_eq!(katakana_to_hiragana("\u{30A0}\u{30F7}ー"), "\u{30A0}\u{30F7}ー");
    assert_eq!(katakana_to_hiragana("新宿 abc しん"), "新宿 abc しん");
}

#[test]
fn candidates_are_deduplicated() {
    assert_eq!(candidates("しんじゅく"), vec!["しんじゅく", "シンジュク"]);
}

#[test]
fn candidates_cover_every_shape() {
    assert_eq!(candidates("シンジュク"), vec!["シンジュク", "しんじゅく"]);
    assert_eq!(candidates("新宿"), vec!["新宿"]);
    assert_eq!(candidates("しんジュク"), vec!["しんジュク", "シンジュク", "しんじゅく"]);
    assert_eq!(candidates(""), Vec::<String>::new());
    assert_eq!(candidates("   "), Vec::<String>::new());
    assert_eq!(candidates("  ｼﾝ ｼﾞｭｸ  "), vec!["シンジュク", "しんじゅく"]);
    assert_eq!(candidates_from_normalized("あ"), vec!["あ", "ア"]);
}

#[test]
fn search_terms_follow_the_mode() {
    assert_eq!(build_search_term(SearchMode::Exact, "新宿"), "新宿");
    assert_eq!(build_search_term(SearchMode::Prefix, "新宿"), "新宿%");
    assert_eq!(build_search_term(SearchMode::Partial, "新宿"), "%新宿%");
    assert_eq!(build_search_term(SearchMode::Partial, ""), "%%");
}

#[test]
fn the_mode_defaults_to_partial() {
    assert_eq!(parse_search_mode(None), SearchMode::Partial);
    assert_eq!(parse_search_mode(Some("partial")), SearchMode::Partial);
    assert_eq!(parse_search_mode(Some("prefix")), SearchMode::Prefix);
    assert_eq!(parse_search_mode(Some("exact")), SearchMode::Exact);
    assert_eq!(parse_search_mode(Some("EXACT")), SearchMode::Partial);
    assert_eq!(parse_search_mode(Some("")), SearchMode::Partial);
    assert_eq!(SearchMode::Exact.as_str(), "exact");
    assert_eq!(SearchMode::Prefix.as_str(), "prefix");
    assert_eq!(SearchMode::Partial.as_str(), "partial");
}

#[test]
fn the_limit_is_clamped() {
    assert_eq!((MIN_LIMIT, DEFAULT_LIMIT, MAX_LIMIT), (1, 50, 200));
    assert_eq!(clamp_limit(None), 50);
    assert_eq!(clamp_limit(Some(10)), 10);
    assert_eq!(clamp_limit(Some(1)), 1);
    assert_eq!(clamp_limit(Some(200)), 200);
    assert_eq!(clamp_limit(Some(0)), 1);
    assert_eq!(clamp_limit(Some(-5)), 1);
    assert_eq!(clamp_limit(Some(201)), 200);
    assert_eq!(clamp_limit(Some(i64::MAX)), 200);
    assert_eq!(clamp_limit(Some(i64::MIN)), 1);
}

#[test]
fn a_search_asks_for_each_candidate_and_gathers_without_repeats() {
    let mut plan = SearchPlan::new("しんじゅく", Some(10), Some("partial"));
    let first = plan.next_query().expect("a first query");
    assert_eq!(first.term, "%しんじゅく%");
    assert!(!first.equality);
    assert_eq!(first.limit, 10);
    plan.absorb(vec![record("1600022", "しんじゅく"), record("1600022", "しんじゅく")]);
    let second = plan.next_query().expect("a second query");
    assert_eq!(second.term, "%シンジュク%");
    assert_eq!(second.limit, 9);
    plan.absorb(vec![record("1600022", "しんじゅく"), record("1600023", "シンジュク")]);
    assert!(plan.next_query().is_none());
    let results = plan.into_results();
    assert_eq!(results, vec![record("1600022", "しんじゅく"), record("1600023", "シンジュク")]);
    assert!(results.len() <= 10);
}

#[test]
fn a_search_stops_at_the_limit() {
    let mut plan = SearchPlan::new("しん", Some(2), Some("exact"));
    let query = plan.next_query().unwrap();
    assert_eq!(query.term, "しん");
    assert!(query.equality);
    assert_eq!(query.limit, 2);
    plan.absorb(vec![record("1", "a"), record("2", "b"), record("3", "c")]);
    assert!(plan.next_query().is_none());
    assert_eq!(plan.into_results(), vec![record("1", "a"), record("2", "b")]);
}

#[test]
fn an_empty_input_asks_nothing() {
    let plan = SearchPlan::new("", None, None);
    assert!(plan.next_query().is_none());
    assert_eq!(plan.limit, 50);
    assert_eq!(plan.mode, SearchMode::Partial);
    assert!(plan.into_results().is_empty());
}
