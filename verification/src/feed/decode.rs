//! From the bytes of the feed to canonical records: decoding, reading of
//! rows, formatting, merging and deduplication.

use std::collections::HashMap;
use std::collections::VecDeque;
use vstd::prelude::*;

use crate::feed::fold::{build_replace_cache, replace_table};
use crate::feed::merge::{
    dedup_by_primary_key,
    deduplicated,
    flagged_view,
    keys_distinct,
    merge_continuations,
    merged,
    records_view,
    FlaggedView,
};
use crate::feed::prefecture::PrefectureTable;
use crate::feed::record::{
    continuation_flag_of,
    format_csv_record_with_cache,
    record_of,
    MIN_COLUMNS,
};
use crate::models::{PostalCode, PostalCodeView};

verus! {

/// The text that the Shift_JIS decoder of `encoding_rs` gives for the
/// bytes.
pub uninterp spec fn shift_jis_text(bytes: Seq<u8>) -> Seq<char>;

/// The rows that the reader of `csv_async` gives for a text, in order: the
/// fields of each row that it could read, and `None` for each row that it
/// reported as an error.
pub uninterp spec fn csv_rows(text: Seq<char>, has_headers: bool) -> Seq<Option<Seq<Seq<char>>>>;

/// `encoding_rs::SHIFT_JIS.decode`: decodes the whole input, replacing what
/// is malformed, and reading it in the encoding of a byte order mark where
/// it starts with one; the result depends on the bytes alone. The decoder
/// sizes its buffer at up to three bytes per byte of input, which must fit.
#[verifier::external_body]
fn decode_shift_jis(content: &[u8]) -> (text: String)
    requires
        content@.len() <= usize::MAX / 8,
    ensures
        text@ == shift_jis_text(content@),
{
    let (decoded, _, _) = encoding_rs::SHIFT_JIS.decode(content);
    decoded.into_owned()
}

/// `csv_async::AsyncReaderBuilder` with `has_headers`, `create_reader` and
/// `into_records` on the bytes of the text, read to the end: the rows depend
/// on the text and the header setting alone. A reader over bytes in memory
/// is always ready, so the first poll completes.
#[verifier::external_body]
fn read_csv_rows(text: &str, has_headers: bool) -> (rows: Vec<Option<VecDeque<String>>>)
    ensures
        rows.deep_view() == csv_rows(text@, has_headers),
{
    let reader = csv_async::AsyncReaderBuilder::new().has_headers(has_headers).create_reader(
        text.as_bytes(),
    );
    let read: Vec<Result<csv_async::StringRecord, csv_async::Error>> =
        futures::FutureExt::now_or_never(futures::StreamExt::collect(reader.into_records()))
        .expect("a reader over bytes in memory is ready");
    read.into_iter().map(|row| row.ok().map(|r| r.iter().map(String::from).collect())).collect()
}

/// Why a row of the feed is not used.
#[derive(Debug, Clone, Copy, PartialEq, Eq, Structural)]
pub enum DecodeError {
    /// The reader could not read the row.
    Unreadable,
    /// The row has fewer columns than are read from a row.
    TooShort { columns: usize },
}

/// A row that is not used: its place among the rows, counted from zero,
/// and why it is skipped.
#[derive(Debug, Clone, Copy, PartialEq, Eq, Structural)]
pub struct SkippedRow {
    pub row: usize,
    pub error: DecodeError,
}

/// What a feed gives: its canonical records, and the rows that were
/// skipped on the way.
#[derive(Debug)]
pub struct ParsedFeed {
    pub records: Vec<PostalCode>,
    pub skipped: Vec<SkippedRow>,
}

/// Why a row is skipped, if it is.
pub open spec fn row_error(row: Option<Seq<Seq<char>>>) -> Option<DecodeError> {
    match row {
        None => Some(DecodeError::Unreadable),
        Some(fields) => if fields.len() < MIN_COLUMNS {
            Some(DecodeError::TooShort { columns: fields.len() as usize })
        } else {
            None
        },
    }
}

/// The rows that are skipped, in order.
pub open spec fn skipped_of(rows: Seq<Option<Seq<Seq<char>>>>) -> Seq<SkippedRow>
    decreases rows.len(),
{
    if rows.len() == 0 {
        Seq::empty()
    } else {
        match row_error(rows.last()) {
            Some(error) => skipped_of(rows.drop_last()).push(
                SkippedRow { row: (rows.len() - 1) as usize, error },
            ),
            None => skipped_of(rows.drop_last()),
        }
    }
}

/// The flagged raw records of the rows that are used: a row that could not
/// be read, or that has fewer columns than are read from it, is skipped.
pub open spec fn flagged_rows(
    rows: Seq<Option<Seq<Seq<char>>>>,
    prefectures: Map<Seq<char>, Seq<char>>,
    replace: Map<u32, char>,
) -> Seq<FlaggedView>
    decreases rows.len(),
{
    if rows.len() == 0 {
        Seq::empty()
    } else {
        let earlier = flagged_rows(rows.drop_last(), prefectures, replace);
        match rows.last() {
            Some(row) => if row.len() >= MIN_COLUMNS {
                earlier.push((record_of(row, prefectures, replace), continuation_flag_of(row)))
            } else {
                earlier
            },
            None => earlier,
        }
    }
}

/// The canonical records of a feed: its usable rows formatted, split towns
/// stitched together, and records that repeat a primary key removed.
pub open spec fn feed_records(
    rows: Seq<Option<Seq<Seq<char>>>>,
    prefectures: Map<Seq<char>, Seq<char>>,
    replace: Map<u32, char>,
) -> Seq<PostalCodeView> {
    deduplicated(merged(flagged_rows(rows, prefectures, replace)))
}

/// Builds the canonical records from the rows of a feed.
pub fn records_from_rows(
    rows: &Vec<Option<VecDeque<String>>>,
    pref_cache: &PrefectureTable,
    replace_cache: &HashMap<u32, char>,
) -> (records: Vec<PostalCode>)
    ensures
        records_view(records@) == feed_records(rows.deep_view(), pref_cache@, replace_cache@),
        keys_distinct(records_view(records@)),
{
    let ghost all = rows.deep_view();
    let mut flagged: Vec<(PostalCode, bool)> = Vec::new();
    let mut i: usize = 0;
    assert(all.take(0) =~= Seq::<Option<Seq<Seq<char>>>>::empty());
    assert(flagged_view(flagged@) =~= Seq::<FlaggedView>::empty());
    while i < rows.len()
        invariant
            i <= rows.len(),
            all == rows.deep_view(),
            flagged_view(flagged@) == flagged_rows(
                all.take(i as int),
                pref_cache@,
                replace_cache@,
            ),
        decreases rows.len() - i,
    {
        let ghost before = flagged_view(flagged@);
        proof {
            assert(all.take(i + 1).drop_last() =~= all.take(i as int));
            assert(all.take(i + 1).last() == rows[i as int].deep_view());
        }
        match &rows[i] {
            Some(row) => {
                if row.len() >= MIN_COLUMNS {
                    let formatted = format_csv_record_with_cache(row, pref_cache, replace_cache);
                    let ghost added = (formatted.0@, formatted.1);
                    flagged.push(formatted);
                    assert(flagged_view(flagged@) =~= before.push(added));
                }
            },
            None => {},
        }
        i = i + 1;
    }
    assert(all.take(rows.len() as int) =~= all);
    dedup_by_primary_key(merge_continuations(flagged))
}

/// Lists the rows of a feed that are skipped: those that could not be read,
/// and those with fewer columns than are read from a row.
pub fn skipped_rows(rows: &Vec<Option<VecDeque<String>>>) -> (skipped: Vec<SkippedRow>)
    ensures
        skipped@ == skipped_of(rows.deep_view()),
{
    let ghost all = rows.deep_view();
    let mut skipped: Vec<SkippedRow> = Vec::new();
    let mut i: usize = 0;
    assert(all.take(0) =~= Seq::<Option<Seq<Seq<char>>>>::empty());
    while i < rows.len()
        invariant
            i <= rows.len(),
            all == rows.deep_view(),
            skipped@ == skipped_of(all.take(i as int)),
        decreases rows.len() - i,
    {
        proof {
            assert(all.take(i + 1).drop_last() =~= all.take(i as int));
            assert(all.take(i + 1).last() == rows[i as int].deep_view());
        }
        match &rows[i] {
            None => {
                skipped.push(SkippedRow { row: i, error: DecodeError::Unreadable });
            },
            Some(row) => {
                if row.len() < MIN_COLUMNS {
                    skipped.push(
                        SkippedRow { row: i, error: DecodeError::TooShort { columns: row.len() } },
                    );
                }
            },
        }
        i = i + 1;
    }
    assert(all.take(rows.len() as int) =~= all);
    skipped
}

/// Decodes the bytes of the feed from Shift_JIS, reads them as CSV, and
/// builds the canonical records with the fixed replacement table.
pub fn csv_stream_format(content: &[u8], is_header: bool, pref_cache: &PrefectureTable) -> (feed:
    ParsedFeed)
    requires
        content@.len() <= usize::MAX / 8,
    ensures
        records_view(feed.records@) == feed_records(
            csv_rows(shift_jis_text(content@), is_header),
            pref_cache@,
            replace_table(),
        ),
        keys_distinct(records_view(feed.records@)),
        feed.skipped@ == skipped_of(csv_rows(shift_jis_text(content@), is_header)),
{
    let text = decode_shift_jis(content);
    let rows = read_csv_rows(text.as_str(), is_header);
    let replace_cache = build_replace_cache();
    let skipped = skipped_rows(&rows);
    ParsedFeed { records: records_from_rows(&rows, pref_cache, &replace_cache), skipped }
}

/// The most bytes of a feed that can be decoded: the decoder needs room for
/// several bytes of text per byte of input.
pub open spec fn max_feed_len() -> nat {
    (usize::MAX / 8) as nat
}

/// Builds the canonical records of a feed of any length: the same as
/// `csv_stream_format` where the feed can be decoded, and nothing where it
/// is longer than can be.
pub fn try_csv_stream_format(content: &[u8], is_header: bool, pref_cache: &PrefectureTable) -> (feed:
    Option<ParsedFeed>)
    ensures
        feed is Some <==> content@.len() <= max_feed_len(),
        feed matches Some(parsed) ==> records_view(parsed.records@) == feed_records(
            csv_rows(shift_jis_text(content@), is_header),
            pref_cache@,
            replace_table(),
        ) && keys_distinct(records_view(parsed.records@)) && parsed.skipped@ == skipped_of(
            csv_rows(shift_jis_text(content@), is_header),
        ),
{
    if content.len() <= usize::MAX / 8 {
        Some(csv_stream_format(content, is_header, pref_cache))
    } else {
        None
    }
}

} // verus!
