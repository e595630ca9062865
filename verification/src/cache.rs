//! The read cache: the keys of the answers, and the scan that removes them
//! after a run.

use vstd::prelude::*;
use vstd::string::StringExecFns;

use crate::search::engine::SearchMode;
use crate::text::{decimal, integer_text, push_decimal, push_integer};

verus! {

/// The number of keys that one scan of the invalidation asks for.
pub const SCAN_BATCH: usize = 500;

/// The pattern that matches every key of the read cache.
pub fn invalidation_pattern() -> (pattern: &'static str)
    ensures
        pattern@ == "postal:*"@,
{
    "postal:*"
}

/// The key of the records of a zip code.
pub open spec fn zip_key_text(zip: Seq<char>) -> Seq<char> {
    "postal:zip:"@ + zip
}

/// The key of the list of cities of a prefecture.
pub open spec fn cities_key_text(prefecture_id: int) -> Seq<char> {
    "postal:cities:"@ + integer_text(prefecture_id)
}

/// The key of a search: mode, normalized address and limit.
pub open spec fn search_key_text(mode: SearchMode, address: Seq<char>, limit: nat) -> Seq<char> {
    "postal:search:"@ + mode.name() + seq![':'] + address + seq![':'] + decimal(limit)
}

/// The key of the records of a zip code.
pub fn zip_key(zip: &str) -> (key: String)
    ensures
        key@ == zip_key_text(zip@),
{
    let mut key = String::from_str("postal:zip:");
    key.append(zip);
    key
}

/// The key of the list of prefectures.
pub fn prefectures_key() -> (key: &'static str)
    ensures
        key@ == "postal:prefectures"@,
{
    "postal:prefectures"
}

/// The key of the list of cities of a prefecture.
pub fn cities_key(prefecture_id: i16) -> (key: String)
    ensures
        key@ == cities_key_text(prefecture_id as int),
{
    let mut key = String::from_str("postal:cities:");
    push_integer(&mut key, prefecture_id as i64);
    key
}

/// The key of a search.
pub fn search_key(mode: SearchMode, normalized_address: &str, limit: usize) -> (key: String)
    ensures
        key@ == search_key_text(mode, normalized_address@, limit as nat),
{
    proof {
        reveal_strlit(":");
        assert(":"@ =~= seq![':']);
    }
    let mut key = String::from_str("postal:search:");
    key.append(mode.as_str());
    key.append(":");
    key.append(normalized_address);
    key.append(":");
    push_decimal(&mut key, limit as u64);
    key
}

/// What the invalidation does next.
#[derive(Debug, Clone, Copy, PartialEq, Eq, Structural)]
pub enum InvalidationStep {
    /// Scan from `cursor` for up to `SCAN_BATCH` keys that match the
    /// invalidation pattern, and delete the keys found.
    Scan { cursor: u64 },
    /// Nothing is left to do.
    Done,
}

/// The progress of an invalidation.
#[derive(Debug, Clone, Copy, PartialEq, Eq, Structural)]
pub struct Invalidation {
    /// Where the next scan starts.
    pub cursor: u64,
    /// Whether the invalidation has ended.
    pub ended: bool,
    /// The number of keys found so far.
    pub found: u64,
}

impl Invalidation {
    /// The step that the progress calls for.
    pub open spec fn step(&self) -> InvalidationStep {
        if self.ended {
            InvalidationStep::Done
        } else {
            InvalidationStep::Scan { cursor: self.cursor }
        }
    }

    /// An invalidation that has not begun: its first scan starts at
    /// cursor zero.
    pub fn new() -> (fresh: Invalidation)
        ensures
            fresh == (Invalidation { cursor: 0, ended: false, found: 0 }),
            fresh.step() == (InvalidationStep::Scan { cursor: 0 }),
    {
        Invalidation { cursor: 0, ended: false, found: 0 }
    }

    /// The step to take now.
    pub fn next_step(&self) -> (step: InvalidationStep)
        ensures
            step == self.step(),
    {
        if self.ended {
            InvalidationStep::Done
        } else {
            InvalidationStep::Scan { cursor: self.cursor }
        }
    }

    /// Takes in the answer to a scan: the cursor that the cache gave back
    /// and the number of keys it found. The invalidation goes on from that
    /// cursor, and ends when the cursor is back at zero.
    pub fn record_scan(&mut self, next_cursor: u64, keys_found: usize)
        ensures
            old(self).ended ==> *final(self) == *old(self),
            !old(self).ended ==> final(self).cursor == next_cursor && final(self).ended == (
            next_cursor == 0) && final(self).found == if old(self).found + keys_found > u64::MAX {
                u64::MAX
            } else {
                (old(self).found + keys_found) as u64
            },
    {
        if !self.ended {
            self.cursor = next_cursor;
            self.ended = next_cursor == 0;
            let room: u64 = u64::MAX - self.found;
            if keys_found as u64 > room {
                self.found = u64::MAX;
            } else {
                self.found = self.found + keys_found as u64;
            }
        }
    }

    /// Takes in that a scan or a deletion failed: the invalidation ends, and
    /// the run does not fail for it.
    pub fn record_failure(&mut self)
        ensures
            final(self).ended,
            final(self).cursor == old(self).cursor,
            final(self).found == old(self).found,
    {
        self.ended = true;
    }
}

} // verus!
