//! The read path of the API: what a request does with the cache and the
//! store, and what it answers.

use vstd::prelude::*;

use crate::models::PostalCode;
use crate::service::ApiError;

verus! {

/// The HTTP status of an answer that holds what was asked for.
pub const STATUS_OK: u16 = 200;

/// One prefecture in the list of prefectures.
#[derive(Debug, PartialEq, Eq, Hash)]
pub struct PrefectureResponse {
    pub prefecture_id: i16,
    pub prefecture: String,
}

/// One city in the list of the cities of a prefecture.
#[derive(Debug, PartialEq, Eq, Hash)]
pub struct CityResponse {
    pub city_id: String,
    pub city: String,
}

/// The prefecture id that a request names, where it is a 16-bit number;
/// a wider value is refused.
pub fn prefecture_id_param(value: i64) -> (id: Option<i16>)
    ensures
        id is Some <==> i16::MIN <= value <= i16::MAX,
        id matches Some(n) ==> n == value,
{
    if -32768 <= value && value <= 32767 {
        Some(value as i16)
    } else {
        None
    }
}

/// The answer to a lookup by zip code: the rows that the store gave, and
/// not found where it gave none.
pub fn zip_lookup_result(rows: Vec<PostalCode>) -> (answer: Result<Vec<PostalCode>, ApiError>)
    ensures
        rows@.len() == 0 ==> answer == Err::<Vec<PostalCode>, ApiError>(ApiError::NotFound),
        rows@.len() > 0 ==> answer == Ok::<Vec<PostalCode>, ApiError>(rows),
{
    if rows.len() == 0 {
        Err(ApiError::NotFound)
    } else {
        Ok(rows)
    }
}

/// Where a read stands.
#[derive(Debug, Clone, Copy, PartialEq, Eq, Structural)]
pub enum ReadState {
    /// Nothing was done yet.
    Start,
    /// The cache was asked and has not answered.
    AwaitingCache,
    /// The store was asked and has not answered.
    AwaitingStore,
    /// The request is answered.
    Done,
}

/// What happened.
#[derive(Debug, Clone, Copy, PartialEq, Eq, Structural)]
pub enum ReadEvent {
    /// The request came in.
    Begin,
    /// The cache holds an answer under the key, and it could be read.
    CacheHit,
    /// The cache holds nothing under the key, or failed, or what it holds
    /// could not be read.
    CacheMiss,
    /// The store answered with this many rows.
    StoreAnswered { rows: usize },
    /// The store failed.
    StoreFailed,
}

/// What to do.
#[derive(Debug, Clone, Copy, PartialEq, Eq, Structural)]
pub enum ReadAction {
    /// Ask the cache for the key of the request.
    LookUpCache,
    /// Ask the store.
    QueryStore,
    /// Answer with what the cache holds.
    RespondFromCache,
    /// Answer with the rows of the store; where `store_in_cache` is set, try
    /// to put them in the cache first, and answer the same if that fails.
    RespondRows { store_in_cache: bool },
    /// Answer with the error.
    RespondError { error: ApiError },
    /// The event does not belong here and is passed over.
    Ignore,
}

/// What a read is allowed to do.
#[derive(Debug, Clone, Copy, PartialEq, Eq, Structural)]
pub struct ReadRules {
    /// Whether a cache is configured.
    pub cache_configured: bool,
    /// Whether an answer of the store without rows means not found.
    pub empty_is_not_found: bool,
}

/// The state and the action that follow an event. With a cache the read
/// asks it first and answers from it on a hit; on a miss, or without a
/// cache, it asks the store. Rows of the store are answered and, with a
/// cache, stored; a failure of the store is answered as such; a failure of
/// the cache never is.
pub open spec fn read_after(rules: ReadRules, state: ReadState, event: ReadEvent) -> (
    ReadState,
    ReadAction,
) {
    match (state, event) {
        (ReadState::Start, ReadEvent::Begin) => if rules.cache_configured {
            (ReadState::AwaitingCache, ReadAction::LookUpCache)
        } else {
            (ReadState::AwaitingStore, ReadAction::QueryStore)
        },
        (ReadState::AwaitingCache, ReadEvent::CacheHit) => (
            ReadState::Done,
            ReadAction::RespondFromCache,
        ),
        (ReadState::AwaitingCache, ReadEvent::CacheMiss) => (
            ReadState::AwaitingStore,
            ReadAction::QueryStore,
        ),
        (ReadState::AwaitingStore, ReadEvent::StoreAnswered { rows }) => if rows == 0
            && rules.empty_is_not_found {
            (ReadState::Done, ReadAction::RespondError { error: ApiError::NotFound })
        } else {
            (ReadState::Done, ReadAction::RespondRows { store_in_cache: rules.cache_configured })
        },
        (ReadState::AwaitingStore, ReadEvent::StoreFailed) => (
            ReadState::Done,
            ReadAction::RespondError { error: ApiError::Store },
        ),
        _ => (state, ReadAction::Ignore),
    }
}

/// Decides what a read does next.
pub fn read_step(rules: ReadRules, state: ReadState, event: ReadEvent) -> (next: (
    ReadState,
    ReadAction,
))
    ensures
        next == read_after(rules, state, event),
{
    match (state, event) {
        (ReadState::Start, ReadEvent::Begin) => if rules.cache_configured {
            (ReadState::AwaitingCache, ReadAction::LookUpCache)
        } else {
            (ReadState::AwaitingStore, ReadAction::QueryStore)
        },
        (ReadState::AwaitingCache, ReadEvent::CacheHit) => (
            ReadState::Done,
            ReadAction::RespondFromCache,
        ),
        (ReadState::AwaitingCache, ReadEvent::CacheMiss) => (
            ReadState::AwaitingStore,
            ReadAction::QueryStore,
        ),
        (ReadState::AwaitingStore, ReadEvent::StoreAnswered { rows }) => if rows == 0
            && rules.empty_is_not_found {
            (ReadState::Done, ReadAction::RespondError { error: ApiError::NotFound })
        } else {
            (ReadState::Done, ReadAction::RespondRows { store_in_cache: rules.cache_configured })
        },
        (ReadState::AwaitingStore, ReadEvent::StoreFailed) => (
            ReadState::Done,
            ReadAction::RespondError { error: ApiError::Store },
        ),
        _ => (state, ReadAction::Ignore),
    }
}

/// The status of the answer that an action gives, if it gives one.
pub open spec fn status_of(action: ReadAction) -> Option<u16> {
    match action {
        ReadAction::RespondFromCache => Some(STATUS_OK),
        ReadAction::RespondRows { store_in_cache } => Some(STATUS_OK),
        ReadAction::RespondError { error } => Some(error.status()),
        _ => None,
    }
}

/// The status of the answer that an action gives, if it gives one.
pub fn response_status(action: ReadAction) -> (status: Option<u16>)
    ensures
        status == status_of(action),
{
    match action {
        ReadAction::RespondFromCache => Some(STATUS_OK),
        ReadAction::RespondRows { store_in_cache } => Some(STATUS_OK),
        ReadAction::RespondError { error } => Some(error.status_code()),
        _ => None,
    }
}

/// A read never asks the cache where none is configured, asks the store at
/// most after the cache missed, and answers exactly when it is done.
pub proof fn lemma_read_flow(rules: ReadRules, state: ReadState, event: ReadEvent)
    ensures
        read_after(rules, state, event).1 == ReadAction::LookUpCache ==> rules.cache_configured,
        read_after(rules, state, event).1 matches ReadAction::RespondRows { store_in_cache }
            ==> store_in_cache == rules.cache_configured,
        status_of(read_after(rules, state, event).1) is Some <==> read_after(
            rules,
            state,
            event,
        ).0 == ReadState::Done && state != ReadState::Done,
        state == ReadState::Done ==> read_after(rules, state, event) == (
            ReadState::Done,
            ReadAction::Ignore,
        ),
{
}

} // verus!
