//! Liveness, readiness and the request counters of the API.

use vstd::prelude::*;

verus! {

/// Why a request is not answered with what it asked for.
#[derive(Debug, Clone, Copy, PartialEq, Eq, Structural)]
pub enum ApiError {
    /// Nothing is stored under what was asked for.
    NotFound,
    /// The store failed.
    Store,
    /// The store does not answer.
    DatabaseNotReady,
    /// The cache does not answer, and readiness requires it.
    CacheNotReady,
}

impl ApiError {
    /// The HTTP status of the error.
    pub open spec fn status(self) -> u16 {
        match self {
            ApiError::NotFound => 404,
            ApiError::Store => 500,
            ApiError::DatabaseNotReady => 503,
            ApiError::CacheNotReady => 503,
        }
    }

    /// The text under `error` in the body of the answer.
    pub open spec fn text(self) -> Seq<char> {
        match self {
            ApiError::NotFound => "not found"@,
            ApiError::Store => "internal server error"@,
            ApiError::DatabaseNotReady => "database not ready"@,
            ApiError::CacheNotReady => "cache not ready"@,
        }
    }

    /// The HTTP status of the error.
    pub fn status_code(&self) -> (code: u16)
        ensures
            code == self.status(),
    {
        match self {
            ApiError::NotFound => 404,
            ApiError::Store => 500,
            ApiError::DatabaseNotReady => 503,
            ApiError::CacheNotReady => 503,
        }
    }

    /// The text under `error` in the body of the answer.
    pub fn message(&self) -> (text: &'static str)
        ensures
            text@ == self.text(),
    {
        match self {
            ApiError::NotFound => "not found",
            ApiError::Store => "internal server error",
            ApiError::DatabaseNotReady => "database not ready",
            ApiError::CacheNotReady => "cache not ready",
        }
    }
}

/// What the liveness check answers.
pub fn liveness_status() -> (status: &'static str)
    ensures
        status@ == "ok"@,
{
    "ok"
}

/// The state of the cache as readiness reports it.
#[derive(Debug, Clone, Copy, PartialEq, Eq, Structural)]
pub enum CacheState {
    /// No cache is configured.
    Disabled,
    /// The cache answered the ping.
    Available,
    /// The cache did not answer the ping, and readiness does not require it.
    Unavailable,
}

impl CacheState {
    /// The word that stands for the state in the readiness report.
    pub open spec fn name(self) -> Seq<char> {
        match self {
            CacheState::Disabled => "disabled"@,
            CacheState::Available => "ok"@,
            CacheState::Unavailable => "error"@,
        }
    }

    /// The word that stands for the state in the readiness report.
    pub fn as_str(&self) -> (name: &'static str)
        ensures
            name@ == self.name(),
    {
        match self {
            CacheState::Disabled => "disabled",
            CacheState::Available => "ok",
            CacheState::Unavailable => "error",
        }
    }
}

/// The state of the cache: disabled where none is configured, whatever the
/// rest; available where the ping succeeded; where it failed, unavailable
/// if readiness does not require the cache, and not ready if it does.
pub open spec fn cache_state_of(cache_enabled: bool, cache_ping_ok: bool, strict: bool) -> Result<
    CacheState,
    ApiError,
> {
    if !cache_enabled {
        Ok(CacheState::Disabled)
    } else if cache_ping_ok {
        Ok(CacheState::Available)
    } else if !strict {
        Ok(CacheState::Unavailable)
    } else {
        Err(ApiError::CacheNotReady)
    }
}

/// Resolves the state of the cache for the readiness report.
pub fn resolve_cache_state(cache_enabled: bool, cache_ping_ok: bool, strict: bool) -> (state:
    Result<CacheState, ApiError>)
    ensures
        state == cache_state_of(cache_enabled, cache_ping_ok, strict),
{
    if !cache_enabled {
        Ok(CacheState::Disabled)
    } else if cache_ping_ok {
        Ok(CacheState::Available)
    } else if !strict {
        Ok(CacheState::Unavailable)
    } else {
        Err(ApiError::CacheNotReady)
    }
}

/// The report of a service that is ready.
#[derive(Debug, Clone, Copy, PartialEq, Eq, Structural)]
pub struct ReadyReport {
    /// The state of the cache.
    pub cache: CacheState,
}

impl ReadyReport {
    /// What the report says of the service as a whole.
    pub fn status(&self) -> (status: &'static str)
        ensures
            status@ == "ok"@,
    {
        "ok"
    }

    /// What the report says of the store.
    pub fn database(&self) -> (status: &'static str)
        ensures
            status@ == "ok"@,
    {
        "ok"
    }
}

/// Whether the service is ready: it is not where the store did not answer,
/// whatever the cache; else it is as the cache allows.
pub fn readiness(database_ok: bool, cache_enabled: bool, cache_ping_ok: bool, strict: bool) -> (report:
    Result<ReadyReport, ApiError>)
    ensures
        !database_ok ==> report == Err::<ReadyReport, ApiError>(ApiError::DatabaseNotReady),
        database_ok ==> report == match cache_state_of(cache_enabled, cache_ping_ok, strict) {
            Ok(cache) => Ok::<ReadyReport, ApiError>(ReadyReport { cache }),
            Err(error) => Err::<ReadyReport, ApiError>(error),
        },
{
    if !database_ok {
        Err(ApiError::DatabaseNotReady)
    } else {
        match resolve_cache_state(cache_enabled, cache_ping_ok, strict) {
            Ok(cache) => Ok(ReadyReport { cache }),
            Err(error) => Err(error),
        }
    }
}

/// The counters of the requests served.
#[derive(Debug, Clone, Copy, PartialEq, Eq, Structural)]
pub struct Metrics {
    /// All requests.
    pub requests_total: u64,
    /// The requests answered with a status from 500 to 599.
    pub errors_total: u64,
    /// The requests answered with status 404.
    pub not_found_total: u64,
    /// The time that all requests took together, in microseconds.
    pub latency_total_micros: u64,
}

/// A counter after `amount` more is counted; like the counters of the
/// machine it starts over when it is full.
pub open spec fn counted(counter: u64, amount: u64) -> u64 {
    ((counter + amount) % 0x1_0000_0000_0000_0000) as u64
}

/// Whether a status counts as an error of the server.
pub open spec fn is_server_error(status: u16) -> bool {
    500 <= status <= 599
}

impl Metrics {
    /// The counters after one more request with the given status and
    /// duration.
    pub open spec fn after(self, status: u16, latency_micros: u64) -> Metrics {
        Metrics {
            requests_total: counted(self.requests_total, 1),
            errors_total: if is_server_error(status) {
                counted(self.errors_total, 1)
            } else {
                self.errors_total
            },
            not_found_total: if status == 404 {
                counted(self.not_found_total, 1)
            } else {
                self.not_found_total
            },
            latency_total_micros: counted(self.latency_total_micros, latency_micros),
        }
    }

    /// Counters that have counted nothing.
    pub fn new() -> (fresh: Metrics)
        ensures
            fresh == (Metrics {
                requests_total: 0,
                errors_total: 0,
                not_found_total: 0,
                latency_total_micros: 0,
            }),
    {
        Metrics { requests_total: 0, errors_total: 0, not_found_total: 0, latency_total_micros: 0 }
    }

    /// Counts one request.
    pub fn record(&mut self, status: u16, latency_micros: u64)
        ensures
            *final(self) == old(self).after(status, latency_micros),
    {
        self.requests_total = self.requests_total.wrapping_add(1);
        if 500 <= status && status <= 599 {
            self.errors_total = self.errors_total.wrapping_add(1);
        }
        if status == 404 {
            self.not_found_total = self.not_found_total.wrapping_add(1);
        }
        self.latency_total_micros = self.latency_total_micros.wrapping_add(latency_micros);
    }

    /// The counters as they stand.
    pub fn snapshot(&self) -> (copy: Metrics)
        ensures
            copy == *self,
    {
        *self
    }
}

/// While no counter has started over, the errors and the requests that were
/// not found are among the requests.
pub proof fn lemma_counted_within_requests(before: Metrics, status: u16, latency_micros: u64)
    requires
        before.errors_total + before.not_found_total <= before.requests_total,
        before.requests_total < u64::MAX,
    ensures
        before.after(status, latency_micros).errors_total + before.after(
            status,
            latency_micros,
        ).not_found_total <= before.after(status, latency_micros).requests_total,
        before.after(status, latency_micros).requests_total == before.requests_total + 1,
{
}

} // verus!
