//! Settings of the worker, read from the values of its environment.

use vstd::prelude::*;

use crate::numbers::{parse_u64, u64_of_text};
use crate::whitespace::{ascii_lower, to_ascii_lower, trim, trimmed};

verus! {

/// Seconds between two cycles of the crawler, unless set otherwise.
pub const DEFAULT_INTERVAL_SECONDS: u64 = 86400;

/// Seconds that a cached answer lives, unless set otherwise.
pub const DEFAULT_CACHE_TTL_SECONDS: u64 = 300;

/// The TCP port that the API listens on.
pub const API_PORT: u16 = 3202;

/// The store that the worker writes to and reads from.
#[derive(Debug, Clone, Copy, PartialEq, Eq, Structural)]
pub enum DatabaseType {
    Postgres,
    MySql,
    Sqlite,
}

impl DatabaseType {
    /// The name of the store in settings and audit rows.
    pub open spec fn name(self) -> Seq<char> {
        match self {
            DatabaseType::Postgres => "postgres"@,
            DatabaseType::MySql => "mysql"@,
            DatabaseType::Sqlite => "sqlite"@,
        }
    }

    /// The name of the store in settings and audit rows.
    pub fn as_str(&self) -> (name: &'static str)
        ensures
            name@ == self.name(),
    {
        match self {
            DatabaseType::Postgres => "postgres",
            DatabaseType::MySql => "mysql",
            DatabaseType::Sqlite => "sqlite",
        }
    }
}

/// The store that a name stands for, if it is the name of one.
pub open spec fn database_type_of(name: Seq<char>) -> Option<DatabaseType> {
    if name == "postgres"@ {
        Some(DatabaseType::Postgres)
    } else if name == "mysql"@ {
        Some(DatabaseType::MySql)
    } else if name == "sqlite"@ {
        Some(DatabaseType::Sqlite)
    } else {
        None
    }
}

/// Reads the name of a store.
pub fn parse_database_type(name: &str) -> (parsed: Option<DatabaseType>)
    ensures
        parsed == database_type_of(name@),
{
    if name.eq("postgres") {
        Some(DatabaseType::Postgres)
    } else if name.eq("mysql") {
        Some(DatabaseType::MySql)
    } else if name.eq("sqlite") {
        Some(DatabaseType::Sqlite)
    } else {
        None
    }
}

/// The store that the setting selects: PostgreSQL where nothing is set,
/// else the store that is named, and none for an unknown name.
pub fn database_type_setting(value: Option<&str>) -> (selected: Option<DatabaseType>)
    ensures
        selected == match value {
            Some(name) => database_type_of(name@),
            None => Some(DatabaseType::Postgres),
        },
{
    match value {
        Some(name) => parse_database_type(name),
        None => Some(DatabaseType::Postgres),
    }
}

/// The store that the API reads from: MySQL where the setting names it, and
/// PostgreSQL for any other setting and for none.
pub fn api_database_type(value: Option<&str>) -> (selected: DatabaseType)
    ensures
        selected == match value {
            Some(name) => if name@ == "mysql"@ {
                DatabaseType::MySql
            } else {
                DatabaseType::Postgres
            },
            None => DatabaseType::Postgres,
        },
{
    match value {
        Some(name) => if name.eq("mysql") {
            DatabaseType::MySql
        } else {
            DatabaseType::Postgres
        },
        None => DatabaseType::Postgres,
    }
}

/// Whether a text says yes: trimmed of whitespace and without regard to
/// the case of ASCII letters, it is `1`, `true`, `yes` or `on`.
pub open spec fn truthy(value: Seq<char>) -> bool {
    let word = ascii_lower(trimmed(value));
    word == "1"@ || word == "true"@ || word == "yes"@ || word == "on"@
}

/// Whether a text says yes.
pub fn is_truthy(value: &str) -> (yes: bool)
    ensures
        yes == truthy(value@),
{
    let word = to_ascii_lower(trim(value).as_str());
    word.as_str().eq("1") || word.as_str().eq("true") || word.as_str().eq("yes")
        || word.as_str().eq("on")
}

/// The value of a switch: the default where nothing is set, else whether
/// what is set says yes.
pub fn flag_setting(value: Option<&str>, default: bool) -> (on: bool)
    ensures
        on == match value {
            Some(text) => truthy(text@),
            None => default,
        },
{
    match value {
        Some(text) => is_truthy(text),
        None => default,
    }
}

/// The seconds between two cycles: the default where nothing is set, the
/// number that is set, and none where what is set is no number.
pub fn interval_setting(value: Option<&str>) -> (seconds: Option<u64>)
    ensures
        seconds == match value {
            Some(text) => u64_of_text(text@),
            None => Some(DEFAULT_INTERVAL_SECONDS),
        },
{
    match value {
        Some(text) => parse_u64(text),
        None => Some(DEFAULT_INTERVAL_SECONDS),
    }
}

/// The seconds that a cached answer lives: the number that is set, and
/// the default where nothing is set or what is set is no number.
pub fn cache_ttl_setting(value: Option<&str>) -> (seconds: u64)
    ensures
        seconds == match value {
            Some(text) => match u64_of_text(text@) {
                Some(n) => n,
                None => DEFAULT_CACHE_TTL_SECONDS,
            },
            None => DEFAULT_CACHE_TTL_SECONDS,
        },
{
    match value {
        Some(text) => match parse_u64(text) {
            Some(n) => n,
            None => DEFAULT_CACHE_TTL_SECONDS,
        },
        None => DEFAULT_CACHE_TTL_SECONDS,
    }
}

} // verus!
