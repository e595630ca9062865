//! The rollback command: its arguments, its checks and its report.

use vstd::prelude::*;
use vstd::string::StringExecFns;

use crate::config::DatabaseType;
use crate::text::{decimal, push_decimal};

verus! {

/// The exit code of a rollback that succeeded.
pub const EXIT_OK: i32 = 0;

/// The exit code of a rollback that failed.
pub const EXIT_FAILED: i32 = 1;

/// The exit code for arguments that could not be read.
pub const EXIT_BAD_ARGUMENTS: i32 = 2;

/// What the arguments ask for.
#[derive(Debug)]
pub enum RollbackCommand {
    /// Print the usage and leave.
    Help,
    /// Restore the live table from the snapshot of `data_version`.
    Run { database_type: String, data_version: String },
}

/// The mathematical value of what reading the arguments gives.
pub enum ArgsOutcome {
    Help,
    Run { database_type: Seq<char>, data_version: Seq<char> },
    Invalid { message: Seq<char> },
}

/// What a scan of the arguments found.
pub enum ArgsScan {
    Help,
    Invalid { message: Seq<char> },
    Values { database_type: Option<Seq<char>>, data_version: Option<Seq<char>> },
}

/// Scans the arguments from the left, given the values found so far. An
/// option takes the argument after it as its value, a later value replacing
/// an earlier one; a request for help ends the scan, and so does the first
/// argument that is unknown or an option without a value.
pub open spec fn scan_args(
    args: Seq<Seq<char>>,
    database_type: Option<Seq<char>>,
    data_version: Option<Seq<char>>,
) -> ArgsScan
    decreases args.len(),
{
    if args.len() == 0 {
        ArgsScan::Values { database_type, data_version }
    } else if args[0] == "--database-type"@ {
        if args.len() < 2 {
            ArgsScan::Invalid { message: "--database-type requires a value"@ }
        } else {
            scan_args(args.skip(2), Some(args[1]), data_version)
        }
    } else if args[0] == "--data-version"@ {
        if args.len() < 2 {
            ArgsScan::Invalid { message: "--data-version requires a value"@ }
        } else {
            scan_args(args.skip(2), database_type, Some(args[1]))
        }
    } else if args[0] == "--help"@ || args[0] == "-h"@ {
        ArgsScan::Help
    } else {
        ArgsScan::Invalid { message: "Unknown argument: "@ + args[0] }
    }
}

/// What the arguments ask for, given the store that the environment names,
/// if it names one: the store is the one given as an argument, else the one
/// of the environment, else PostgreSQL; a data version must be given.
pub open spec fn args_outcome(args: Seq<Seq<char>>, env_database_type: Option<Seq<char>>) -> ArgsOutcome {
    match scan_args(args, None, None) {
        ArgsScan::Help => ArgsOutcome::Help,
        ArgsScan::Invalid { message } => ArgsOutcome::Invalid { message },
        ArgsScan::Values { database_type, data_version } => match data_version {
            None => ArgsOutcome::Invalid { message: "--data-version is required"@ },
            Some(version) => ArgsOutcome::Run {
                database_type: match database_type {
                    Some(name) => name,
                    None => match env_database_type {
                        Some(name) => name,
                        None => "postgres"@,
                    },
                },
                data_version: version,
            },
        },
    }
}

/// The mathematical value of the result of `parse_args`.
pub open spec fn parsed_view(parsed: Result<RollbackCommand, String>) -> ArgsOutcome {
    match parsed {
        Ok(RollbackCommand::Help) => ArgsOutcome::Help,
        Ok(RollbackCommand::Run { database_type, data_version }) => ArgsOutcome::Run {
            database_type: database_type@,
            data_version: data_version@,
        },
        Err(message) => ArgsOutcome::Invalid { message: message@ },
    }
}

/// The texts of a list of arguments.
pub open spec fn args_view(args: Seq<String>) -> Seq<Seq<char>> {
    Seq::new(args.len(), |i: int| args[i]@)
}

/// Reads the arguments of the rollback command, the name of the program
/// left out.
pub fn parse_args(args: &Vec<String>, env_database_type: Option<&str>) -> (parsed: Result<
    RollbackCommand,
    String,
>)
    ensures
        parsed_view(parsed) == args_outcome(
            args_view(args@),
            match env_database_type {
                Some(name) => Some(name@),
                None => None,
            },
        ),
{
    let ghost all = args_view(args@);
    let mut db_type: Option<String> = None;
    let mut data_version: Option<String> = None;
    let mut i: usize = 0;
    assert(all.skip(0) =~= all);
    while i < args.len()
        invariant
            i <= args.len(),
            all == args_view(args@),
            scan_args(all, None, None) == scan_args(
                all.skip(i as int),
                match db_type {
                    Some(name) => Some(name@),
                    None => None,
                },
                match data_version {
                    Some(version) => Some(version@),
                    None => None,
                },
            ),
        decreases args.len() - i,
    {
        let ghost rest = all.skip(i as int);
        assert(rest[0] == args[i as int]@);
        let arg = args[i].as_str();
        if arg.eq("--database-type") {
            if i + 1 < args.len() {
                proof {
                    assert(rest[1] == args[i + 1]@);
                    assert(rest.skip(2) =~= all.skip(i + 2));
                }
                db_type = Some(args[i + 1].clone());
                i = i + 2;
            } else {
                return Err(String::from_str("--database-type requires a value"));
            }
        } else if arg.eq("--data-version") {
            if i + 1 < args.len() {
                proof {
                    assert(rest[1] == args[i + 1]@);
                    assert(rest.skip(2) =~= all.skip(i + 2));
                }
                data_version = Some(args[i + 1].clone());
                i = i + 2;
            } else {
                return Err(String::from_str("--data-version requires a value"));
            }
        } else if arg.eq("--help") || arg.eq("-h") {
            return Ok(RollbackCommand::Help);
        } else {
            let mut message = String::from_str("Unknown argument: ");
            message.append(arg);
            return Err(message);
        }
    }
    assert(all.skip(args.len() as int) =~= Seq::<Seq<char>>::empty());
    match data_version {
        None => Err(String::from_str("--data-version is required")),
        Some(version) => {
            let database_type = match db_type {
                Some(name) => name,
                None => match env_database_type {
                    Some(name) => String::from_str(name),
                    None => String::from_str("postgres"),
                },
            };
            Ok(RollbackCommand::Run { database_type, data_version: version })
        },
    }
}

/// How the command is called.
pub fn usage() -> (text: &'static str)
    ensures
        text@
            == "Usage: rollback --data-version <VERSION> [--database-type postgres|mysql]\nExample: rollback --database-type postgres --data-version v20260213001549224"@,
{
    "Usage: rollback --data-version <VERSION> [--database-type postgres|mysql]\nExample: rollback --database-type postgres --data-version v20260213001549224"
}

/// The store that a rollback runs on: PostgreSQL or MySQL, as named; any
/// other name is refused with a message that holds it.
pub fn rollback_backend(database_type: &str) -> (backend: Result<DatabaseType, String>)
    ensures
        database_type@ == "postgres"@ ==> backend == Ok::<DatabaseType, String>(
            DatabaseType::Postgres,
        ),
        database_type@ == "mysql"@ ==> backend == Ok::<DatabaseType, String>(DatabaseType::MySql),
        database_type@ != "postgres"@ && database_type@ != "mysql"@ ==> backend is Err
            && backend->Err_0@ == "Unsupported database_type: "@ + database_type@,
{
    proof {
        reveal_strlit("postgres");
        reveal_strlit("mysql");
        assert("postgres"@.len() == 8 && "mysql"@.len() == 5);
    }
    if database_type.eq("postgres") {
        Ok(DatabaseType::Postgres)
    } else if database_type.eq("mysql") {
        Ok(DatabaseType::MySql)
    } else {
        let mut message = String::from_str("Unsupported database_type: ");
        message.append(database_type);
        Err(message)
    }
}

/// Why a rollback cannot be done.
#[derive(Debug)]
pub enum RollbackError {
    /// No snapshot is stored under the data version.
    NoSnapshot { data_version: String },
}

impl RollbackError {
    /// The message of the error.
    pub open spec fn message_text(self) -> Seq<char> {
        match self {
            RollbackError::NoSnapshot { data_version } => "No snapshot rows found for data_version="@
                + data_version@,
        }
    }

    /// The message of the error.
    pub fn message(&self) -> (text: String)
        ensures
            text@ == self.message_text(),
    {
        match self {
            RollbackError::NoSnapshot { data_version } => {
                let mut text = String::from_str("No snapshot rows found for data_version=");
                text.append(data_version.as_str());
                text
            },
        }
    }
}

/// Whether the rollback may go on: it may where the snapshot of the data
/// version holds at least one row.
pub fn check_snapshot(target_data_version: &str, snapshot_count: i64) -> (checked: Result<
    (),
    RollbackError,
>)
    ensures
        checked is Ok <==> snapshot_count > 0,
        checked matches Err(RollbackError::NoSnapshot { data_version }) ==> data_version@
            == target_data_version@,
{
    if snapshot_count > 0 {
        Ok(())
    } else {
        Err(RollbackError::NoSnapshot { data_version: String::from_str(target_data_version) })
    }
}

/// The line that reports a rollback that was done.
pub open spec fn completed_text(database_type: Seq<char>, data_version: Seq<char>, restored: nat) -> Seq<
    char,
> {
    "Rollback completed. database_type="@ + database_type + ", target_data_version="@
        + data_version + ", restored_rows="@ + decimal(restored)
}

/// The line that reports a rollback that failed.
pub open spec fn failed_text(database_type: Seq<char>, data_version: Seq<char>, error: Seq<char>) -> Seq<
    char,
> {
    "Rollback failed. database_type="@ + database_type + ", target_data_version="@ + data_version
        + ", error="@ + error
}

/// The line that reports a rollback that was done.
pub fn completed_message(database_type: &str, data_version: &str, restored: u64) -> (line: String)
    ensures
        line@ == completed_text(database_type@, data_version@, restored as nat),
{
    let mut line = String::from_str("Rollback completed. database_type=");
    line.append(database_type);
    line.append(", target_data_version=");
    line.append(data_version);
    line.append(", restored_rows=");
    push_decimal(&mut line, restored);
    line
}

/// The line that reports a rollback that failed.
pub fn failed_message(database_type: &str, data_version: &str, error: &str) -> (line: String)
    ensures
        line@ == failed_text(database_type@, data_version@, error@),
{
    let mut line = String::from_str("Rollback failed. database_type=");
    line.append(database_type);
    line.append(", target_data_version=");
    line.append(data_version);
    line.append(", error=");
    line.append(error);
    line
}

} // verus!
