//! The cycle of the crawler: its stages, and what follows a cycle.

use vstd::prelude::*;

use crate::timestamp::Timestamp;

verus! {

/// The stages of one cycle, in the order in which they run.
#[derive(Debug, Clone, Copy, PartialEq, Eq, Structural)]
pub enum CycleStage {
    /// Stream the source archive to disk.
    Fetch,
    /// Extract the feed from the archive.
    Unpack,
    /// Decode the feed and build the canonical records.
    Build,
    /// Upsert the records, shard by shard.
    Write,
    /// Delete the rows that the run did not touch.
    Sweep,
    /// Count what the run did and write its audit row.
    Audit,
    /// Copy the live table into the snapshot of the run.
    Snapshot,
    /// Remove the cached answers.
    Invalidate,
    /// Write the audit row of a run that failed.
    AuditFailure,
    /// The cycle is over and succeeded.
    Succeeded,
    /// The cycle is over and failed.
    Failed,
}

/// The stage that follows a stage that ended well or badly. A failure
/// before anything was written ends the cycle; a failure of the write, of
/// the sweep, or of the audit before its row is written is recorded in an
/// audit row of its own; a failure of the snapshot ends the cycle, for the
/// one audit row of the run is written by then; a failure to invalidate the
/// cache fails nothing.
pub open spec fn stage_after(stage: CycleStage, succeeded: bool) -> CycleStage {
    match stage {
        CycleStage::Fetch => if succeeded {
            CycleStage::Unpack
        } else {
            CycleStage::Failed
        },
        CycleStage::Unpack => if succeeded {
            CycleStage::Build
        } else {
            CycleStage::Failed
        },
        CycleStage::Build => if succeeded {
            CycleStage::Write
        } else {
            CycleStage::Failed
        },
        CycleStage::Write => if succeeded {
            CycleStage::Sweep
        } else {
            CycleStage::AuditFailure
        },
        CycleStage::Sweep => if succeeded {
            CycleStage::Audit
        } else {
            CycleStage::AuditFailure
        },
        CycleStage::Audit => if succeeded {
            CycleStage::Snapshot
        } else {
            CycleStage::AuditFailure
        },
        CycleStage::Snapshot => if succeeded {
            CycleStage::Invalidate
        } else {
            CycleStage::Failed
        },
        CycleStage::Invalidate => CycleStage::Succeeded,
        CycleStage::AuditFailure => CycleStage::Failed,
        CycleStage::Succeeded => CycleStage::Succeeded,
        CycleStage::Failed => CycleStage::Failed,
    }
}

/// The first stage of a cycle.
pub fn first_stage() -> (stage: CycleStage)
    ensures
        stage == CycleStage::Fetch,
{
    CycleStage::Fetch
}

/// The stage that follows.
pub fn next_stage(stage: CycleStage, succeeded: bool) -> (next: CycleStage)
    ensures
        next == stage_after(stage, succeeded),
{
    match stage {
        CycleStage::Fetch => if succeeded {
            CycleStage::Unpack
        } else {
            CycleStage::Failed
        },
        CycleStage::Unpack => if succeeded {
            CycleStage::Build
        } else {
            CycleStage::Failed
        },
        CycleStage::Build => if succeeded {
            CycleStage::Write
        } else {
            CycleStage::Failed
        },
        CycleStage::Write => if succeeded {
            CycleStage::Sweep
        } else {
            CycleStage::AuditFailure
        },
        CycleStage::Sweep => if succeeded {
            CycleStage::Audit
        } else {
            CycleStage::AuditFailure
        },
        CycleStage::Audit => if succeeded {
            CycleStage::Snapshot
        } else {
            CycleStage::AuditFailure
        },
        CycleStage::Snapshot => if succeeded {
            CycleStage::Invalidate
        } else {
            CycleStage::Failed
        },
        CycleStage::Invalidate => CycleStage::Succeeded,
        CycleStage::AuditFailure => CycleStage::Failed,
        CycleStage::Succeeded => CycleStage::Succeeded,
        CycleStage::Failed => CycleStage::Failed,
    }
}

/// How far a stage is from the end of the cycle, in stages.
pub open spec fn stages_left(stage: CycleStage) -> nat {
    match stage {
        CycleStage::Fetch => 9,
        CycleStage::Unpack => 8,
        CycleStage::Build => 7,
        CycleStage::Write => 6,
        CycleStage::Sweep => 5,
        CycleStage::Audit => 4,
        CycleStage::Snapshot => 3,
        CycleStage::Invalidate => 2,
        CycleStage::AuditFailure => 1,
        CycleStage::Succeeded => 0,
        CycleStage::Failed => 0,
    }
}

/// Every stage that is not the end brings the cycle nearer to its end; the
/// sweep, the audit, the snapshot and the invalidation are reached only
/// through the stage before them having succeeded; and the audit row of a
/// failure is written only after the write, the sweep or the audit failed,
/// never once the audit has succeeded: a run writes one audit row at most.
pub proof fn lemma_cycle_progresses(stage: CycleStage, succeeded: bool)
    ensures
        stage_after(stage, succeeded) == CycleStage::AuditFailure ==> !succeeded && (stage
            == CycleStage::Write || stage == CycleStage::Sweep || stage == CycleStage::Audit),
        stages_left(stage) > 0 ==> stages_left(stage_after(stage, succeeded)) < stages_left(stage),
        stage_after(stage, succeeded) == CycleStage::Sweep ==> stage == CycleStage::Write
            && succeeded,
        stage_after(stage, succeeded) == CycleStage::Audit ==> stage == CycleStage::Sweep
            && succeeded,
        stage_after(stage, succeeded) == CycleStage::Snapshot ==> stage == CycleStage::Audit
            && succeeded,
        stage_after(stage, succeeded) == CycleStage::Invalidate ==> stage == CycleStage::Snapshot
            && succeeded,
{
}

/// What the scheduler does after a cycle.
#[derive(Debug, Clone, Copy, PartialEq, Eq, Structural)]
pub enum SchedulerAction {
    /// Leave the program.
    Exit,
    /// Sleep for the given seconds, then run the next cycle.
    Sleep { seconds: u64 },
}

/// What follows a cycle: in one-shot mode the program leaves, whether the
/// cycle succeeded or not; else it sleeps for the interval, also whether
/// the cycle succeeded or not.
pub fn after_cycle(run_once: bool, interval_seconds: u64, cycle_succeeded: bool) -> (action:
    SchedulerAction)
    ensures
        action == if run_once {
            SchedulerAction::Exit
        } else {
            SchedulerAction::Sleep { seconds: interval_seconds }
        },
{
    if run_once {
        SchedulerAction::Exit
    } else {
        SchedulerAction::Sleep { seconds: interval_seconds }
    }
}

/// The time that a cycle stamps its rows with: the time at which it
/// starts, to the second.
pub fn batch_timestamp(now: Timestamp) -> (stamp: Timestamp)
    ensures
        stamp@ == now@.truncated(),
{
    now.truncate_to_seconds()
}

} // verus!
