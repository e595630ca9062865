//! What a worker does next: retry a chunk after a deadlock, go on to the
//! next chunk after a commit, or stop.

use vstd::prelude::*;

use crate::config::DatabaseType;
use crate::writer::plan::{next_chunk, CHUNK_SIZE};

verus! {

/// How often a chunk is tried again after a deadlock.
pub const MAX_RETRIES: usize = 3;

/// The error code by which MySQL reports a deadlock.
pub const MYSQL_DEADLOCK_CODE: u16 = 1213;

/// How one attempt at a transaction ended.
#[derive(Debug, Clone, Copy, PartialEq, Eq, Structural)]
pub enum AttemptOutcome {
    /// The transaction was committed.
    Committed,
    /// The store reported a deadlock and the transaction was rolled back.
    Deadlock,
    /// The store reported any other error.
    Failed,
}

/// What to do after an attempt.
#[derive(Debug, Clone, Copy, PartialEq, Eq, Structural)]
pub enum RetryAction {
    /// The transaction is done.
    Finish,
    /// Wait, then run the same transaction again.
    Retry,
    /// Give the error back to the caller.
    GiveUp,
}

/// How an attempt ended that PostgreSQL answered with an error: a deadlock
/// where the error carries the code `40P01`, a failure otherwise.
pub fn postgres_outcome(error_code: Option<&str>) -> (outcome: AttemptOutcome)
    ensures
        outcome == match error_code {
            Some(code) => if code@ == "40P01"@ {
                AttemptOutcome::Deadlock
            } else {
                AttemptOutcome::Failed
            },
            None => AttemptOutcome::Failed,
        },
{
    match error_code {
        Some(code) => if code.eq("40P01") {
            AttemptOutcome::Deadlock
        } else {
            AttemptOutcome::Failed
        },
        None => AttemptOutcome::Failed,
    }
}

/// How an attempt ended that MySQL answered with an error: a deadlock
/// where the server's code is 1213, a failure otherwise.
pub fn mysql_outcome(server_code: Option<u16>) -> (outcome: AttemptOutcome)
    ensures
        outcome == match server_code {
            Some(code) => if code == MYSQL_DEADLOCK_CODE {
                AttemptOutcome::Deadlock
            } else {
                AttemptOutcome::Failed
            },
            None => AttemptOutcome::Failed,
        },
{
    match server_code {
        Some(code) => if code == MYSQL_DEADLOCK_CODE {
            AttemptOutcome::Deadlock
        } else {
            AttemptOutcome::Failed
        },
        None => AttemptOutcome::Failed,
    }
}

/// The retries used so far and the action, after an attempt that ended in
/// `outcome` when `attempt` retries had been used: a commit finishes; a
/// deadlock is retried while retries are left; anything else gives up.
pub open spec fn retry_step(attempt: nat, max_retries: nat, outcome: AttemptOutcome) -> (
    nat,
    RetryAction,
) {
    match outcome {
        AttemptOutcome::Committed => (attempt, RetryAction::Finish),
        AttemptOutcome::Deadlock => if attempt < max_retries {
            (attempt + 1, RetryAction::Retry)
        } else {
            (attempt, RetryAction::GiveUp)
        },
        AttemptOutcome::Failed => (attempt, RetryAction::GiveUp),
    }
}

/// Decides what follows an attempt at a transaction.
pub fn retry_transaction(attempt: usize, max_retries: usize, outcome: AttemptOutcome) -> (next: (
    usize,
    RetryAction,
))
    ensures
        (next.0 as nat, next.1) == retry_step(attempt as nat, max_retries as nat, outcome),
{
    match outcome {
        AttemptOutcome::Committed => (attempt, RetryAction::Finish),
        AttemptOutcome::Deadlock => if attempt < max_retries {
            (attempt + 1, RetryAction::Retry)
        } else {
            (attempt, RetryAction::GiveUp)
        },
        AttemptOutcome::Failed => (attempt, RetryAction::GiveUp),
    }
}

/// How many of the outcomes are consumed before the transaction finishes
/// or is given up, when `attempt` retries are used already.
pub open spec fn attempts_made(attempt: nat, max_retries: nat, outcomes: Seq<AttemptOutcome>) -> nat
    decreases outcomes.len(),
{
    if outcomes.len() == 0 {
        0
    } else {
        let next = retry_step(attempt, max_retries, outcomes[0]);
        if next.1 == RetryAction::Retry {
            1 + attempts_made(next.0, max_retries, outcomes.drop_first())
        } else {
            1
        }
    }
}

/// Whatever the store answers, a transaction is attempted at most once more
/// than there are retries left.
pub proof fn lemma_attempts_bounded(
    attempt: nat,
    max_retries: nat,
    outcomes: Seq<AttemptOutcome>,
)
    requires
        attempt <= max_retries,
    ensures
        attempts_made(attempt, max_retries, outcomes) <= max_retries - attempt + 1,
    decreases outcomes.len(),
{
    if outcomes.len() > 0 {
        let next = retry_step(attempt, max_retries, outcomes[0]);
        if next.1 == RetryAction::Retry {
            lemma_attempts_bounded(next.0, max_retries, outcomes.drop_first());
        }
    }
}

/// What a worker does next on its shard.
#[derive(Debug, Clone, Copy, PartialEq, Eq, Structural)]
pub enum ShardAction {
    /// Upsert the records from `from` up to, and without, `to` in one
    /// transaction. `after_deadlock` tells a retry of the same chunk from a
    /// chunk that is tried for the first time.
    WriteChunk { from: usize, to: usize, after_deadlock: bool },
    /// Every chunk of the shard is committed.
    Finished,
    /// The shard is given up; the last error goes to the caller.
    Aborted,
}

/// The milliseconds that a worker waits before it acts: before a retry
/// after a deadlock, and between two chunks, 200 on PostgreSQL and 500 on
/// the other stores; nothing before the first chunk of a shard, and nothing
/// when there is nothing more to write.
pub open spec fn wait_before(database_type: DatabaseType, action: ShardAction, first: bool) -> u64 {
    match action {
        ShardAction::WriteChunk { from, to, after_deadlock } => if first && !after_deadlock {
            0
        } else if database_type == DatabaseType::Postgres {
            200
        } else {
            500
        },
        _ => 0,
    }
}

/// The milliseconds that a worker waits before it acts.
pub fn pause_millis(database_type: DatabaseType, action: ShardAction, first: bool) -> (millis: u64)
    ensures
        millis == wait_before(database_type, action, first),
        millis <= 500,
{
    match action {
        ShardAction::WriteChunk { from, to, after_deadlock } => if first && !after_deadlock {
            0
        } else {
            match database_type {
                DatabaseType::Postgres => 200,
                _ => 500,
            }
        },
        _ => 0,
    }
}

/// The progress of one worker through its shard.
#[derive(Debug, Clone, Copy)]
pub struct ShardProgress {
    /// Where the next chunk to commit starts.
    pub position: usize,
    /// Where the shard ends.
    pub end: usize,
    /// How many retries the current chunk has used.
    pub attempt: usize,
    /// Whether the shard was given up.
    pub aborted: bool,
}

impl ShardProgress {
    /// The progress is within its bounds.
    pub open spec fn wf(&self) -> bool {
        self.position <= self.end && self.attempt <= MAX_RETRIES
    }

    /// The action that the progress calls for.
    pub open spec fn action(&self, after_deadlock: bool) -> ShardAction {
        if self.aborted {
            ShardAction::Aborted
        } else if self.position >= self.end {
            ShardAction::Finished
        } else if self.end - self.position > CHUNK_SIZE {
            ShardAction::WriteChunk {
                from: self.position,
                to: (self.position + CHUNK_SIZE) as usize,
                after_deadlock,
            }
        } else {
            ShardAction::WriteChunk { from: self.position, to: self.end, after_deadlock }
        }
    }

    /// The progress after an attempt at the current chunk ended in
    /// `outcome`: a commit moves on to the next chunk with all retries
    /// left; a deadlock uses up a retry, or gives the shard up when none is
    /// left; any other error gives the shard up. A shard that is finished
    /// or given up stays as it is.
    pub open spec fn after(&self, outcome: AttemptOutcome) -> ShardProgress {
        if self.aborted || self.position >= self.end {
            *self
        } else {
            match retry_step(self.attempt as nat, MAX_RETRIES as nat, outcome).1 {
                RetryAction::Finish => ShardProgress {
                    position: if self.end - self.position > CHUNK_SIZE {
                        (self.position + CHUNK_SIZE) as usize
                    } else {
                        self.end
                    },
                    attempt: 0,
                    ..*self
                },
                RetryAction::Retry => ShardProgress {
                    attempt: (self.attempt + 1) as usize,
                    ..*self
                },
                RetryAction::GiveUp => ShardProgress { aborted: true, ..*self },
            }
        }
    }

    /// The progress at the start of the shard from `start` to `end`.
    pub fn new(start: usize, end: usize) -> (progress: ShardProgress)
        requires
            start <= end,
        ensures
            progress.wf(),
            progress == (ShardProgress { position: start, end, attempt: 0, aborted: false }),
    {
        ShardProgress { position: start, end, attempt: 0, aborted: false }
    }

    /// The first action of the worker.
    pub fn first_action(&self) -> (action: ShardAction)
        requires
            self.wf(),
        ensures
            action == self.action(false),
    {
        self.current(false)
    }

    fn current(&self, after_deadlock: bool) -> (action: ShardAction)
        requires
            self.wf(),
        ensures
            action == self.action(after_deadlock),
    {
        if self.aborted {
            ShardAction::Aborted
        } else {
            match next_chunk(self.position, self.end) {
                Some(bounds) => ShardAction::WriteChunk {
                    from: bounds.0,
                    to: bounds.1,
                    after_deadlock,
                },
                None => ShardAction::Finished,
            }
        }
    }

    /// Takes in how the attempt at the current chunk ended, and says what
    /// the worker does next.
    pub fn advance(&mut self, outcome: AttemptOutcome) -> (action: ShardAction)
        requires
            old(self).wf(),
        ensures
            final(self).wf(),
            *final(self) == old(self).after(outcome),
            action == final(self).action(outcome == AttemptOutcome::Deadlock),
            final(self).end == old(self).end,
            old(self).position <= final(self).position,
    {
        if !self.aborted && self.position < self.end {
            let (attempt, decision) = retry_transaction(self.attempt, MAX_RETRIES, outcome);
            match decision {
                RetryAction::Finish => {
                    match next_chunk(self.position, self.end) {
                        Some(bounds) => {
                            self.position = bounds.1;
                        },
                        None => {},
                    }
                    self.attempt = 0;
                },
                RetryAction::Retry => {
                    self.attempt = attempt;
                },
                RetryAction::GiveUp => {
                    self.aborted = true;
                },
            }
        }
        self.current(outcome == AttemptOutcome::Deadlock)
    }
}

} // verus!
