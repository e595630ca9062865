//! How a batch is split: contiguous shards, one per worker, and chunks of a
//! fixed size within a shard.

use vstd::prelude::*;

verus! {

/// The number of records that one transaction upserts at most.
pub const CHUNK_SIZE: usize = 200;

/// `num_cpus::get`: the number of logical cores available to the process,
/// which is at least one.
#[verifier::external_body]
fn cpu_count() -> (cores: usize)
    ensures
        cores >= 1,
{
    num_cpus::get()
}

/// The number of workers for a machine with the given number of cores: one
/// less than the cores, and at least one.
pub open spec fn worker_count(cores: nat) -> nat {
    if cores >= 2 {
        (cores - 1) as nat
    } else {
        1
    }
}

/// The number of workers for a machine with the given number of cores.
pub fn thread_num_for(cpu_cores: usize) -> (workers: usize)
    ensures
        workers == worker_count(cpu_cores as nat),
{
    if cpu_cores >= 2 {
        cpu_cores - 1
    } else {
        1
    }
}

/// The number of workers for this machine. It is never zero.
pub fn determine_thread_num() -> (workers: usize)
    ensures
        workers >= 1,
{
    thread_num_for(cpu_count())
}

/// Where shard `i` of `workers` starts in a batch of `len` records.
pub open spec fn shard_start(len: nat, workers: nat, i: nat) -> nat {
    i * (len / workers)
}

/// Where shard `i` of `workers` ends in a batch of `len` records: every
/// shard has `len / workers` records, and the last takes the remainder too.
pub open spec fn shard_end(len: nat, workers: nat, i: nat) -> nat {
    if i + 1 == workers {
        len
    } else {
        (i + 1) * (len / workers)
    }
}

/// The shards lie within the batch, none ends before it starts, the first
/// starts at the beginning, each starts where the one before it ended, and
/// the last ends at the end: they cover the batch without gap or overlap.
pub proof fn lemma_shards_partition(len: nat, workers: nat, i: nat)
    requires
        workers >= 1,
        i < workers,
    ensures
        shard_start(len, workers, 0) == 0,
        shard_start(len, workers, i) <= shard_end(len, workers, i) <= len,
        i + 1 < workers ==> shard_end(len, workers, i) == shard_start(len, workers, i + 1),
        shard_end(len, workers, (workers - 1) as nat) == len,
{
    let size = len / workers;
    assert(size * workers <= len) by (nonlinear_arith)
        requires
            size == len / workers,
            workers >= 1,
    ;
    assert(i * size <= (i + 1) * size) by (nonlinear_arith);
    assert((i + 1) * size <= workers * size) by (nonlinear_arith)
        requires
            i + 1 <= workers,
    ;
    assert(workers * size == size * workers) by (nonlinear_arith);
}

/// The bounds of shard `i`: the records from the first bound up to, and
/// without, the second.
pub fn shard_range(len: usize, workers: usize, i: usize) -> (range: (usize, usize))
    requires
        workers >= 1,
        i < workers,
    ensures
        range.0 == shard_start(len as nat, workers as nat, i as nat),
        range.1 == shard_end(len as nat, workers as nat, i as nat),
        range.0 <= range.1 <= len,
{
    proof {
        lemma_shards_partition(len as nat, workers as nat, i as nat);
        if i + 1 < workers {
            lemma_shards_partition(len as nat, workers as nat, (i + 1) as nat);
        }
    }
    let size: usize = len / workers;
    assert(i * size <= len) by {
        assert(i * size == shard_start(len as nat, workers as nat, i as nat));
    }
    let start: usize = i * size;
    let end: usize = if i == workers - 1 {
        len
    } else {
        assert((i + 1) * size <= len) by {
            assert((i + 1) * size == shard_end(len as nat, workers as nat, i as nat));
        }
        (i + 1) * size
    };
    (start, end)
}

/// The bounds of all shards of a batch, in order.
pub fn plan_shards(len: usize, workers: usize) -> (shards: Vec<(usize, usize)>)
    requires
        workers >= 1,
    ensures
        shards@.len() == workers,
        forall|i: int|
            0 <= i < workers ==> (#[trigger] shards@[i]).0 == shard_start(
                len as nat,
                workers as nat,
                i as nat,
            ) && shards@[i].1 == shard_end(len as nat, workers as nat, i as nat),
{
    let mut shards: Vec<(usize, usize)> = Vec::new();
    let mut i: usize = 0;
    while i < workers
        invariant
            i <= workers,
            workers >= 1,
            shards@.len() == i,
            forall|k: int|
                0 <= k < i ==> (#[trigger] shards@[k]).0 == shard_start(
                    len as nat,
                    workers as nat,
                    k as nat,
                ) && shards@[k].1 == shard_end(len as nat, workers as nat, k as nat),
        decreases workers - i,
    {
        shards.push(shard_range(len, workers, i));
        i = i + 1;
    }
    shards
}

/// The number of chunks that `len` records are written in.
pub open spec fn chunk_count(len: nat) -> nat {
    (len + CHUNK_SIZE - 1) as nat / (CHUNK_SIZE as nat)
}

/// Where chunk `k` starts among `len` records.
pub open spec fn chunk_start(k: nat) -> nat {
    (k * CHUNK_SIZE) as nat
}

/// Where chunk `k` ends among `len` records: a full chunk later, or at the
/// end of the records where they end sooner.
pub open spec fn chunk_end(len: nat, k: nat) -> nat {
    if (k + 1) * CHUNK_SIZE <= len {
        ((k + 1) * CHUNK_SIZE) as nat
    } else {
        len
    }
}

/// The chunk that starts at `position`, if records are left there: its
/// bounds. Chunks are taken in order, each starting where the one before it
/// ended, and none is empty or longer than the chunk size.
pub fn next_chunk(position: usize, len: usize) -> (chunk: Option<(usize, usize)>)
    ensures
        chunk is Some <==> position < len,
        chunk matches Some(bounds) ==> bounds.0 == position && position < bounds.1 <= len
            && bounds.1 - bounds.0 <= CHUNK_SIZE && (bounds.1 == len || bounds.1 - bounds.0
            == CHUNK_SIZE),
{
    if position >= len {
        None
    } else if len - position > CHUNK_SIZE {
        Some((position, position + CHUNK_SIZE))
    } else {
        Some((position, len))
    }
}

/// The bounds of all chunks of `len` records, in order.
pub fn plan_chunks(len: usize) -> (chunks: Vec<(usize, usize)>)
    ensures
        chunks@.len() == chunk_count(len as nat),
        forall|k: int|
            0 <= k < chunks@.len() ==> (#[trigger] chunks@[k]).0 == chunk_start(k as nat)
                && chunks@[k].1 == chunk_end(len as nat, k as nat),
{
    let mut chunks: Vec<(usize, usize)> = Vec::new();
    let mut position: usize = 0;
    loop
        invariant
            position <= len,
            position == chunks@.len() * CHUNK_SIZE || position == len,
            position < len ==> position == chunks@.len() * CHUNK_SIZE,
            position == len ==> chunks@.len() == chunk_count(len as nat),
            position < len ==> chunks@.len() < chunk_count(len as nat),
            forall|k: int|
                0 <= k < chunks@.len() ==> (#[trigger] chunks@[k]).0 == chunk_start(k as nat)
                    && chunks@[k].1 == chunk_end(len as nat, k as nat),
        ensures
            position == len,
        decreases len - position,
    {
        match next_chunk(position, len) {
            Some(bounds) => {
                chunks.push(bounds);
                position = bounds.1;
            },
            None => {
                break ;
            },
        }
    }
    chunks
}

} // verus!
