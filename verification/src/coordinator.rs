//! The coordinator: hands every worker its partition before the run, and
//! sums up the workers' outcomes after it. One worker's failure changes
//! nothing for the others: each outcome is counted for itself.

use crate::config::{ConfigurationError, RunConfig};
use crate::partition::{boundary, lemma_boundary_monotone, partition_boundary, partition_of};
use crate::worker::{Worker, WorkerResult, WorkerState};
use vstd::prelude::*;

verus! {

/// Splits the dataset into the partitions of workers `1..=workers`, in that
/// order. A run without workers is refused.
pub fn partition_all<T>(data: Vec<T>, workers: usize) -> (partitions: Result<
    Vec<Vec<T>>,
    ConfigurationError,
>)
    ensures
        workers == 0 <==> partitions is Err,
        partitions is Err ==> partitions->Err_0 == ConfigurationError::InvalidWorkerCount,
        partitions is Ok ==> {
            &&& partitions->Ok_0@.len() == workers
            &&& forall|i: int|
                0 <= i < workers ==> (#[trigger] partitions->Ok_0@[i])@ == partition_of(
                    data@,
                    workers as nat,
                    (i + 1) as nat,
                )
        },
{
    if workers == 0 {
        return Err(ConfigurationError::InvalidWorkerCount);
    }
    let len = data.len();
    let mut rest = data;
    let mut start: usize = 0;
    let mut partitions: Vec<Vec<T>> = Vec::new();
    let mut done: usize = 0;
    proof {
        crate::partition::lemma_boundary_ends(len as nat, workers as nat);
        assert(rest@ =~= data@.subrange(0, len as int));
    }
    while done < workers
        invariant
            workers >= 1,
            done <= workers,
            len == data@.len(),
            start == boundary(len as nat, workers as nat, done as nat),
            start <= len,
            rest@ == data@.subrange(start as int, len as int),
            partitions@.len() == done,
            forall|i: int|
                0 <= i < done ==> (#[trigger] partitions@[i])@ == partition_of(
                    data@,
                    workers as nat,
                    (i + 1) as nat,
                ),
        decreases workers - done,
    {
        proof {
            lemma_boundary_monotone(len as nat, workers as nat, done as nat, (done + 1) as nat);
        }
        let end = partition_boundary(len, workers, done + 1);
        let tail = rest.split_off(end - start);
        proof {
            assert(rest@ =~= partition_of(data@, workers as nat, (done + 1) as nat));
            assert(tail@ =~= data@.subrange(end as int, len as int));
        }
        partitions.push(rest);
        rest = tail;
        start = end;
        done = done + 1;
    }
    Ok(partitions)
}

/// One worker for each partition of a dataset of `len` records, in the
/// order of the partitions, none of them started.
pub fn plan_workers(len: usize, config: &RunConfig) -> (workers: Vec<Worker>)
    requires
        config.wf(),
    ensures
        workers@.len() == config.workers,
        forall|i: int|
            0 <= i < config.workers ==> {
                &&& (#[trigger] workers@[i]).wf()
                &&& workers@[i].state == WorkerState::Created
                &&& workers@[i].chunk_size == config.chunk_size
                &&& workers@[i].partition_len == boundary(
                    len as nat,
                    config.workers as nat,
                    (i + 1) as nat,
                ) - boundary(len as nat, config.workers as nat, i as nat)
            },
{
    let mut workers: Vec<Worker> = Vec::new();
    let mut done: usize = 0;
    while done < config.workers
        invariant
            config.wf(),
            done <= config.workers,
            workers@.len() == done,
            forall|i: int|
                0 <= i < done ==> {
                    &&& (#[trigger] workers@[i]).wf()
                    &&& workers@[i].state == WorkerState::Created
                    &&& workers@[i].chunk_size == config.chunk_size
                    &&& workers@[i].partition_len == boundary(
                        len as nat,
                        config.workers as nat,
                        (i + 1) as nat,
                    ) - boundary(len as nat, config.workers as nat, i as nat)
                },
        decreases config.workers - done,
    {
        let (start, end) = crate::partition::partition_bounds(len, done + 1, config.workers);
        workers.push(
            Worker {
                partition_len: end - start,
                chunk_size: config.chunk_size,
                state: WorkerState::Created,
            },
        );
        done = done + 1;
    }
    workers
}

/// What a run came to.
#[derive(Clone, Copy, Debug, PartialEq, Eq, Structural)]
pub struct RunSummary {
    /// How many workers wrote their whole partition.
    pub completed: usize,
    /// How many workers failed.
    pub failed: usize,
    /// How many records reached the sink, those of failed workers included.
    pub records_written: u128,
}

/// How many records a worker got written.
pub open spec fn written_by(result: WorkerResult) -> nat {
    match result {
        WorkerResult::Completed { count } => count as nat,
        WorkerResult::Failed { written, .. } => written as nat,
    }
}

/// How many of the outcomes are failures.
pub open spec fn failures(results: Seq<WorkerResult>) -> nat
    decreases results.len(),
{
    if results.len() == 0 {
        0
    } else {
        failures(results.drop_last()) + if results.last() is Failed {
            1nat
        } else {
            0nat
        }
    }
}

/// How many records the workers got written together.
pub open spec fn total_written(results: Seq<WorkerResult>) -> nat
    decreases results.len(),
{
    if results.len() == 0 {
        0
    } else {
        total_written(results.drop_last()) + written_by(results.last())
    }
}

/// There is no failure among the outcomes exactly where each of them is a
/// completion, and never more failures than outcomes.
pub proof fn lemma_failures(results: Seq<WorkerResult>)
    ensures
        failures(results) <= results.len(),
        failures(results) == 0 <==> forall|i: int|
            0 <= i < results.len() ==> #[trigger] results[i] is Completed,
        total_written(results) <= results.len() * usize::MAX,
    decreases results.len(),
{
    if results.len() > 0 {
        let front = results.drop_last();
        lemma_failures(front);
        assert(forall|i: int| 0 <= i < front.len() ==> front[i] == results[i]);
        if failures(results) == 0 {
            assert forall|i: int| 0 <= i < results.len() implies #[trigger] results[i]
                is Completed by {
                if i < front.len() {
                    assert(front[i] is Completed);
                }
            }
        }
        assert(front.len() * usize::MAX + usize::MAX == results.len() * usize::MAX)
            by (nonlinear_arith)
            requires
                front.len() + 1 == results.len(),
        ;
    } else {
        assert(results.len() * usize::MAX == 0) by (nonlinear_arith)
            requires
                results.len() == 0,
        ;
    }
}

/// Counts the outcomes of all workers.
pub fn summarize(results: &Vec<WorkerResult>) -> (summary: RunSummary)
    ensures
        summary.failed == failures(results@),
        summary.completed == results@.len() - failures(results@),
        summary.records_written == total_written(results@),
{
    let mut summary = RunSummary { completed: 0, failed: 0, records_written: 0 };
    let mut seen: usize = 0;
    while seen < results.len()
        invariant
            seen <= results@.len(),
            summary.failed == failures(results@.take(seen as int)),
            summary.completed == seen - summary.failed,
            summary.failed <= seen,
            summary.records_written == total_written(results@.take(seen as int)),
        decreases results@.len() - seen,
    {
        proof {
            let next = results@.take(seen + 1);
            assert(next.drop_last() =~= results@.take(seen as int));
            assert(next.last() == results@[seen as int]);
            lemma_failures(next);
            assert(next.len() * usize::MAX <= usize::MAX * usize::MAX) by (nonlinear_arith)
                requires
                    next.len() <= usize::MAX,
            ;
            assert(usize::MAX * usize::MAX <= u128::MAX) by (nonlinear_arith)
                requires
                    usize::MAX <= 0xffff_ffff_ffff_ffff,
            ;
        }
        match &results[seen] {
            WorkerResult::Completed { count } => {
                summary.completed = summary.completed + 1;
                summary.records_written = summary.records_written + (*count as u128);
            },
            WorkerResult::Failed { written, .. } => {
                summary.failed = summary.failed + 1;
                summary.records_written = summary.records_written + (*written as u128);
            },
        }
        seen = seen + 1;
    }
    assert(results@.take(seen as int) =~= results@);
    summary
}

/// The status that the process ends with: 0 where every worker completed,
/// 1 where at least one failed.
pub fn exit_code(results: &Vec<WorkerResult>) -> (code: i32)
    ensures
        code == 0 <==> forall|i: int| 0 <= i < results@.len() ==> #[trigger] results@[i] is Completed,
        code == 0 || code == 1,
{
    proof {
        lemma_failures(results@);
    }
    let summary = summarize(results);
    if summary.failed == 0 {
        0
    } else {
        1
    }
}

} // verus!
