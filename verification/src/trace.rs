//! Whole lives of a worker: what a run of events leads to, and what the
//! worker asked for on the way.

use crate::batch::{lemma_batch_edges, lemma_edge_of_full_batch, lemma_full_batches};
use crate::worker::{
    lemma_no_batches, Worker, WorkerAction, WorkerError, WorkerEvent, WorkerResult, WorkerState,
};
use vstd::prelude::*;

verus! {

/// The worker after a run of events.
pub open spec fn run(worker: Worker, events: Seq<WorkerEvent>) -> Worker
    decreases events.len(),
{
    if events.len() == 0 {
        worker
    } else {
        run(worker, events.drop_last()).after(events.last())
    }
}

/// What the worker asked for in answer to each event of a run.
pub open spec fn answers(worker: Worker, events: Seq<WorkerEvent>) -> Seq<WorkerAction>
    decreases events.len(),
{
    if events.len() == 0 {
        Seq::empty()
    } else {
        answers(worker, events.drop_last()).push(
            run(worker, events.drop_last()).action_on(events.last()),
        )
    }
}

/// The events of a worker that is started, connects, and sees its first
/// `successes` writes succeed.
pub open spec fn smooth_run(successes: nat) -> Seq<WorkerEvent> {
    seq![WorkerEvent::Started, WorkerEvent::Connected] + Seq::new(
        successes,
        |i: int| WorkerEvent::WriteSucceeded,
    )
}

/// The request to connect, then the requests to write batches `1..=count`
/// in order.
pub open spec fn requests(worker: Worker, count: nat) -> Seq<WorkerAction> {
    seq![WorkerAction::Connect] + Seq::new(count, |i: int| worker.write_of((i + 1) as nat))
}

/// A worker in its first state.
pub open spec fn fresh(worker: Worker) -> bool {
    worker.wf() && worker.state is Created
}

/// A run keeps the worker well formed and leaves its partition alone.
pub proof fn lemma_run_preserves(worker: Worker, events: Seq<WorkerEvent>)
    requires
        worker.wf(),
    ensures
        run(worker, events).wf(),
        run(worker, events).partition_len == worker.partition_len,
        run(worker, events).chunk_size == worker.chunk_size,
        answers(worker, events).len() == events.len(),
    decreases events.len(),
{
    if events.len() > 0 {
        lemma_run_preserves(worker, events.drop_last());
        let before = run(worker, events.drop_last());
        lemma_step_preserves(before, events.last());
    }
}

/// One event keeps the worker well formed.
pub proof fn lemma_step_preserves(worker: Worker, event: WorkerEvent)
    requires
        worker.wf(),
    ensures
        worker.after(event).wf(),
{
    let len = worker.partition_len as nat;
    let chunk = worker.chunk_size as nat;
    lemma_no_batches(len, chunk);
    lemma_full_batches(len, chunk);
    lemma_batch_count_fits(worker);
    match worker.state {
        WorkerState::Loading { batch } => {
            lemma_batch_edges(len, chunk, (batch - 1) as nat, batch as nat);
        },
        _ => {},
    }
}

/// A run in two parts is the second part run from where the first one ends.
pub proof fn lemma_run_split(worker: Worker, first: Seq<WorkerEvent>, second: Seq<WorkerEvent>)
    ensures
        run(worker, first + second) == run(run(worker, first), second),
        answers(worker, first + second) == answers(worker, first) + answers(
            run(worker, first),
            second,
        ),
    decreases second.len(),
{
    if second.len() == 0 {
        assert(first + second =~= first);
        assert(answers(worker, first) + Seq::<WorkerAction>::empty() =~= answers(worker, first));
    } else {
        lemma_run_split(worker, first, second.drop_last());
        assert((first + second).drop_last() =~= first + second.drop_last());
        assert((first + second).last() == second.last());
        let middle = run(worker, first);
        assert(answers(worker, first) + answers(middle, second) =~= (answers(worker, first)
            + answers(middle, second.drop_last())).push(
            run(middle, second.drop_last()).action_on(second.last()),
        ));
    }
}

/// A worker that has ended stays as it is, whatever it is told, and asks
/// for nothing more.
pub proof fn lemma_terminal_absorbs(worker: Worker, events: Seq<WorkerEvent>)
    requires
        worker.is_terminal(),
    ensures
        run(worker, events) == worker,
        answers(worker, events) == Seq::new(events.len(), |i: int| WorkerAction::Rejected),
    decreases events.len(),
{
    if events.len() == 0 {
        assert(answers(worker, events) =~= Seq::new(0, |i: int| WorkerAction::Rejected));
    } else {
        lemma_terminal_absorbs(worker, events.drop_last());
        assert(answers(worker, events) =~= Seq::new(
            events.len(),
            |i: int| WorkerAction::Rejected,
        ));
    }
}

/// While writes succeed, the worker asks for the batches one by one, in
/// order: after `successes` of them, fewer than there are batches, the
/// write of the next batch is under way.
pub proof fn lemma_smooth_run(worker: Worker, successes: nat)
    requires
        fresh(worker),
        successes < worker.batches(),
    ensures
        run(worker, smooth_run(successes)).state == (WorkerState::Loading {
            batch: (successes + 1) as usize,
        }),
        answers(worker, smooth_run(successes)) == requests(worker, successes + 1),
    decreases successes,
{
    let events = smooth_run(successes);
    let len = worker.partition_len as nat;
    let chunk = worker.chunk_size as nat;
    lemma_no_batches(len, chunk);
    lemma_batch_count_fits(worker);
    if successes == 0 {
        let start = seq![WorkerEvent::Started];
        assert(events.drop_last() =~= start);
        assert(start.drop_last() =~= Seq::<WorkerEvent>::empty());
        assert(run(worker, start.drop_last()) == worker);
        assert(run(worker, start) == worker.after(WorkerEvent::Started));
        assert(answers(worker, start.drop_last()) =~= Seq::<WorkerAction>::empty());
        assert(answers(worker, start) =~= seq![WorkerAction::Connect]);
        assert(answers(worker, events) =~= requests(worker, 1));
    } else {
        let before = (successes - 1) as nat;
        lemma_smooth_run(worker, before);
        assert(events.drop_last() =~= smooth_run(before));
        assert(events.last() == WorkerEvent::WriteSucceeded);
        lemma_run_preserves(worker, smooth_run(before));
        assert(answers(worker, events) =~= requests(worker, successes + 1));
    }
}

/// The number of batches is no more than the number of records, so it fits
/// wherever the length does.
pub proof fn lemma_batch_count_fits(worker: Worker)
    requires
        worker.chunk_size > 0,
    ensures
        worker.batches() <= worker.partition_len,
{
    let len = worker.partition_len as nat;
    let chunk = worker.chunk_size as nat;
    lemma_full_batches(len, chunk);
    let q = len / chunk;
    assert(q * chunk >= q) by (nonlinear_arith)
        requires
            chunk >= 1,
    ;
}

/// A worker all of whose writes succeed ends as completed with the length
/// of its partition, having asked for every batch once, in order.
pub proof fn lemma_all_written(worker: Worker)
    requires
        fresh(worker),
    ensures
        run(worker, smooth_run(worker.batches())).state == (WorkerState::Completed {
            count: worker.partition_len,
        }),
        answers(worker, smooth_run(worker.batches())) == requests(worker, worker.batches()).push(
            WorkerAction::Stop,
        ),
{
    let count = worker.batches();
    let events = smooth_run(count);
    let len = worker.partition_len as nat;
    let chunk = worker.chunk_size as nat;
    lemma_no_batches(len, chunk);
    lemma_batch_count_fits(worker);
    if count == 0 {
        let start = seq![WorkerEvent::Started];
        assert(events.drop_last() =~= start);
        assert(start.drop_last() =~= Seq::<WorkerEvent>::empty());
        assert(run(worker, start.drop_last()) == worker);
        assert(run(worker, start) == worker.after(WorkerEvent::Started));
        assert(answers(worker, start.drop_last()) =~= Seq::<WorkerAction>::empty());
        assert(answers(worker, start) =~= seq![WorkerAction::Connect]);
        assert(answers(worker, events) =~= requests(worker, 0).push(WorkerAction::Stop));
    } else {
        let before = (count - 1) as nat;
        lemma_smooth_run(worker, before);
        assert(events.drop_last() =~= smooth_run(before));
        assert(events.last() == WorkerEvent::WriteSucceeded);
        lemma_run_preserves(worker, smooth_run(before));
    }
}

/// Fail-fast: where the write of batch `n` is the first to fail, the worker
/// has asked for batches `1..=n` in order and for nothing after them. It
/// ends as failed at batch `n`, with the `n - 1` full batches before it
/// written, and nothing that it is told later changes that or makes it ask
/// for another write.
pub proof fn lemma_fail_fast(worker: Worker, n: nat, message: String, later: Seq<WorkerEvent>)
    requires
        fresh(worker),
        1 <= n <= worker.batches(),
    ensures
        ({
            let events = smooth_run((n - 1) as nat).push(WorkerEvent::WriteFailed(message))
                + later;
            &&& run(worker, events).state == (WorkerState::Failed {
                at_batch: n as usize,
                written: ((n - 1) * worker.chunk_size) as usize,
                cause: WorkerError::WriteError(message),
            })
            &&& (n - 1) * worker.chunk_size <= worker.partition_len
            &&& answers(worker, events) == requests(worker, n).push(WorkerAction::Stop)
                + Seq::new(later.len(), |i: int| WorkerAction::Rejected)
        }),
{
    let before = (n - 1) as nat;
    let head = smooth_run(before).push(WorkerEvent::WriteFailed(message));
    let len = worker.partition_len as nat;
    let chunk = worker.chunk_size as nat;
    lemma_batch_count_fits(worker);
    lemma_smooth_run(worker, before);
    lemma_run_preserves(worker, smooth_run(before));
    assert(head.drop_last() =~= smooth_run(before));
    assert(head.last() == WorkerEvent::WriteFailed(message));
    lemma_full_batches(len, chunk);
    lemma_edge_of_full_batch(len, chunk, before);
    lemma_batch_edges(len, chunk, before, n);
    let failed = run(worker, head);
    assert(failed.state == (WorkerState::Failed {
        at_batch: n as usize,
        written: ((n - 1) * worker.chunk_size) as usize,
        cause: WorkerError::WriteError(message),
    }));
    assert(answers(worker, head) == requests(worker, n).push(WorkerAction::Stop));
    lemma_run_split(worker, head, later);
    lemma_terminal_absorbs(failed, later);
}

/// Where every worker of a run ends, each after the events that it alone was
/// told of.
pub open spec fn outcomes(workers: Seq<Worker>, traces: Seq<Seq<WorkerEvent>>) -> Seq<Worker>
    recommends
        workers.len() == traces.len(),
{
    Seq::new(workers.len(), |i: int| run(workers[i], traces[i]))
}

/// One worker's failure leaves the others alone: where the write of batch
/// `n` fails for worker `failing` and every write of every other worker
/// succeeds, that worker alone ends as failed, at batch `n`, and each of the
/// others as completed with its whole partition written.
pub proof fn lemma_siblings_unaffected(
    workers: Seq<Worker>,
    traces: Seq<Seq<WorkerEvent>>,
    failing: int,
    n: nat,
    message: String,
)
    requires
        workers.len() == traces.len(),
        forall|i: int| 0 <= i < workers.len() ==> fresh(#[trigger] workers[i]),
        0 <= failing < workers.len(),
        1 <= n <= workers[failing].batches(),
        traces[failing] == smooth_run((n - 1) as nat).push(WorkerEvent::WriteFailed(message)),
        forall|i: int|
            0 <= i < workers.len() && i != failing ==> #[trigger] traces[i] == smooth_run(
                workers[i].batches(),
            ),
    ensures
        outcomes(workers, traces).len() == workers.len(),
        outcomes(workers, traces)[failing].spec_result() == Some(
            WorkerResult::Failed {
                at_batch: n as usize,
                written: ((n - 1) * workers[failing].chunk_size) as usize,
                cause: WorkerError::WriteError(message),
            },
        ),
        forall|i: int|
            0 <= i < workers.len() && i != failing ==> (#[trigger] outcomes(
                workers,
                traces,
            )[i]).spec_result() == Some(
                WorkerResult::Completed { count: workers[i].partition_len },
            ),
{
    let ended = outcomes(workers, traces);
    lemma_fail_fast(workers[failing], n, message, Seq::empty());
    assert(traces[failing] + Seq::<WorkerEvent>::empty() =~= traces[failing]);
    assert forall|i: int| 0 <= i < workers.len() && i != failing implies (#[trigger] ended[i]).spec_result()
        == Some(WorkerResult::Completed { count: workers[i].partition_len }) by {
        lemma_all_written(workers[i]);
    }
}

} // verus!
