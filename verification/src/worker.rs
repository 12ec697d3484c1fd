//! One worker's life: it connects, writes the batches of its partition in
//! order, and stops at the first write that fails. The worker decides; the
//! caller does the connecting and the writing and reports back what happened.

use crate::batch::{batch_bounds, batch_count, batch_edge, count_batches};
use crate::config::ConfigurationError;
use vstd::prelude::*;

verus! {

/// Why a worker gave up, with the sink's own words.
#[derive(Clone, Debug, PartialEq, Eq)]
pub enum WorkerError {
    /// The transport could not be set up, or the credentials were refused.
    ConnectionError(String),
    /// The namespace or database could not be selected.
    NamespaceError(String),
    /// The sink refused a batch.
    WriteError(String),
}

/// How a worker ended.
#[derive(Clone, Debug, PartialEq, Eq)]
pub enum WorkerResult {
    /// Every batch was written; `count` records in all.
    Completed { count: usize },
    /// The worker stopped at batch `at_batch` (counted from 1; 0 where it
    /// never got to write), having written `written` records before.
    Failed { at_batch: usize, written: usize, cause: WorkerError },
}

/// Where a worker stands.
#[derive(Clone, Debug, PartialEq, Eq)]
pub enum WorkerState {
    Created,
    Connecting,
    /// The write of batch `batch` (counted from 1) is under way.
    Loading { batch: usize },
    Completed { count: usize },
    Failed { at_batch: usize, written: usize, cause: WorkerError },
}

/// What the caller reports to a worker.
#[derive(Clone, Debug, PartialEq, Eq)]
pub enum WorkerEvent {
    Started,
    Connected,
    ConnectionFailed(String),
    NamespaceFailed(String),
    WriteSucceeded,
    WriteFailed(String),
}

/// What a worker asks of the caller next.
#[derive(Clone, Copy, Debug, PartialEq, Eq, Structural)]
pub enum WorkerAction {
    /// Open the connection.
    Connect,
    /// Send the records from `start` up to `end` of the partition, as batch
    /// number `batch`.
    Write { batch: usize, start: usize, end: usize },
    /// The worker has ended: fetch its result.
    Stop,
    /// The event does not fit the worker's state; nothing has changed.
    Rejected,
}

/// A worker: the size of its partition, the batch size of the run, and how
/// far it has got.
#[derive(Clone, Debug, PartialEq, Eq)]
pub struct Worker {
    pub partition_len: usize,
    pub chunk_size: usize,
    pub state: WorkerState,
}

impl Worker {
    /// The number of batches in this worker's partition.
    pub open spec fn batches(self) -> nat {
        batch_count(self.partition_len as nat, self.chunk_size as nat)
    }

    /// How many records the batches before batch `batch` hold.
    pub open spec fn written_before(self, batch: nat) -> nat {
        batch_edge(self.partition_len as nat, self.chunk_size as nat, (batch - 1) as nat)
    }

    /// The state fits the partition: a batch under way exists, a completed
    /// worker has written its whole partition, and a failed one exactly the
    /// batches before the one that failed.
    pub open spec fn wf(self) -> bool {
        &&& self.chunk_size > 0
        &&& match self.state {
            WorkerState::Created => true,
            WorkerState::Connecting => true,
            WorkerState::Loading { batch } => 1 <= batch <= self.batches(),
            WorkerState::Completed { count } => count == self.partition_len,
            WorkerState::Failed { at_batch, written, cause } => {
                &&& at_batch <= self.batches()
                &&& (at_batch == 0 <==> !(cause is WriteError))
                &&& at_batch == 0 ==> written == 0
                &&& at_batch > 0 ==> written == self.written_before(at_batch as nat)
            },
        }
    }

    /// Whether the worker has ended.
    pub open spec fn is_terminal(self) -> bool {
        self.state is Completed || self.state is Failed
    }

    /// The request to write batch `batch`.
    pub open spec fn write_of(self, batch: nat) -> WorkerAction {
        WorkerAction::Write {
            batch: batch as usize,
            start: self.written_before(batch) as usize,
            end: batch_edge(self.partition_len as nat, self.chunk_size as nat, batch) as usize,
        }
    }

    /// The state that `event` leads to.
    pub open spec fn state_after(self, event: WorkerEvent) -> WorkerState {
        match (self.state, event) {
            (WorkerState::Created, WorkerEvent::Started) => WorkerState::Connecting,
            (WorkerState::Connecting, WorkerEvent::Connected) => if self.batches() == 0 {
                WorkerState::Completed { count: 0 }
            } else {
                WorkerState::Loading { batch: 1 }
            },
            (WorkerState::Connecting, WorkerEvent::ConnectionFailed(message)) => {
                WorkerState::Failed {
                    at_batch: 0,
                    written: 0,
                    cause: WorkerError::ConnectionError(message),
                }
            },
            (WorkerState::Connecting, WorkerEvent::NamespaceFailed(message)) => {
                WorkerState::Failed {
                    at_batch: 0,
                    written: 0,
                    cause: WorkerError::NamespaceError(message),
                }
            },
            (WorkerState::Loading { batch }, WorkerEvent::WriteSucceeded) => if batch
                == self.batches() {
                WorkerState::Completed { count: self.partition_len }
            } else {
                WorkerState::Loading { batch: (batch + 1) as usize }
            },
            (WorkerState::Loading { batch }, WorkerEvent::WriteFailed(message)) => {
                WorkerState::Failed {
                    at_batch: batch,
                    written: self.written_before(batch as nat) as usize,
                    cause: WorkerError::WriteError(message),
                }
            },
            _ => self.state,
        }
    }

    /// The worker that `event` leads to.
    pub open spec fn after(self, event: WorkerEvent) -> Worker {
        Worker {
            partition_len: self.partition_len,
            chunk_size: self.chunk_size,
            state: self.state_after(event),
        }
    }

    /// Whether `event` is one that the worker is waiting for.
    pub open spec fn accepts(self, event: WorkerEvent) -> bool {
        match (self.state, event) {
            (WorkerState::Created, WorkerEvent::Started) => true,
            (WorkerState::Connecting, WorkerEvent::Connected) => true,
            (WorkerState::Connecting, WorkerEvent::ConnectionFailed(_)) => true,
            (WorkerState::Connecting, WorkerEvent::NamespaceFailed(_)) => true,
            (WorkerState::Loading { .. }, WorkerEvent::WriteSucceeded) => true,
            (WorkerState::Loading { .. }, WorkerEvent::WriteFailed(_)) => true,
            _ => false,
        }
    }

    /// What the worker asks for in answer to `event`.
    pub open spec fn action_on(self, event: WorkerEvent) -> WorkerAction {
        if !self.accepts(event) {
            WorkerAction::Rejected
        } else {
            match self.state_after(event) {
                WorkerState::Created => WorkerAction::Rejected,
                WorkerState::Connecting => WorkerAction::Connect,
                WorkerState::Loading { batch } => self.write_of(batch as nat),
                WorkerState::Completed { .. } => WorkerAction::Stop,
                WorkerState::Failed { .. } => WorkerAction::Stop,
            }
        }
    }

    /// A worker for a partition of `partition_len` records, not yet started.
    /// Batches of no records are refused.
    pub fn new(partition_len: usize, chunk_size: usize) -> (worker: Result<
        Worker,
        ConfigurationError,
    >)
        ensures
            chunk_size == 0 ==> worker == Err::<Worker, ConfigurationError>(
                ConfigurationError::ZeroChunkSize,
            ),
            chunk_size > 0 ==> worker == Ok::<Worker, ConfigurationError>(
                (Worker { partition_len, chunk_size, state: WorkerState::Created }),
            ),
            worker is Ok ==> worker->Ok_0.wf(),
    {
        if chunk_size == 0 {
            Err(ConfigurationError::ZeroChunkSize)
        } else {
            Ok(Worker { partition_len, chunk_size, state: WorkerState::Created })
        }
    }

    /// The request to write batch `batch` (counted from 1).
    fn write_request(&self, batch: usize) -> (action: WorkerAction)
        requires
            self.chunk_size > 0,
            1 <= batch <= self.batches(),
        ensures
            action == self.write_of(batch as nat),
    {
        let (start, end) = batch_bounds(self.partition_len, self.chunk_size, batch);
        WorkerAction::Write { batch, start, end }
    }

    /// Takes in what happened and says what to do next. An event that the
    /// worker is not waiting for changes nothing and is answered with
    /// `Rejected`; so is every event once the worker has ended.
    pub fn step(&mut self, event: WorkerEvent) -> (action: WorkerAction)
        requires
            old(self).wf(),
        ensures
            final(self).wf(),
            *final(self) == old(self).after(event),
            action == old(self).action_on(event),
    {
        let count = count_batches(self.partition_len, self.chunk_size);
        match event {
            WorkerEvent::Started => match self.state {
                WorkerState::Created => {
                    self.state = WorkerState::Connecting;
                    WorkerAction::Connect
                },
                _ => WorkerAction::Rejected,
            },
            WorkerEvent::Connected => match self.state {
                WorkerState::Connecting => {
                    if count == 0 {
                        proof {
                            lemma_no_batches(self.partition_len as nat, self.chunk_size as nat);
                        }
                        self.state = WorkerState::Completed { count: 0 };
                        WorkerAction::Stop
                    } else {
                        self.state = WorkerState::Loading { batch: 1 };
                        self.write_request(1)
                    }
                },
                _ => WorkerAction::Rejected,
            },
            WorkerEvent::ConnectionFailed(message) => match self.state {
                WorkerState::Connecting => {
                    self.state = WorkerState::Failed {
                        at_batch: 0,
                        written: 0,
                        cause: WorkerError::ConnectionError(message),
                    };
                    WorkerAction::Stop
                },
                _ => WorkerAction::Rejected,
            },
            WorkerEvent::NamespaceFailed(message) => match self.state {
                WorkerState::Connecting => {
                    self.state = WorkerState::Failed {
                        at_batch: 0,
                        written: 0,
                        cause: WorkerError::NamespaceError(message),
                    };
                    WorkerAction::Stop
                },
                _ => WorkerAction::Rejected,
            },
            WorkerEvent::WriteSucceeded => match self.state {
                WorkerState::Loading { batch } => {
                    if batch == count {
                        self.state = WorkerState::Completed { count: self.partition_len };
                        WorkerAction::Stop
                    } else {
                        self.state = WorkerState::Loading { batch: batch + 1 };
                        self.write_request(batch + 1)
                    }
                },
                _ => WorkerAction::Rejected,
            },
            WorkerEvent::WriteFailed(message) => match self.state {
                WorkerState::Loading { batch } => {
                    let (written, _) = batch_bounds(self.partition_len, self.chunk_size, batch);
                    self.state = WorkerState::Failed {
                        at_batch: batch,
                        written,
                        cause: WorkerError::WriteError(message),
                    };
                    WorkerAction::Stop
                },
                _ => WorkerAction::Rejected,
            },
        }
    }

    /// Whether the worker has ended, well or badly.
    pub fn finished(&self) -> (done: bool)
        ensures
            done == self.is_terminal(),
    {
        match self.state {
            WorkerState::Completed { .. } => true,
            WorkerState::Failed { .. } => true,
            _ => false,
        }
    }

    /// The outcome of a worker that has ended; `None` while it has not.
    pub fn result(&self) -> (outcome: Option<WorkerResult>)
        ensures
            outcome == self.spec_result(),
    {
        match &self.state {
            WorkerState::Completed { count } => Some(WorkerResult::Completed { count: *count }),
            WorkerState::Failed { at_batch, written, cause } => Some(
                WorkerResult::Failed {
                    at_batch: *at_batch,
                    written: *written,
                    cause: copy_error(cause),
                },
            ),
            _ => None,
        }
    }

    /// The outcome that `result` hands out.
    pub open spec fn spec_result(self) -> Option<WorkerResult> {
        match self.state {
            WorkerState::Completed { count } => Some(WorkerResult::Completed { count }),
            WorkerState::Failed { at_batch, written, cause } => Some(
                WorkerResult::Failed { at_batch, written, cause },
            ),
            _ => None,
        }
    }
}

/// A copy of an error, message and all.
pub fn copy_error(cause: &WorkerError) -> (copy: WorkerError)
    ensures
        copy == *cause,
{
    match cause {
        WorkerError::ConnectionError(message) => WorkerError::ConnectionError(message.clone()),
        WorkerError::NamespaceError(message) => WorkerError::NamespaceError(message.clone()),
        WorkerError::WriteError(message) => WorkerError::WriteError(message.clone()),
    }
}

/// Only an empty partition has no batch.
pub proof fn lemma_no_batches(len: nat, chunk_size: nat)
    requires
        chunk_size > 0,
    ensures
        batch_count(len, chunk_size) == 0 <==> len == 0,
{
    crate::batch::lemma_full_batches(len, chunk_size);
    let q = len / chunk_size;
    if q == 0 {
        assert(q * chunk_size == 0) by (nonlinear_arith)
            requires
                q == 0,
        ;
    }
}

} // verus!
