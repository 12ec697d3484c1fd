//! Run-level configuration: how many workers share the dataset and how many
//! records go into one batch.

use vstd::prelude::*;

verus! {

/// The number of workers where none is asked for.
pub const DEFAULT_WORKERS: usize = 8;

/// The batch size where none is asked for.
pub const DEFAULT_BATCH_SIZE: usize = 1000;

/// A configuration that no run can start with.
#[derive(Clone, Copy, Debug, PartialEq, Eq, Structural)]
pub enum ConfigurationError {
    /// No worker at all was asked for.
    InvalidWorkerCount,
    /// Batches of no records were asked for.
    ZeroChunkSize,
}

/// What every worker of one run shares.
#[derive(Clone, Copy, Debug, PartialEq, Eq, Structural)]
pub struct RunConfig {
    pub workers: usize,
    pub chunk_size: usize,
}

impl RunConfig {
    /// A run needs at least one worker and batches of at least one record.
    pub open spec fn wf(&self) -> bool {
        self.workers >= 1 && self.chunk_size >= 1
    }

    /// Accepts a worker count and a batch size, or says which of them rules
    /// the run out; the worker count is looked at first.
    pub fn new(workers: usize, chunk_size: usize) -> (config: Result<
        RunConfig,
        ConfigurationError,
    >)
        ensures
            workers == 0 ==> config == Err::<RunConfig, ConfigurationError>(
                ConfigurationError::InvalidWorkerCount,
            ),
            workers > 0 && chunk_size == 0 ==> config == Err::<RunConfig, ConfigurationError>(
                ConfigurationError::ZeroChunkSize,
            ),
            workers > 0 && chunk_size > 0 ==> config == Ok::<RunConfig, ConfigurationError>(
                (RunConfig { workers, chunk_size }),
            ),
            config is Ok ==> config->Ok_0.wf(),
    {
        if workers == 0 {
            Err(ConfigurationError::InvalidWorkerCount)
        } else if chunk_size == 0 {
            Err(ConfigurationError::ZeroChunkSize)
        } else {
            Ok(RunConfig { workers, chunk_size })
        }
    }
}

impl Default for RunConfig {
    fn default() -> (config: RunConfig)
        ensures
            config == (RunConfig { workers: DEFAULT_WORKERS, chunk_size: DEFAULT_BATCH_SIZE }),
            config.wf(),
    {
        RunConfig { workers: DEFAULT_WORKERS, chunk_size: DEFAULT_BATCH_SIZE }
    }
}

} // verus!
