//! Configuration for word tallying processing strategies.
use vstd::prelude::*;

use crate::error::WordTallyError;
use crate::options::performance::Performance;
use crate::options::threads::{pool_failure_message, Threads};

verus! {

/// Determines the processing strategy.
#[derive(Clone, Copy, Debug, PartialEq, Eq, Hash)]
pub enum Processing {
    /// Process input sequentially (single-threaded).
    Sequential,
    /// Process input in parallel (multi-threaded).
    Parallel,
}

impl Default for Processing {
    fn default() -> (p: Self)
        ensures
            p == Processing::Parallel,
    {
        Processing::Parallel
    }
}

impl Processing {
    /// The name of the strategy.
    pub fn to_string(&self) -> (name: String)
        ensures
            name@ == (match *self {
                Processing::Sequential => "sequential"@,
                Processing::Parallel => "parallel"@,
            }),
    {
        match self {
            Processing::Sequential => "sequential".to_owned(),
            Processing::Parallel => "parallel".to_owned(),
        }
    }

    /// `Parallel` when `parallel` holds, else `Sequential`.
    pub fn from_parallel(parallel: bool) -> (p: Self)
        ensures
            p == (if parallel {
                Processing::Parallel
            } else {
                Processing::Sequential
            }),
    {
        if parallel {
            Processing::Parallel
        } else {
            Processing::Sequential
        }
    }

    /// Initialize resources needed for this processing mode: the thread pool for parallel
    /// processing, nothing for sequential processing.
    pub fn initialize(&self, performance: &Performance) -> (result: Result<(), WordTallyError>)
        ensures
            (*self is Sequential || performance.threads is All) ==> result is Ok,
            *self is Parallel ==> (performance.threads matches Threads::Count(n) ==> (result is Ok
                || (result matches Err(WordTallyError::Config(message)) && message@ == pool_failure_message(n)))),
            *self is Parallel ==> performance.threads.sets_up_pool(result),
    {
        match self {
            Processing::Parallel => performance.threads().init_pool(),
            Processing::Sequential => Ok(()),
        }
    }
}

} // verus!
