//! Task bookkeeping for the background worker runtime.
//!
//! The runtime's thread pool and queues live outside the verified
//! library; here are the decisions they run on: the worker
//! configuration, the per-task cancellation flag, and the rule deciding
//! whether a task may be enqueued.

use vstd::prelude::*;

verus! {

/// Configuration of the worker runtime.
#[derive(Clone, Copy, Debug, PartialEq, Eq, Structural)]
pub struct WorkerConfig {
    /// Number of worker threads.
    pub threads: usize,
    /// Most tasks waiting in the queue.
    pub queue_capacity: usize,
}

impl Default for WorkerConfig {
    /// One thread, a queue of 1024.
    fn default() -> (r: WorkerConfig)
        ensures
            r.threads == 1,
            r.queue_capacity == 1024,
    {
        WorkerConfig { threads: 1, queue_capacity: 1024 }
    }
}

/// Per-task context: the cancellation flag a task polls.
#[derive(Clone, Copy, Debug, PartialEq, Eq, Structural)]
pub struct TaskContext {
    /// The task has been asked to stop.
    pub cancelled: bool,
}

impl TaskContext {
    /// A fresh, uncancelled context.
    pub fn new() -> (r: TaskContext)
        ensures
            !r.cancelled,
    {
        TaskContext { cancelled: false }
    }

    /// Whether the task has been asked to stop.
    pub fn is_cancelled(&self) -> (r: bool)
        ensures
            r == self.cancelled,
    {
        self.cancelled
    }

    /// Ask the task to stop; the flag never goes back.
    pub fn cancel(&mut self)
        ensures
            final (self).cancelled,
    {
        self.cancelled = true;
    }
}

/// Why a task could not be enqueued.
#[derive(Debug, Clone, Copy, PartialEq, Eq, Structural)]
pub enum EnqueueError {
    /// The queue has been closed.
    Closed,
    /// The queue is full.
    QueueFull,
    /// The task demands the main thread, which this runtime cannot
    /// serve.
    MainAffinityUnsupported,
}

/// Decide whether a task may be enqueued: main-thread-only tasks are
/// refused, then a closed queue, then a full one.
pub fn check_enqueue(main_only: bool, closed: bool, queue_len: usize, capacity: usize) -> (r:
    Result<(), EnqueueError>)
    ensures
        main_only ==> r == Result::<(), EnqueueError>::Err(EnqueueError::MainAffinityUnsupported),
        !main_only && closed ==> r == Result::<(), EnqueueError>::Err(EnqueueError::Closed),
        !main_only && !closed && queue_len >= capacity ==> r == Result::<
            (),
            EnqueueError,
        >::Err(EnqueueError::QueueFull),
        !main_only && !closed && queue_len < capacity ==> r is Ok,
{
    if main_only {
        Err(EnqueueError::MainAffinityUnsupported)
    } else if closed {
        Err(EnqueueError::Closed)
    } else if queue_len >= capacity {
        Err(EnqueueError::QueueFull)
    } else {
        Ok(())
    }
}

} // verus!
