//! The control protocol of the fixed-size worker pool: the messages the
//! queue carries, what a worker does with each message, and the pool's
//! submission and shutdown decisions.
//!
//! The pool's threads, its channel, and the jobs themselves live outside
//! this crate. Here, a job is an opaque value of type `J`; the functions
//! decide which message to enqueue for it, what a worker does with a
//! received message, and which messages shutdown must deliver so that
//! every worker terminates. The caller performs the sends, the receives
//! and the joins in exactly the order these contracts lay down.

use vstd::prelude::*;

verus! {

/// One message on the work queue: either a job to run, or the order to
/// terminate the receiving worker.
pub enum TaskMessage<J> {
    NewTask(J),
    Exit,
}

/// What a worker does with one received message: run the job, or stop
/// its loop and let its thread end.
pub enum WorkerAction<J> {
    Run(J),
    Stop,
}

/// Failures of the pool: a pool of zero workers, and a submission after
/// the queue's receiving side is gone or shutdown has begun.
#[derive(PartialEq, Eq, Structural, Clone, Copy, Debug)]
pub enum PoolError {
    InvalidConfiguration,
    ChannelClosed,
}

/// The action `worker_step` decides for a message.
pub open spec fn spec_worker_action<J>(msg: TaskMessage<J>) -> WorkerAction<J> {
    match msg {
        TaskMessage::NewTask(job) => WorkerAction::Run(job),
        TaskMessage::Exit => WorkerAction::Stop,
    }
}

/// Decide what a worker does with one message: exactly one message is
/// consumed per iteration, a `NewTask` is run on the receiving worker,
/// and an `Exit` ends its loop.
pub fn worker_step<J>(msg: TaskMessage<J>) -> (r: WorkerAction<J>)
    ensures
        r == spec_worker_action(msg),
{
    match msg {
        TaskMessage::NewTask(job) => WorkerAction::Run(job),
        TaskMessage::Exit => WorkerAction::Stop,
    }
}

/// The submission-side state of the pool: how many workers were created
/// (fixed for the pool's lifetime) and whether the pool still accepts
/// new jobs.
pub struct ThreadPool {
    pub worker_count: usize,
    pub accepting: bool,
}

impl ThreadPool {
    /// Create the state of a pool of `thread_count` workers. A pool of
    /// zero workers is refused as an invalid configuration; otherwise
    /// the pool starts out accepting jobs.
    pub fn new(thread_count: usize) -> (r: Result<ThreadPool, PoolError>)
        ensures
            thread_count == 0 ==> r == Err::<ThreadPool, PoolError>(
                PoolError::InvalidConfiguration,
            ),
            thread_count > 0 ==> (r matches Ok(p) && p.worker_count == thread_count
                && p.accepting),
    {
        if thread_count == 0 {
            Err(PoolError::InvalidConfiguration)
        } else {
            Ok(ThreadPool { worker_count: thread_count, accepting: true })
        }
    }

    /// Decide what submitting `job` does: while the pool accepts jobs,
    /// the job is wrapped as the `NewTask` message to enqueue; once
    /// shutdown has begun, the submission is refused with
    /// `ChannelClosed` and no message is produced, so no job is ever
    /// dropped without that signal.
    pub fn execute<J>(&self, job: J) -> (r: Result<TaskMessage<J>, PoolError>)
        ensures
            self.accepting ==> (r matches Ok(m) && m == TaskMessage::NewTask(job)),
            !self.accepting ==> r == Err::<TaskMessage<J>, PoolError>(PoolError::ChannelClosed),
    {
        if self.accepting {
            Ok(TaskMessage::NewTask(job))
        } else {
            Err(PoolError::ChannelClosed)
        }
    }

    /// Begin shutdown: the pool stops accepting jobs, and the messages
    /// returned — exactly one `Exit` per worker — are what the caller
    /// must enqueue, all of them, before joining any worker thread.
    /// Workers drain the queue in order, so jobs enqueued before these
    /// messages still run before the workers stop.
    pub fn shutdown<J>(&mut self) -> (msgs: Vec<TaskMessage<J>>)
        ensures
            !final(self).accepting,
            final(self).worker_count == old(self).worker_count,
            msgs@.len() == old(self).worker_count,
            forall|i: int| 0 <= i < msgs@.len() ==> msgs@[i] is Exit,
    {
        self.accepting = false;
        let mut msgs: Vec<TaskMessage<J>> = Vec::new();
        let mut k: usize = 0;
        while k < self.worker_count
            invariant
                0 <= k <= self.worker_count,
                msgs@.len() == k,
                forall|i: int| 0 <= i < msgs@.len() ==> msgs@[i] is Exit,
            decreases self.worker_count - k,
        {
            msgs.push(TaskMessage::Exit);
            k = k + 1;
        }
        msgs
    }
}

/// Law: shutdown lets every worker terminate. Each worker consumes
/// exactly one of the delivered messages; every message the shutdown
/// plan delivers is `Exit`, and the step a worker takes on `Exit` is
/// `Stop`, which ends its loop — so no worker stays blocked on the
/// queue and joining the threads completes.
pub proof fn lemma_shutdown_stops_every_worker<J>(msgs: Seq<TaskMessage<J>>)
    requires
        forall|i: int| 0 <= i < msgs.len() ==> msgs[i] is Exit,
    ensures
        forall|i: int| 0 <= i < msgs.len() ==> spec_worker_action(msgs[i]) is Stop,
{
}

} // verus!
