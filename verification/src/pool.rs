//! The life of a worker pool, and what a worker does with what it received.
//!
//! A pool is made with one worker or more and runs until it is closed. A
//! closed pool takes no more jobs; its workers finish what is queued and
//! then leave one by one, and the pool has stopped when the last has left.
//! The threads and the queue are the caller's: this module holds the
//! bookkeeping and the decisions.

use vstd::prelude::*;

verus! {

/// Where a pool stands in its life.
#[derive(Clone, Copy, Debug, PartialEq, Eq, Structural)]
pub enum PoolState {
    /// The queue is open and every worker is alive.
    Running,
    /// The queue is closed and some workers have still to leave.
    ShuttingDown,
    /// The queue is closed and every worker has left.
    Stopped,
}

/// What a worker got when it waited for a job.
#[derive(Clone, Copy, Debug, PartialEq, Eq, Structural)]
pub enum Received {
    /// A job.
    Job,
    /// Word that the queue is closed and empty.
    Disconnected,
}

/// What a worker does next.
#[derive(Clone, Copy, Debug, PartialEq, Eq, Structural)]
pub enum WorkerAction {
    /// Run the job, then wait for the next.
    Run,
    /// Leave.
    Exit,
}

/// What a worker does with what it received: it runs every job it gets and
/// leaves only when the queue is closed and empty.
pub fn worker_action(received: Received) -> (action: WorkerAction)
    ensures
        action == match received {
            Received::Job => WorkerAction::Run,
            Received::Disconnected => WorkerAction::Exit,
        },
{
    match received {
        Received::Job => WorkerAction::Run,
        Received::Disconnected => WorkerAction::Exit,
    }
}

/// The bookkeeping of a pool.
#[derive(Clone, Copy, Debug, PartialEq, Eq, Structural)]
pub struct PoolStatus {
    /// The number of workers that the pool was made with.
    pub size: usize,
    /// The number of workers that have not left.
    pub live: usize,
    /// Whether the queue takes jobs.
    pub open: bool,
}

impl PoolStatus {
    /// Whether the numbers fit together: a pool has a worker at least, no
    /// more are alive than it was made with, and none leaves an open pool.
    pub open spec fn wf(&self) -> bool {
        &&& self.size >= 1
        &&& self.live <= self.size
        &&& self.open ==> self.live == self.size
    }

    /// Where the pool stands.
    pub open spec fn state(&self) -> PoolState {
        if self.open {
            PoolState::Running
        } else if self.live > 0 {
            PoolState::ShuttingDown
        } else {
            PoolState::Stopped
        }
    }

    /// The bookkeeping of a new pool of `size` workers, all alive and the
    /// queue open; nothing for a pool without workers, which cannot be.
    pub fn new(size: usize) -> (status: Option<PoolStatus>)
        ensures
            size == 0 ==> status is None,
            size > 0 ==> status == Some(PoolStatus { size, live: size, open: true }),
            status is Some ==> status->0.wf() && status->0.state() == PoolState::Running,
    {
        if size == 0 {
            None
        } else {
            Some(PoolStatus { size, live: size, open: true })
        }
    }

    /// Where the pool stands.
    pub fn current(&self) -> (state: PoolState)
        ensures
            state == self.state(),
    {
        if self.open {
            PoolState::Running
        } else if self.live > 0 {
            PoolState::ShuttingDown
        } else {
            PoolState::Stopped
        }
    }

    /// Whether the pool takes a job.
    pub fn accepts_jobs(&self) -> (accepts: bool)
        ensures
            accepts == (self.state() == PoolState::Running),
    {
        self.open
    }

    /// Closes the queue. A running pool shuts down from here on; a pool
    /// that was closed before stays as it is.
    pub fn close(&mut self)
        requires
            old(self).wf(),
        ensures
            final(self).wf(),
            !final(self).open,
            final(self).size == old(self).size,
            final(self).live == old(self).live,
            old(self).state() == PoolState::Running ==> final(self).state()
                == PoolState::ShuttingDown,
            old(self).state() != PoolState::Running ==> final(self).state() == old(self).state(),
    {
        self.open = false;
    }

    /// Notes that a worker has left, and says whether one could: workers
    /// leave a pool only while it shuts down. The pool has stopped when the
    /// last has left.
    pub fn worker_left(&mut self) -> (left: bool)
        requires
            old(self).wf(),
        ensures
            final(self).wf(),
            left == (old(self).state() == PoolState::ShuttingDown),
            left ==> final(self).live == old(self).live - 1,
            !left ==> *final(self) == *old(self),
            final(self).size == old(self).size,
            final(self).open == old(self).open,
            left && old(self).live == 1 ==> final(self).state() == PoolState::Stopped,
            left && old(self).live > 1 ==> final(self).state() == PoolState::ShuttingDown,
    {
        if !self.open && self.live > 0 {
            self.live = self.live - 1;
            true
        } else {
            false
        }
    }
}

/// A pool does not stop before each of its workers has left: from the
/// closing on, it takes exactly as many departures as it has workers to
/// get from shutting down to stopped.
pub proof fn law_stopped_after_all_left(status: PoolStatus, departures: nat)
    requires
        status.wf(),
        !status.open,
        departures <= status.live,
    ensures
        (PoolStatus {
            size: status.size,
            live: (status.live - departures) as usize,
            open: false,
        }).state() == PoolState::Stopped <==> departures == status.live,
{
}

} // verus!
