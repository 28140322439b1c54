//! The counters the admin dashboard reports: job-queue depth, games by
//! status, and created/finished counts over trailing time windows.

use vstd::prelude::*;

verus! {

/// Depth of the job queue, split by state.
pub struct JobQueueMetrics {
    /// Unlocked jobs whose run time has arrived.
    pub ready: i64,
    /// Jobs currently locked by a worker.
    pub running: i64,
    /// Unlocked jobs scheduled for later.
    pub scheduled: i64,
    pub total: i64,
}

impl JobQueueMetrics {
    /// Every job is ready, running or scheduled.
    pub open spec fn wf(self) -> bool {
        self.total == self.ready + self.running + self.scheduled
    }

    /// Assemble queue metrics; the total is derived, never handed in.
    pub fn new(ready: i64, running: i64, scheduled: i64) -> (m: JobQueueMetrics)
        requires
            0 <= ready,
            0 <= running,
            0 <= scheduled,
            ready + running + scheduled <= i64::MAX,
        ensures
            m.ready == ready,
            m.running == running,
            m.scheduled == scheduled,
            m.wf(),
    {
        JobQueueMetrics { ready, running, scheduled, total: ready + running + scheduled }
    }
}

/// How many jobs of one payload name sit in the queue.
pub struct JobNameCount {
    pub name: String,
    pub count: i64,
}

/// Games by lifecycle status.
pub struct GameCountMetrics {
    pub waiting: i64,
    pub running: i64,
    pub finished: i64,
    pub total: i64,
}

impl GameCountMetrics {
    /// Every game is waiting, running or finished.
    pub open spec fn wf(self) -> bool {
        self.total == self.waiting + self.running + self.finished
    }

    /// Assemble game counts; the total is derived, never handed in.
    pub fn new(waiting: i64, running: i64, finished: i64) -> (m: GameCountMetrics)
        requires
            0 <= waiting,
            0 <= running,
            0 <= finished,
            waiting + running + finished <= i64::MAX,
        ensures
            m.waiting == waiting,
            m.running == running,
            m.finished == finished,
            m.wf(),
    {
        GameCountMetrics { waiting, running, finished, total: waiting + running + finished }
    }
}

/// One event count over three trailing windows. The windows nest, so a
/// consistent reading never shrinks as the window grows.
pub struct TimeWindowMetrics {
    pub last_hour: i64,
    pub last_24h: i64,
    pub last_7d: i64,
}

impl TimeWindowMetrics {
    /// The hour lies within the day, the day within the week.
    pub open spec fn wf(self) -> bool {
        0 <= self.last_hour <= self.last_24h <= self.last_7d
    }

    /// Whether a reading is consistent with nested windows.
    pub fn is_consistent(&self) -> (r: bool)
        ensures
            r == self.wf(),
    {
        0 <= self.last_hour && self.last_hour <= self.last_24h && self.last_24h <= self.last_7d
    }
}

} // verus!
