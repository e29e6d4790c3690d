use vstd::prelude::*;

verus! {

/// Where a worker stands in its life: it starts `Initializing`, becomes
/// `Ready` once registered, is `Working` while it runs its share, and ends
/// `Completed` or, on a structural failure, in `Error` with the reason.
#[derive(Debug)]
pub enum WorkerStatus {
    Initializing,
    Ready,
    Working,
    Paused,
    Completed,
    Error(String),
}

/// The mathematical value of a [`WorkerStatus`].
pub enum WorkerStatusView {
    Initializing,
    Ready,
    Working,
    Paused,
    Completed,
    Error(Seq<char>),
}

impl View for WorkerStatus {
    type V = WorkerStatusView;

    open spec fn view(&self) -> WorkerStatusView {
        match *self {
            WorkerStatus::Initializing => WorkerStatusView::Initializing,
            WorkerStatus::Ready => WorkerStatusView::Ready,
            WorkerStatus::Working => WorkerStatusView::Working,
            WorkerStatus::Paused => WorkerStatusView::Paused,
            WorkerStatus::Completed => WorkerStatusView::Completed,
            WorkerStatus::Error(reason) => WorkerStatusView::Error(reason@),
        }
    }
}

impl Clone for WorkerStatus {
    fn clone(&self) -> (copy: WorkerStatus)
        ensures
            copy@ == self@,
    {
        match self {
            WorkerStatus::Initializing => WorkerStatus::Initializing,
            WorkerStatus::Ready => WorkerStatus::Ready,
            WorkerStatus::Working => WorkerStatus::Working,
            WorkerStatus::Paused => WorkerStatus::Paused,
            WorkerStatus::Completed => WorkerStatus::Completed,
            WorkerStatus::Error(reason) => WorkerStatus::Error(reason.clone()),
        }
    }
}

impl WorkerStatus {
    /// Whether the worker has finished its share.
    pub fn is_completed(&self) -> (done: bool)
        ensures
            done == (self@ == WorkerStatusView::Completed),
    {
        match self {
            WorkerStatus::Completed => true,
            _ => false,
        }
    }
}

/// One progress snapshot of a worker. The three counters are plain counts.
/// The two rates are fixed-point numbers: the average response time is kept
/// in microseconds and the request rate in thousandths of a request per
/// second, so that every operation on a snapshot is exact.
#[derive(Clone, Copy, Debug, PartialEq, Eq, Structural)]
pub struct WorkerProgress {
    pub requests_sent: u64,
    pub requests_success: u64,
    pub requests_error: u64,
    pub avg_response_time_us: u64,
    pub current_rps_milli: u64,
}

impl WorkerProgress {
    /// The snapshot of a worker that has not done anything yet.
    pub open spec fn zero_spec() -> WorkerProgress {
        WorkerProgress {
            requests_sent: 0,
            requests_success: 0,
            requests_error: 0,
            avg_response_time_us: 0,
            current_rps_milli: 0,
        }
    }

    /// Whether every request that was sent is accounted for as a success
    /// or as an error.
    pub open spec fn balanced(self) -> bool {
        self.requests_sent == self.requests_success + self.requests_error
    }

    /// The snapshot with every field zero.
    pub fn zero() -> (p: WorkerProgress)
        ensures
            p == WorkerProgress::zero_spec(),
            p.balanced(),
    {
        WorkerProgress {
            requests_sent: 0,
            requests_success: 0,
            requests_error: 0,
            avg_response_time_us: 0,
            current_rps_milli: 0,
        }
    }

    /// Tests whether sent equals success plus error.
    pub fn is_balanced(&self) -> (b: bool)
        ensures
            b == self.balanced(),
    {
        match self.requests_success.checked_add(self.requests_error) {
            Some(total) => total == self.requests_sent,
            None => false,
        }
    }
}

/// What the coordinator keeps about one worker.
#[derive(Debug)]
pub struct WorkerState {
    pub id: String,
    pub status: WorkerStatus,
    pub progress: WorkerProgress,
    /// When the coordinator last heard from the worker, in nanoseconds of
    /// the coordinator's monotonic clock.
    pub last_seen: u64,
}

/// The mathematical value of a [`WorkerState`].
pub struct WorkerStateView {
    pub id: Seq<char>,
    pub status: WorkerStatusView,
    pub progress: WorkerProgress,
    pub last_seen: u64,
}

impl View for WorkerState {
    type V = WorkerStateView;

    open spec fn view(&self) -> WorkerStateView {
        WorkerStateView {
            id: self.id@,
            status: self.status@,
            progress: self.progress,
            last_seen: self.last_seen,
        }
    }
}

impl Clone for WorkerState {
    fn clone(&self) -> (copy: WorkerState)
        ensures
            copy@ == self@,
    {
        WorkerState {
            id: self.id.clone(),
            status: self.status.clone(),
            progress: self.progress,
            last_seen: self.last_seen,
        }
    }
}

impl WorkerState {
    /// The record of a worker that has just been admitted at time `now`:
    /// it is initializing and has no progress yet.
    pub open spec fn fresh_spec(id: Seq<char>, now: u64) -> WorkerStateView {
        WorkerStateView {
            id,
            status: WorkerStatusView::Initializing,
            progress: WorkerProgress::zero_spec(),
            last_seen: now,
        }
    }

    /// Builds the record of a worker admitted at time `now`.
    pub fn fresh(id: String, now: u64) -> (state: WorkerState)
        ensures
            state@ == WorkerState::fresh_spec(id@, now),
    {
        WorkerState {
            id,
            status: WorkerStatus::Initializing,
            progress: WorkerProgress::zero(),
            last_seen: now,
        }
    }
}

} // verus!
