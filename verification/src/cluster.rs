use vstd::prelude::*;
use crate::command::{copy_text, copy_texts, text_view, texts_view, AttackCommand, AttackCommandView};
use crate::dispatch::{share, share_spec, ClusterDistributionMode};
use crate::ident::{fresh_id, ID_LENGTH};
use crate::metrics::clamp;
use crate::roster::{
    aggregate, distinct_ids, has_id, index_of, lemma_live_members, lemma_total_bound, live,
    record_of, stale, stale_ids, total, upsert, Measure, LIVENESS_TIMEOUT_NANOS,
};
use crate::worker::{WorkerProgress, WorkerState, WorkerStateView, WorkerStatus};

verus! {

/// What is fixed when a coordinator starts.
#[derive(Debug)]
pub struct ClusterConfig {
    pub leader_id: String,
    pub workers: Vec<String>,
    /// How many workers are expected. Completion is judged against this
    /// number; registrations are not limited by it.
    pub total_workers: usize,
    pub worker_id: Option<String>,
    pub coordinator_addr: String,
    pub distribution_mode: ClusterDistributionMode,
}

/// The mathematical value of a [`ClusterConfig`].
pub struct ClusterConfigView {
    pub leader_id: Seq<char>,
    pub workers: Seq<Seq<char>>,
    pub total_workers: usize,
    pub worker_id: Option<Seq<char>>,
    pub coordinator_addr: Seq<char>,
    pub distribution_mode: ClusterDistributionMode,
}

impl View for ClusterConfig {
    type V = ClusterConfigView;

    open spec fn view(&self) -> ClusterConfigView {
        ClusterConfigView {
            leader_id: self.leader_id@,
            workers: texts_view(self.workers@),
            total_workers: self.total_workers,
            worker_id: text_view(self.worker_id),
            coordinator_addr: self.coordinator_addr@,
            distribution_mode: self.distribution_mode,
        }
    }
}

impl Clone for ClusterConfig {
    fn clone(&self) -> (copy: ClusterConfig)
        ensures
            copy@ == self@,
    {
        ClusterConfig {
            leader_id: self.leader_id.clone(),
            workers: copy_texts(&self.workers),
            total_workers: self.total_workers,
            worker_id: copy_text(&self.worker_id),
            coordinator_addr: self.coordinator_addr.clone(),
            distribution_mode: self.distribution_mode,
        }
    }
}

impl ClusterConfig {
    /// The configuration of a coordinator that is led by `leader_id` and
    /// knows no worker yet.
    pub open spec fn initial(
        leader_id: Seq<char>,
        total_workers: usize,
        coordinator_addr: Seq<char>,
        distribution_mode: ClusterDistributionMode,
    ) -> ClusterConfigView {
        ClusterConfigView {
            leader_id,
            workers: Seq::empty(),
            total_workers,
            worker_id: None,
            coordinator_addr,
            distribution_mode,
        }
    }

    /// Builds the configuration of a coordinator whose leader id is given.
    pub fn with_leader(
        leader_id: String,
        total_workers: usize,
        coordinator_addr: String,
        distribution_mode: ClusterDistributionMode,
    ) -> (config: ClusterConfig)
        ensures
            config@ == ClusterConfig::initial(
                leader_id@,
                total_workers,
                coordinator_addr@,
                distribution_mode,
            ),
    {
        let config = ClusterConfig {
            leader_id,
            workers: Vec::new(),
            total_workers,
            worker_id: None,
            coordinator_addr,
            distribution_mode,
        };
        assert(texts_view(config.workers@) =~= Seq::<Seq<char>>::empty());
        config
    }

    /// Builds the configuration of a coordinator that splits evenly, under
    /// a leader id drawn at random.
    pub fn new(total_workers: usize, coordinator_addr: String) -> (config: ClusterConfig)
        ensures
            config@ == ClusterConfig::initial(
                config@.leader_id,
                total_workers,
                coordinator_addr@,
                ClusterDistributionMode::Even,
            ),
            config@.leader_id.len() == ID_LENGTH,
    {
        ClusterConfig::with_leader(
            fresh_id(),
            total_workers,
            coordinator_addr,
            ClusterDistributionMode::Even,
        )
    }

    /// Builds the configuration of a coordinator that splits as
    /// `distribution_mode` says, under a leader id drawn at random.
    pub fn new_with_distribution_mode(
        total_workers: usize,
        coordinator_addr: String,
        distribution_mode: ClusterDistributionMode,
    ) -> (config: ClusterConfig)
        ensures
            config@ == ClusterConfig::initial(
                config@.leader_id,
                total_workers,
                coordinator_addr@,
                distribution_mode,
            ),
            config@.leader_id.len() == ID_LENGTH,
    {
        ClusterConfig::with_leader(fresh_id(), total_workers, coordinator_addr, distribution_mode)
    }
}

/// The values of a list of worker records.
pub open spec fn states_view(states: Seq<WorkerState>) -> Seq<WorkerStateView> {
    Seq::new(states.len(), |i: int| states[i]@)
}

/// The value of an optional command.
pub open spec fn command_view(command: Option<AttackCommand>) -> Option<AttackCommandView> {
    match command {
        Some(c) => Some(c@),
        None => None,
    }
}

/// What a polling worker is handed of the current command when `live`
/// workers are registered. A command that names no concurrency is handed
/// out as it is. One that names a concurrency is handed out with that
/// concurrency replaced by one worker's share of it; while no worker is
/// registered there is nobody to share with, and nothing is handed out.
/// Workers declare no capacity, so each weighs one among `live`.
pub open spec fn task_spec(
    command: AttackCommandView,
    mode: ClusterDistributionMode,
    live: int,
) -> Option<AttackCommandView> {
    match command.concurrent {
        Some(total) => if live > 0 {
            Some(
                AttackCommand::with_concurrent_spec(
                    command,
                    Some(share_spec(mode, total as int, live, 1, live) as u32),
                ),
            )
        } else {
            None
        },
        None => Some(command),
    }
}

/// The coordinator's memory: its configuration, one record for each
/// registered worker, and the command of the current run once one has been
/// submitted.
pub struct ClusterCoordinator {
    config: ClusterConfig,
    workers: Vec<WorkerState>,
    attack_command: Option<AttackCommand>,
}

impl ClusterCoordinator {
    /// The configuration the coordinator was started with.
    pub closed spec fn config(&self) -> ClusterConfigView {
        self.config@
    }

    /// The records of the registered workers, in the order in which their
    /// ids were first seen.
    pub closed spec fn roster(&self) -> Seq<WorkerStateView> {
        states_view(self.workers@)
    }

    /// The command of the current run.
    pub closed spec fn command(&self) -> Option<AttackCommandView> {
        command_view(self.attack_command)
    }

    /// No worker has two records.
    pub open spec fn wf(&self) -> bool {
        distinct_ids(self.roster())
    }

    /// Starts a coordinator that knows no worker and has no command.
    pub fn new(config: ClusterConfig) -> (coordinator: ClusterCoordinator)
        ensures
            coordinator.wf(),
            coordinator.config() == config@,
            coordinator.roster() == Seq::<WorkerStateView>::empty(),
            coordinator.command() == None::<AttackCommandView>,
    {
        let coordinator = ClusterCoordinator {
            config,
            workers: Vec::new(),
            attack_command: None,
        };
        assert(coordinator.roster() =~= Seq::<WorkerStateView>::empty());
        coordinator
    }

    /// The configuration.
    pub fn get_config(&self) -> (config: &ClusterConfig)
        ensures
            config@ == self.config(),
    {
        &self.config
    }

    /// How many workers are registered.
    pub fn worker_count(&self) -> (count: usize)
        ensures
            count == self.roster().len(),
    {
        self.workers.len()
    }

    /// Looks for the record of worker `id`.
    fn find(&self, id: &String) -> (place: Option<usize>)
        requires
            self.wf(),
        ensures
            match place {
                Some(i) => i < self.roster().len() && self.roster()[i as int].id == id@ && i
                    == index_of(self.roster(), id@) && has_id(self.roster(), id@),
                None => !has_id(self.roster(), id@),
            },
    {
        let mut i: usize = 0;
        while i < self.workers.len()
            invariant
                self.wf(),
                i <= self.workers@.len(),
                forall|k: int| 0 <= k < i ==> (#[trigger] self.roster()[k]).id != id@,
            decreases self.workers@.len() - i,
        {
            if self.workers[i].id == *id {
                proof {
                    let s = self.roster();
                    assert(s[i as int].id == id@);
                    let j = index_of(s, id@);
                    assert(0 <= j < s.len() && s[j].id == id@);
                    if j < i as int {
                        assert(s[j].id != s[i as int].id);
                    } else if j > i as int {
                        assert(s[i as int].id != s[j].id);
                    }
                }
                return Some(i);
            }
            i += 1;
        }
        None
    }

    /// Stores a record under its id.
    fn store(&mut self, state: WorkerState)
        requires
            old(self).wf(),
        ensures
            final(self).wf(),
            final(self).roster() == upsert(old(self).roster(), state@),
            final(self).config() == old(self).config(),
            final(self).command() == old(self).command(),
    {
        let ghost before = self.roster();
        match self.find(&state.id) {
            Some(i) => {
                self.workers.set(i, state);
                assert(self.roster() =~= before.update(i as int, state@));
            },
            None => {
                self.workers.push(state);
                assert(self.roster() =~= before.push(state@));
            },
        }
    }

    /// Registers worker `worker_id` at time `now`. A worker that was
    /// registered before starts afresh: its earlier record is overwritten.
    /// Registration is never refused.
    pub fn register_worker(&mut self, worker_id: String, now: u64) -> (accepted: bool)
        requires
            old(self).wf(),
        ensures
            accepted,
            final(self).wf(),
            final(self).roster() == upsert(
                old(self).roster(),
                WorkerState::fresh_spec(worker_id@, now),
            ),
            final(self).config() == old(self).config(),
            final(self).command() == old(self).command(),
    {
        self.store(WorkerState::fresh(worker_id, now));
        true
    }

    /// Admits a worker with the record that it sent, stamped with the time
    /// `now` at which it arrived, and answers with the worker's id. An
    /// earlier record of the same worker is overwritten.
    pub fn admit_worker(&mut self, state: WorkerState, now: u64) -> (id: String)
        requires
            old(self).wf(),
        ensures
            id@ == state@.id,
            final(self).wf(),
            final(self).roster() == upsert(
                old(self).roster(),
                WorkerStateView { last_seen: now, ..state@ },
            ),
            final(self).config() == old(self).config(),
            final(self).command() == old(self).command(),
    {
        let id = state.id.clone();
        let mut stamped = state;
        stamped.last_seen = now;
        self.store(stamped);
        id
    }

    /// Whether worker `worker_id` is registered.
    pub fn is_registered(&self, worker_id: &String) -> (known: bool)
        requires
            self.wf(),
        ensures
            known == has_id(self.roster(), worker_id@),
    {
        self.find(worker_id).is_some()
    }

    /// Records the status that worker `worker_id` reports. An unknown
    /// worker changes nothing and is answered with `false`.
    pub fn update_worker_state(&mut self, worker_id: String, status: WorkerStatus) -> (found: bool)
        requires
            old(self).wf(),
        ensures
            final(self).wf(),
            found == has_id(old(self).roster(), worker_id@),
            final(self).roster() == match record_of(old(self).roster(), worker_id@) {
                Some(r) => upsert(old(self).roster(), WorkerStateView { status: status@, ..r }),
                None => old(self).roster(),
            },
            final(self).config() == old(self).config(),
            final(self).command() == old(self).command(),
    {
        match self.find(&worker_id) {
            Some(i) => {
                let record = WorkerState {
                    id: worker_id,
                    status,
                    progress: self.workers[i].progress,
                    last_seen: self.workers[i].last_seen,
                };
                self.store(record);
                true
            },
            None => false,
        }
    }

    /// Records the progress that worker `worker_id` reports at time `now`
    /// and notes that the worker was heard from. An unknown worker changes
    /// nothing and is answered with `false`.
    pub fn update_worker_progress(
        &mut self,
        worker_id: String,
        progress: WorkerProgress,
        now: u64,
    ) -> (found: bool)
        requires
            old(self).wf(),
        ensures
            final(self).wf(),
            found == has_id(old(self).roster(), worker_id@),
            final(self).roster() == match record_of(old(self).roster(), worker_id@) {
                Some(r) => upsert(
                    old(self).roster(),
                    WorkerStateView { progress, last_seen: now, ..r },
                ),
                None => old(self).roster(),
            },
            final(self).config() == old(self).config(),
            final(self).command() == old(self).command(),
    {
        match self.find(&worker_id) {
            Some(i) => {
                let record = WorkerState {
                    id: worker_id,
                    status: self.workers[i].status.clone(),
                    progress,
                    last_seen: now,
                };
                self.store(record);
                true
            },
            None => false,
        }
    }

    /// Notes at time `now` that worker `worker_id` was heard from. An
    /// unknown worker changes nothing.
    pub fn touch_worker(&mut self, worker_id: String, now: u64) -> (found: bool)
        requires
            old(self).wf(),
        ensures
            final(self).wf(),
            found == has_id(old(self).roster(), worker_id@),
            final(self).roster() == match record_of(old(self).roster(), worker_id@) {
                Some(r) => upsert(old(self).roster(), WorkerStateView { last_seen: now, ..r }),
                None => old(self).roster(),
            },
            final(self).roster().len() == old(self).roster().len(),
            final(self).config() == old(self).config(),
            final(self).command() == old(self).command(),
    {
        match self.find(&worker_id) {
            Some(i) => {
                let record = WorkerState {
                    id: worker_id,
                    status: self.workers[i].status.clone(),
                    progress: self.workers[i].progress,
                    last_seen: now,
                };
                self.store(record);
                true
            },
            None => false,
        }
    }

    /// Stores the command of a run. A command submitted earlier is
    /// replaced outright.
    pub fn start_attack(&mut self, command: AttackCommand)
        ensures
            final(self).command() == Some(command@),
            final(self).roster() == old(self).roster(),
            final(self).config() == old(self).config(),
    {
        self.attack_command = Some(command);
    }

    /// The command of the current run, if one has been submitted.
    pub fn get_attack_command(&self) -> (command: Option<AttackCommand>)
        ensures
            command_view(command) == self.command(),
    {
        match &self.attack_command {
            Some(c) => Some(c.clone()),
            None => None,
        }
    }

    /// The records of all registered workers.
    pub fn get_cluster_status(&self) -> (states: Vec<WorkerState>)
        ensures
            states_view(states@) == self.roster(),
    {
        let mut states: Vec<WorkerState> = Vec::new();
        let mut i: usize = 0;
        while i < self.workers.len()
            invariant
                i <= self.workers@.len(),
                states@.len() == i,
                forall|k: int| 0 <= k < i ==> states@[k]@ == self.workers@[k]@,
            decreases self.workers@.len() - i,
        {
            states.push(self.workers[i].clone());
            i += 1;
        }
        assert(states_view(states@) =~= self.roster());
        states
    }

    /// Whether the run is complete: every registered worker has reported
    /// that it completed, and as many workers are registered as the
    /// configuration expects.
    pub fn is_all_workers_completed(&self) -> (complete: bool)
        ensures
            complete == crate::roster::complete(self.roster(), self.config().total_workers),
    {
        let mut i: usize = 0;
        while i < self.workers.len()
            invariant
                i <= self.workers@.len(),
                forall|k: int| 0 <= k < i ==> (#[trigger] self.roster()[k]).status
                    == crate::worker::WorkerStatusView::Completed,
            decreases self.workers@.len() - i,
        {
            if !self.workers[i].status.is_completed() {
                assert(self.roster()[i as int].status != crate::worker::WorkerStatusView::Completed);
                return false;
            }
            i += 1;
        }
        self.workers.len() == self.config.total_workers
    }

    /// Whether as many workers are registered as the configuration
    /// expects, or more.
    pub fn all_workers_connected(&self) -> (connected: bool)
        ensures
            connected == (self.roster().len() >= self.config().total_workers),
    {
        self.workers.len() >= self.config.total_workers
    }

    /// Whether the coordinator is done watching the run, `elapsed_secs`
    /// seconds after it began: every expected worker has completed, or the
    /// command names a duration and that duration has passed, or there is
    /// no command to watch. A command without a duration is over only once
    /// the workers have completed.
    pub fn run_is_over(&self, elapsed_secs: u64) -> (over: bool)
        ensures
            over == match self.command() {
                Some(c) => crate::roster::complete(self.roster(), self.config().total_workers) || (
                c.time > 0 && elapsed_secs >= c.time),
                None => true,
            },
    {
        let completed = self.is_all_workers_completed();
        match &self.attack_command {
            Some(command) => completed || (command.time > 0 && elapsed_secs >= command.time),
            None => true,
        }
    }

    /// Removes every worker that is stale at time `now` and answers with
    /// the ids of the removed workers, in the order of their records.
    pub fn evict_disconnected(&mut self, now: u64) -> (disconnected: Vec<String>)
        requires
            old(self).wf(),
        ensures
            final(self).wf(),
            final(self).roster() == live(old(self).roster(), now),
            texts_view(disconnected@) == stale_ids(old(self).roster(), now),
            final(self).config() == old(self).config(),
            final(self).command() == old(self).command(),
    {
        let ghost before = self.roster();
        let mut kept: Vec<WorkerState> = Vec::new();
        let mut disconnected: Vec<String> = Vec::new();
        let mut i: usize = 0;
        while i < self.workers.len()
            invariant
                i <= self.workers@.len(),
                before == states_view(self.workers@),
                states_view(kept@) == live(before.take(i as int), now),
                texts_view(disconnected@) == stale_ids(before.take(i as int), now),
            decreases self.workers@.len() - i,
        {
            let ghost seen = before.take(i as int);
            let ghost next = before.take(i + 1);
            proof {
                assert(next.drop_last() =~= seen);
                assert(next.last() == self.workers@[i as int]@);
            }
            let age: u64 = now.saturating_sub(self.workers[i].last_seen);
            if age > LIVENESS_TIMEOUT_NANOS {
                let ghost ids = texts_view(disconnected@);
                disconnected.push(self.workers[i].id.clone());
                proof {
                    assert(stale(next.last(), now));
                    assert(texts_view(disconnected@) =~= ids.push(next.last().id));
                }
            } else {
                let ghost views = states_view(kept@);
                kept.push(self.workers[i].clone());
                proof {
                    assert(!stale(next.last(), now));
                    assert(states_view(kept@) =~= views.push(next.last()));
                }
            }
            i += 1;
        }
        proof {
            assert(before.take(i as int) =~= before);
            lemma_live_members(before, now);
        }
        self.workers = kept;
        disconnected
    }

    /// The single snapshot that stands for all registered workers.
    pub fn total_progress(&self) -> (sum: WorkerProgress)
        ensures
            sum == aggregate(self.roster()),
    {
        let ghost s = self.roster();
        let mut sent: u128 = 0;
        let mut success: u128 = 0;
        let mut error: u128 = 0;
        let mut rate: u128 = 0;
        let mut response_time: u128 = 0;
        let mut reporting: u128 = 0;
        let mut i: usize = 0;
        while i < self.workers.len()
            invariant
                i <= self.workers@.len(),
                s == states_view(self.workers@),
                sent == total(s.take(i as int), Measure::Sent),
                success == total(s.take(i as int), Measure::Success),
                error == total(s.take(i as int), Measure::Error),
                rate == total(s.take(i as int), Measure::Rate),
                response_time == total(s.take(i as int), Measure::ResponseTime),
                reporting == total(s.take(i as int), Measure::Reporting),
            decreases self.workers@.len() - i,
        {
            let ghost next = s.take(i + 1);
            proof {
                assert(next.drop_last() =~= s.take(i as int));
                assert(next.last() == self.workers@[i as int]@);
                lemma_total_bound(next, Measure::Sent);
                lemma_total_bound(next, Measure::Success);
                lemma_total_bound(next, Measure::Error);
                lemma_total_bound(next, Measure::Rate);
                lemma_total_bound(next, Measure::ResponseTime);
                lemma_total_bound(next, Measure::Reporting);
                assert(next.len() * u64::MAX <= u128::MAX) by (nonlinear_arith)
                    requires
                        next.len() <= u64::MAX,
                ;
            }
            let progress = self.workers[i].progress;
            sent = sent + progress.requests_sent as u128;
            success = success + progress.requests_success as u128;
            error = error + progress.requests_error as u128;
            rate = rate + progress.current_rps_milli as u128;
            response_time = response_time + progress.avg_response_time_us as u128;
            if progress.avg_response_time_us > 0 {
                reporting = reporting + 1;
            }
            i += 1;
        }
        assert(s.take(i as int) =~= s);
        let mean: u128 = if reporting > 0 {
            response_time / reporting
        } else {
            0
        };
        WorkerProgress {
            requests_sent: clamp(sent),
            requests_success: clamp(success),
            requests_error: clamp(error),
            avg_response_time_us: clamp(mean),
            current_rps_milli: clamp(rate),
        }
    }

    /// Removes the workers that are stale at time `now`, then sums up the
    /// progress of those that remain. Answers with the sum and with the
    /// ids of the removed workers.
    pub fn get_total_progress(&mut self, now: u64) -> (report: (WorkerProgress, Vec<String>))
        requires
            old(self).wf(),
        ensures
            final(self).wf(),
            final(self).roster() == live(old(self).roster(), now),
            report.0 == aggregate(live(old(self).roster(), now)),
            texts_view(report.1@) == stale_ids(old(self).roster(), now),
            final(self).config() == old(self).config(),
            final(self).command() == old(self).command(),
    {
        let disconnected = self.evict_disconnected(now);
        let sum = self.total_progress();
        (sum, disconnected)
    }

    /// Answers the poll of worker `worker_id` at time `now`: notes that the
    /// worker was heard from, if it is registered, and hands out its share
    /// of the current command. Nothing is handed out while no command has
    /// been submitted, nor while a concurrency is to be shared and no
    /// worker is registered.
    pub fn get_task(&mut self, worker_id: String, now: u64) -> (task: Option<AttackCommand>)
        requires
            old(self).wf(),
        ensures
            final(self).wf(),
            final(self).roster() == match record_of(old(self).roster(), worker_id@) {
                Some(r) => upsert(old(self).roster(), WorkerStateView { last_seen: now, ..r }),
                None => old(self).roster(),
            },
            command_view(task) == match old(self).command() {
                Some(c) => task_spec(
                    c,
                    old(self).config().distribution_mode,
                    old(self).roster().len() as int,
                ),
                None => None,
            },
            final(self).config() == old(self).config(),
            final(self).command() == old(self).command(),
    {
        self.touch_worker(worker_id, now);
        let live: usize = self.workers.len();
        match &self.attack_command {
            Some(command) => {
                match command.concurrent {
                    Some(total) => {
                        if live > 0 {
                            let portion = share(
                                self.config.distribution_mode,
                                total,
                                live,
                                1,
                                live as u64,
                            );
                            Some(command.with_concurrent(Some(portion)))
                        } else {
                            None
                        }
                    },
                    None => Some(command.clone()),
                }
            },
            None => None,
        }
    }
}

} // verus!
