//! A wiki that the server runs: its tasks, their execution, and what follows them.

use vstd::prelude::*;

use crate::config::AppConfig;
use crate::duration::{Duration, NANOS_PER_SEC};
use crate::queue;
use crate::queue::{QueueFullError, TaskQueue, TaskStatus, Tasks};
use crate::remote_sync::RemoteSync;
use crate::research_task;
use crate::research_task::Executor;
use crate::views;

verus! {

/// How many research tasks of a wiki run at once.
pub const MAX_CONCURRENT_RESEARCH: usize = 1;

/// How often completed tasks are swept away at most, in seconds.
pub const MIN_SWEEP_SECS: u64 = 15;

/// The length of the time between sweeps, where completed tasks are kept for a time.
pub open spec fn sweep_span(ttl: nat) -> nat {
    if ttl / 4 >= MIN_SWEEP_SECS * NANOS_PER_SEC {
        ttl / 4
    } else {
        (MIN_SWEEP_SECS * NANOS_PER_SEC) as nat
    }
}

/// The time between sweeps: a quarter of the time that completed tasks are kept, but not less than
/// [`MIN_SWEEP_SECS`].
pub fn reaper_interval(ttl: Duration) -> (res: Duration)
    ensures
        res@ == (if ttl@ / 4 >= MIN_SWEEP_SECS * NANOS_PER_SEC {
            ttl@ / 4
        } else {
            (MIN_SWEEP_SECS * NANOS_PER_SEC) as nat
        }),
        res@ == sweep_span(ttl@),
{
    ttl.quarter().max(Duration::from_secs(MIN_SWEEP_SECS))
}

/// The status of a task that has run.
pub open spec fn status_of(outcome: Result<Seq<char>, research_task::Fault>) -> TaskStatus<
    Seq<char>,
> {
    match outcome {
        Ok(answer) => TaskStatus::Done { answer },
        Err(e) => TaskStatus::Failed { error: e.says() },
    }
}

/// The status of a task that has run.
pub fn task_status(outcome: Result<String, research_task::Error>) -> (res: TaskStatus)
    ensures
        res.deep_view() == status_of(views::outcome(outcome)),
{
    match outcome {
        Ok(answer) => TaskStatus::Done { answer },
        Err(e) => TaskStatus::Failed { error: e.message() },
    }
}

/// Whether the remote is to be synchronised once a task has run, by whether the task was answered
/// and whether there is a remote.
pub open spec fn sync_due(answered: bool, has_remote: bool) -> bool {
    answered && has_remote
}

/// What someone who waits for a task's result learns.
#[derive(Debug, PartialEq, Eq)]
pub enum Wait<S = String> {
    /// The task has its result, or there is no such task.
    Over(Option<TaskStatus<S>>),
    /// The task has no result yet.
    GoesOn,
}

impl DeepView for Wait<String> {
    type V = Wait<Seq<char>>;

    open spec fn deep_view(&self) -> Wait<Seq<char>> {
        match self {
            Wait::Over(status) => Wait::Over(status.deep_view()),
            Wait::GoesOn => Wait::GoesOn,
        }
    }
}

/// What someone who waits for a task's result learns.
pub open spec fn waiting_for(tasks: Tasks, id: Seq<char>) -> Wait<Seq<char>> {
    if !tasks.table.contains_key(id) {
        Wait::Over(None)
    } else {
        match tasks.table[id].status {
            TaskStatus::Queued | TaskStatus::Running => Wait::GoesOn,
            status => Wait::Over(Some(status)),
        }
    }
}

/// A wiki that the server runs.
pub struct WikiInstance {
    pub config: AppConfig,
    pub executor: Executor,
    pub remote_sync: RemoteSync,
    pub queue: TaskQueue,
}

impl View for WikiInstance {
    type V = Tasks;

    open spec fn view(&self) -> Tasks {
        self.queue@
    }
}

impl WikiInstance {
    /// Whether the wiki's tasks are in order.
    pub open spec fn wf(self) -> bool {
        self.queue.wf()
    }

    /// What no task changes: the configuration, and what runs the tasks.
    pub open spec fn settings(self) -> (AppConfig, Executor, RemoteSync) {
        (self.config, self.executor, self.remote_sync)
    }

    /// A wiki without tasks. Its workspaces lie below the directory `data_root`.
    pub fn new(config: AppConfig, data_root: &str) -> (res: Self)
        ensures
            res.wf(),
            res.config == config,
            res@ == (Tasks { table: Map::empty(), pending: Seq::empty() }),
            res.remote_sync.config.deep_view() == config.git_sync.deep_view(),
            res.executor.is_for(config, data_root@),
    {
        let executor = Executor::new(&config, data_root);
        let git_sync = match &config.git_sync {
            Some(sync) => Some(sync.clone()),
            None => None,
        };
        WikiInstance {
            config,
            executor,
            remote_sync: RemoteSync::new(git_sync),
            queue: TaskQueue::new(),
        }
    }

    /// Records a task and lets it wait.
    pub fn enqueue_as(&mut self, id: String, question: String) -> (res: Result<
        String,
        QueueFullError,
    >)
        requires
            old(self).wf(),
        ensures
            final(self).wf(),
            final(self).settings() == old(self).settings(),
            ({
                let after = queue::recorded(old(self)@, id@, question@);
                if old(self)@.pending.len() < queue::CAPACITY {
                    res matches Ok(given) && given@ == id@ && final(self)@ == queue::waiting(
                        after,
                        id@,
                    )
                } else {
                    res is Err && final(self)@ == after
                }
            }),
            (queue::given(res), final(self)@) == queue::asked(old(self)@, id@, question@),
    {
        self.queue.enqueue_as(id, question)
    }

    /// Records a task under a fresh id and lets it wait.
    pub fn enqueue(&mut self, question: String) -> (res: Result<String, QueueFullError>)
        requires
            old(self).wf(),
        ensures
            final(self).wf(),
            final(self).settings() == old(self).settings(),
            res is Ok <==> old(self)@.pending.len() < queue::CAPACITY,
            exists|id: Seq<char>| #[trigger]
                queue::is_uuid(id) && (match res {
                    Ok(given) => given@ == id && final(self)@ == queue::waiting(
                        queue::recorded(old(self)@, id, question@),
                        id,
                    ),
                    Err(_) => final(self)@ == queue::recorded(old(self)@, id, question@),
                }),
    {
        self.queue.enqueue(question)
    }

    /// Where a task stands.
    pub fn get_task_status(&self, id: &str) -> (res: Option<TaskStatus>)
        requires
            self.wf(),
        ensures
            match res {
                Some(status) => self@.table.contains_key(id@) && status.deep_view()
                    == self@.table[id@].status,
                None => !self@.table.contains_key(id@),
            },
            res.deep_view() == queue::status_in(self@, id@),
    {
        self.queue.get_status(id)
    }

    /// What someone who waits for a task's result learns.
    pub fn wait_for_result(&self, id: &str) -> (res: Wait)
        requires
            self.wf(),
        ensures
            res.deep_view() == waiting_for(self@, id@),
    {
        match self.queue.get_status(id) {
            None => Wait::Over(None),
            Some(status) => if status.is_terminal() {
                Wait::Over(Some(status))
            } else {
                Wait::GoesOn
            },
        }
    }

    /// The next task that waits.
    pub fn next_pending(&mut self) -> (res: Option<String>)
        requires
            old(self).wf(),
        ensures
            final(self).wf(),
            final(self).settings() == old(self).settings(),
            match res {
                Some(id) => old(self)@.pending.len() > 0 && id@ == old(self)@.pending[0]
                    && final(self)@ == (Tasks {
                    pending: old(self)@.pending.drop_first(),
                    ..old(self)@
                }),
                None => old(self)@.pending.len() == 0 && final(self)@ == old(self)@,
            },
            (res.deep_view(), final(self)@) == queue::taken(old(self)@),
    {
        self.queue.next_pending()
    }

    /// Starts a task, and gives its question. A task that is gone is not run.
    pub fn begin_task(&mut self, id: &str) -> (res: Option<String>)
        requires
            old(self).wf(),
        ensures
            final(self).wf(),
            final(self).settings() == old(self).settings(),
            final(self)@ == queue::started(old(self)@, id@),
            match res {
                Some(question) => old(self)@.table.contains_key(id@) && question@ == old(
                    self,
                )@.table[id@].question,
                None => !old(self)@.table.contains_key(id@),
            },
            res.deep_view() == queue::question_in(old(self)@, id@),
    {
        self.queue.start(id)
    }

    /// Completes a task that has run, and tells whether the remote is to be synchronised: where the
    /// task was answered and there is a remote.
    pub fn conclude_task(
        &mut self,
        id: &str,
        outcome: Result<String, research_task::Error>,
        now: Duration,
    ) -> (res: bool)
        requires
            old(self).wf(),
        ensures
            final(self).wf(),
            final(self).settings() == old(self).settings(),
            final(self)@ == queue::finished(
                old(self)@,
                id@,
                status_of(views::outcome(outcome)),
                now,
            ),
            res == (outcome is Ok && old(self).remote_sync.config is Some),
            res == sync_due(outcome is Ok, old(self).remote_sync.config is Some),
    {
        let answered = outcome.is_ok();
        self.queue.finish(id, task_status(outcome), now);
        answered && self.remote_sync.request()
    }

    /// Forgets the tasks that were completed too long ago.
    pub fn sweep_completed(&mut self, now: Duration)
        requires
            old(self).wf(),
        ensures
            final(self).wf(),
            final(self).settings() == old(self).settings(),
            final(self)@ == queue::swept(old(self)@, now, old(self).config.completed_task_ttl),
    {
        self.queue.sweep_completed(now, self.config.completed_task_ttl)
    }
}

/// The wait for a task that was asked for goes on until the task is completed, and is over with
/// what the task ended with.
pub proof fn waits_end_with_the_task(
    tasks: Tasks,
    id: Seq<char>,
    question: Seq<char>,
    outcome: Result<Seq<char>, research_task::Fault>,
    now: Duration,
)
    ensures
        ({
            let asked = queue::waiting(queue::recorded(tasks, id, question), id);
            let running = queue::started(asked, id);
            let done = queue::finished(running, id, status_of(outcome), now);
            &&& waiting_for(asked, id) == Wait::<Seq<char>>::GoesOn
            &&& waiting_for(running, id) == Wait::<Seq<char>>::GoesOn
            &&& waiting_for(done, id) == Wait::Over(Some(status_of(outcome)))
        }),
{
}

/// Completed tasks are swept away four times in the time that they are kept for, but not more often
/// than every quarter of a minute.
pub proof fn sweeps_come_at_intervals(ttl: nat)
    ensures
        ttl >= 60 * 1_000_000_000 ==> sweep_span(ttl) == ttl / 4,
        ttl <= 60 * 1_000_000_000 ==> sweep_span(ttl) == 15 * 1_000_000_000,
        MAX_CONCURRENT_RESEARCH == 1,
{
}

/// A task that was answered is done with its answer, any other has failed with what its failure
/// says. The remote is synchronised exactly after the answered ones, where there is a remote.
pub proof fn tasks_end_as_they_ran(answer: Seq<char>, failure: research_task::Fault, remote: bool)
    ensures
        status_of(Ok(answer)) == (TaskStatus::Done { answer }),
        status_of(Err(failure)) == (TaskStatus::Failed { error: failure.says() }),
        sync_due(true, true),
        !sync_due(false, remote),
        !sync_due(remote, false),
{
}

/// The wait for a task that is not there is over at once.
pub proof fn nobody_waits_for_unknown_tasks(tasks: Tasks, id: Seq<char>)
    requires
        !tasks.table.contains_key(id),
    ensures
        waiting_for(tasks, id) == Wait::Over(None::<TaskStatus<Seq<char>>>),
{
}

} // verus!
