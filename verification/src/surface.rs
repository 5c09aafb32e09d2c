//! What the interfaces of a wiki offer: research questions, and their answers.

use vstd::prelude::*;

use crate::duration::Duration;
use crate::names;
use crate::names::LocalPathError;
use crate::queue;
use crate::queue::{QueueFullError, TaskStatus, Tasks};
use crate::research_task;
use crate::rewrite;
use crate::sync::tree::Listing;
use crate::views;
use crate::wiki_instance::WikiInstance;

verus! {

/// Why a request is refused.
#[derive(Debug, PartialEq, Eq)]
pub enum SurfaceError<S = String> {
    QueueFull(QueueFullError),
    MissingTask,
    ResearchFailed(S),
    UnexpectedTaskState,
    RewriteJoin(S),
    InvalidLocalPath(LocalPathError<S>),
    ResearchTask(research_task::Error<S>),
}

/// A refusal by its views.
pub type Fault = SurfaceError<Seq<char>>;

impl DeepView for SurfaceError<String> {
    type V = SurfaceError<Seq<char>>;

    open spec fn deep_view(&self) -> SurfaceError<Seq<char>> {
        match self {
            SurfaceError::QueueFull(full) => SurfaceError::QueueFull(*full),
            SurfaceError::MissingTask => SurfaceError::MissingTask,
            SurfaceError::ResearchFailed(error) => SurfaceError::ResearchFailed(error@),
            SurfaceError::UnexpectedTaskState => SurfaceError::UnexpectedTaskState,
            SurfaceError::RewriteJoin(error) => SurfaceError::RewriteJoin(error@),
            SurfaceError::InvalidLocalPath(error) => SurfaceError::InvalidLocalPath(
                error.deep_view(),
            ),
            SurfaceError::ResearchTask(error) => SurfaceError::ResearchTask(error.deep_view()),
        }
    }
}

impl SurfaceError<Seq<char>> {
    /// What the refusal says.
    pub open spec fn says(self) -> Seq<char> {
        match self {
            SurfaceError::QueueFull(_) => "research queue is full"@,
            SurfaceError::MissingTask => "task disappeared"@,
            SurfaceError::ResearchFailed(error) => "research failed: "@ + error,
            SurfaceError::UnexpectedTaskState => "unexpected task state"@,
            SurfaceError::RewriteJoin(_) => "wikilink rewrite task failed"@,
            SurfaceError::InvalidLocalPath(error) => "invalid local_path: "@ + error.says(),
            SurfaceError::ResearchTask(error) => error.says(),
        }
    }
}

impl SurfaceError {
    /// The message of the refusal.
    pub fn message(&self) -> (res: String)
        ensures
            res@ == self.deep_view().says(),
    {
        match self {
            SurfaceError::QueueFull(full) => full.message(),
            SurfaceError::MissingTask => "task disappeared".to_string(),
            SurfaceError::ResearchFailed(error) => "research failed: ".to_string().concat(
                error.as_str(),
            ),
            SurfaceError::UnexpectedTaskState => "unexpected task state".to_string(),
            SurfaceError::RewriteJoin(_) => "wikilink rewrite task failed".to_string(),
            SurfaceError::InvalidLocalPath(error) => "invalid local_path: ".to_string().concat(
                error.message().as_str(),
            ),
            SurfaceError::ResearchTask(error) => error.message(),
        }
    }
}

/// The path into which the links of an answer lead: the one that is asked for, if it may be one,
/// else the one that belongs to the wiki's name.
pub open spec fn link_path(name: Seq<char>, local_path: Option<Seq<char>>) -> Result<
    Seq<char>,
    Fault,
> {
    match local_path {
        None => Ok(names::wiki_path_of(name)),
        Some(path) => match names::local_path_check(path) {
            Ok(_) => Ok(path),
            Err(error) => Err(SurfaceError::InvalidLocalPath(error)),
        },
    }
}

/// What is delivered of a task, given how making the published wiki ready ended.
pub open spec fn delivery(
    prepared: Result<(), research_task::Fault>,
    status: Option<TaskStatus<Seq<char>>>,
    wiki_dir: Seq<char>,
    found: Option<Listing>,
    prefix: Seq<char>,
) -> Result<Seq<char>, Fault> {
    match prepared {
        Err(error) => Err(SurfaceError::ResearchTask(error)),
        Ok(_) => match status {
            None => Err(SurfaceError::MissingTask),
            Some(TaskStatus::Done { answer }) => Ok(
                rewrite::rewritten(answer, wiki_dir, found, prefix),
            ),
            Some(TaskStatus::Failed { error }) => Err(SurfaceError::ResearchFailed(error)),
            Some(TaskStatus::Queued) | Some(TaskStatus::Running) => Err(
                SurfaceError::UnexpectedTaskState,
            ),
        },
    }
}

/// What is delivered of a task, given how making the published wiki ready ended and what was found
/// in its directory.
pub fn deliver_answer(
    prepared: Result<(), research_task::Error>,
    status: Option<TaskStatus>,
    wiki_dir: &str,
    found: &Option<Listing>,
    link_prefix: &str,
) -> (res: Result<String, SurfaceError>)
    ensures
        views::outcome(res) == delivery(
            views::outcome(prepared),
            status.deep_view(),
            wiki_dir@,
            *found,
            link_prefix@,
        ),
{
    match prepared {
        Err(error) => Err(SurfaceError::ResearchTask(error)),
        Ok(()) => match status {
            None => Err(SurfaceError::MissingTask),
            Some(TaskStatus::Done { answer }) => Ok(
                rewrite::rewrite_wikilinks(answer.as_str(), wiki_dir, found, link_prefix),
            ),
            Some(TaskStatus::Failed { error }) => Err(SurfaceError::ResearchFailed(error)),
            Some(TaskStatus::Queued) | Some(TaskStatus::Running) => Err(
                SurfaceError::UnexpectedTaskState,
            ),
        },
    }
}

/// A question that was accepted: the task it became, and the path of its answer's links.
#[derive(Debug, PartialEq, Eq)]
pub struct Accepted {
    pub task_id: String,
    pub local_path: String,
}

/// What a poll finds.
#[derive(Debug, PartialEq, Eq)]
pub enum Poll<S = String> {
    /// The task's status, or that there is no such task.
    Known(Option<TaskStatus<S>>),
    /// An answer whose links are to be made.
    Deliver { answer: S, local_path: S },
}

impl DeepView for Poll<String> {
    type V = Poll<Seq<char>>;

    open spec fn deep_view(&self) -> Poll<Seq<char>> {
        match self {
            Poll::Known(status) => Poll::Known(status.deep_view()),
            Poll::Deliver { answer, local_path } => Poll::Deliver {
                answer: answer@,
                local_path: local_path@,
            },
        }
    }
}

/// The status of a task, if there is one.
pub open spec fn status_in(tasks: Tasks, id: Seq<char>) -> Option<TaskStatus<Seq<char>>> {
    if tasks.table.contains_key(id) {
        Some(tasks.table[id].status)
    } else {
        None
    }
}

/// What a poll of a task with a status finds. The path counts only where there is an answer.
pub open spec fn poll_of(
    status: Option<TaskStatus<Seq<char>>>,
    name: Seq<char>,
    local_path: Option<Seq<char>>,
) -> Result<Poll<Seq<char>>, Fault> {
    match status {
        Some(TaskStatus::Done { answer }) => match link_path(name, local_path) {
            Ok(path) => Ok(Poll::Deliver { answer, local_path: path }),
            Err(e) => Err(e),
        },
        other => Ok(Poll::Known(other)),
    }
}

/// What a poll reports, given how making the published wiki ready ended.
pub open spec fn poll_report(
    poll: Poll<Seq<char>>,
    prepared: Result<(), research_task::Fault>,
    wiki_dir: Seq<char>,
    found: Option<Listing>,
) -> Result<Option<TaskStatus<Seq<char>>>, Fault> {
    match poll {
        Poll::Known(status) => Ok(status),
        Poll::Deliver { answer, local_path } => match delivery(
            prepared,
            Some(TaskStatus::Done { answer }),
            wiki_dir,
            found,
            local_path,
        ) {
            Ok(answer) => Ok(Some(TaskStatus::Done { answer })),
            Err(e) => Err(e),
        },
    }
}

/// What a poll reports, given how making the published wiki ready ended and what was found in its
/// directory.
pub fn report_poll(
    poll: Poll,
    prepared: Result<(), research_task::Error>,
    wiki_dir: &str,
    found: &Option<Listing>,
) -> (res: Result<Option<TaskStatus>, SurfaceError>)
    ensures
        views::outcome(res) == poll_report(
            poll.deep_view(),
            views::outcome(prepared),
            wiki_dir@,
            *found,
        ),
{
    match poll {
        Poll::Known(status) => Ok(status),
        Poll::Deliver { answer, local_path } => match deliver_answer(
            prepared,
            Some(TaskStatus::Done { answer }),
            wiki_dir,
            found,
            local_path.as_str(),
        ) {
            Ok(answer) => Ok(Some(TaskStatus::Done { answer })),
            Err(e) => Err(e),
        },
    }
}

/// The interface of a wiki.
pub struct ResearchSurface {
    pub state: WikiInstance,
}

impl ResearchSurface {
    /// The interface of a wiki.
    pub fn new(state: WikiInstance) -> (res: Self)
        ensures
            res.state == state,
    {
        ResearchSurface { state }
    }

    /// Takes a question, and gives the id of the task it became.
    pub fn submit_research(&mut self, question: String) -> (res: Result<String, QueueFullError>)
        requires
            old(self).state.wf(),
        ensures
            final(self).state.wf(),
            final(self).state.settings() == old(self).state.settings(),
            res is Ok <==> old(self).state@.pending.len() < queue::CAPACITY,
            exists|id: Seq<char>| #[trigger]
                queue::is_uuid(id) && (match res {
                    Ok(given) => given@ == id && final(self).state@ == queue::waiting(
                        queue::recorded(old(self).state@, id, question@),
                        id,
                    ),
                    Err(_) => final(self).state@ == queue::recorded(
                        old(self).state@,
                        id,
                        question@,
                    ),
                }),
    {
        self.state.enqueue(question)
    }

    /// The path into which the links of an answer lead.
    pub fn resolve_local_path(&self, local_path: Option<String>) -> (res: Result<
        String,
        SurfaceError,
    >)
        ensures
            views::outcome(res) == link_path(self.state.config.name@, local_path.deep_view()),
    {
        match local_path {
            Some(path) => match names::validate_local_path(path.as_str()) {
                Ok(()) => Ok(path),
                Err(error) => Err(SurfaceError::InvalidLocalPath(error)),
            },
            None => Ok(self.state.config.derived_wiki_path()),
        }
    }

    /// Takes a question whose answer is waited for. Where the path is refused, nothing happens.
    pub fn research(&mut self, question: String, local_path: Option<String>) -> (res: Result<
        Accepted,
        SurfaceError,
    >)
        requires
            old(self).state.wf(),
        ensures
            final(self).state.wf(),
            final(self).state.settings() == old(self).state.settings(),
            match link_path(old(self).state.config.name@, local_path.deep_view()) {
                Err(e) => {
                    &&& res matches Err(error) && error.deep_view() == e
                    &&& final(self).state@ == old(self).state@
                },
                Ok(path) => {
                    &&& res is Ok <==> old(self).state@.pending.len() < queue::CAPACITY
                    &&& exists|id: Seq<char>| #[trigger]
                        queue::is_uuid(id) && (match res {
                            Ok(accepted) => {
                                &&& accepted.task_id@ == id
                                &&& accepted.local_path@ == path
                                &&& final(self).state@ == queue::waiting(
                                    queue::recorded(old(self).state@, id, question@),
                                    id,
                                )
                            },
                            Err(e) => {
                                &&& e is QueueFull
                                &&& final(self).state@ == queue::recorded(
                                    old(self).state@,
                                    id,
                                    question@,
                                )
                            },
                        })
                },
            },
    {
        let local_path = match self.resolve_local_path(local_path) {
            Ok(path) => path,
            Err(e) => return Err(e),
        };
        match self.submit_research(question) {
            Ok(task_id) => Ok(Accepted { task_id, local_path }),
            Err(full) => Err(SurfaceError::QueueFull(full)),
        }
    }

    /// What a poll of a task finds.
    pub fn poll_result(&self, task_id: &str, local_path: Option<String>) -> (res: Result<
        Poll,
        SurfaceError,
    >)
        requires
            self.state.wf(),
        ensures
            views::outcome(res) == poll_of(
                status_in(self.state@, task_id@),
                self.state.config.name@,
                local_path.deep_view(),
            ),
    {
        match self.state.get_task_status(task_id) {
            Some(TaskStatus::Done { answer }) => match self.resolve_local_path(local_path) {
                Ok(local_path) => Ok(Poll::Deliver { answer, local_path }),
                Err(e) => Err(e),
            },
            status => Ok(Poll::Known(status)),
        }
    }
}

/// The path of a poll counts for nothing as long as there is no answer.
pub proof fn paths_count_for_answers_alone(
    status: Option<TaskStatus<Seq<char>>>,
    name: Seq<char>,
    path: Option<Seq<char>>,
    other: Option<Seq<char>>,
)
    requires
        !(status matches Some(TaskStatus::Done { answer: _ })),
    ensures
        poll_of(status, name, path) == poll_of(status, name, other),
        poll_of(status, name, path) == Ok::<_, Fault>(Poll::Known(status)),
{
}

/// A question that is taken is reported as queued, and once it is answered as done, with its links
/// into the path that is asked for, whatever tasks there were before.
pub proof fn answers_reach_those_who_ask(
    tasks: Tasks,
    id: Seq<char>,
    question: Seq<char>,
    answer: Seq<char>,
    now: Duration,
    name: Seq<char>,
    path: Seq<char>,
    wiki_dir: Seq<char>,
    found: Option<Listing>,
)
    requires
        names::local_path_check(path) is Ok,
    ensures
        ({
            let asked = queue::waiting(queue::recorded(tasks, id, question), id);
            let done = queue::finished(
                queue::started(asked, id),
                id,
                TaskStatus::Done { answer },
                now,
            );
            let poll = poll_of(status_in(done, id), name, Some(path));
            &&& poll_of(status_in(asked, id), name, Some(path)) == Ok::<_, Fault>(
                Poll::Known(Some(TaskStatus::<Seq<char>>::Queued)),
            )
            &&& poll is Ok
            &&& poll_report(poll->Ok_0, Ok(()), wiki_dir, found) == Ok::<_, Fault>(
                Some(
                    TaskStatus::Done { answer: rewrite::rewritten(answer, wiki_dir, found, path) },
                ),
            )
        }),
{
}

/// What is delivered of a task: an answer with its links made, once the published wiki is ready;
/// what failed is told as it failed, and a task that is not over is told as such.
pub proof fn answers_are_delivered(
    answer: Seq<char>,
    error: Seq<char>,
    failure: research_task::Fault,
    status: Option<TaskStatus<Seq<char>>>,
    wiki_dir: Seq<char>,
    found: Option<Listing>,
    prefix: Seq<char>,
)
    ensures
        delivery(Ok(()), Some(TaskStatus::Done { answer }), wiki_dir, found, prefix) == Ok::<
            _,
            Fault,
        >(rewrite::rewritten(answer, wiki_dir, found, prefix)),
        delivery(Ok(()), Some(TaskStatus::Failed { error }), wiki_dir, found, prefix) == Err::<
            Seq<char>,
            _,
        >(SurfaceError::ResearchFailed(error)),
        delivery(Ok(()), None, wiki_dir, found, prefix) == Err::<Seq<char>, Fault>(
            SurfaceError::MissingTask,
        ),
        delivery(Ok(()), Some(TaskStatus::Queued), wiki_dir, found, prefix) == Err::<
            Seq<char>,
            Fault,
        >(SurfaceError::UnexpectedTaskState),
        delivery(Ok(()), Some(TaskStatus::Running), wiki_dir, found, prefix) == Err::<
            Seq<char>,
            Fault,
        >(SurfaceError::UnexpectedTaskState),
        delivery(Err(failure), status, wiki_dir, found, prefix) == Err::<Seq<char>, _>(
            SurfaceError::ResearchTask(failure),
        ),
{
}

/// The links of an answer lead into the path that is asked for, where it may be one, and else into
/// the directory that belongs to the wiki's name.
pub proof fn links_lead_where_they_are_asked_to(name: Seq<char>, path: Seq<char>)
    ensures
        names::local_path_check(path) is Ok ==> link_path(name, Some(path)) == Ok::<_, Fault>(path),
        names::local_path_check(path) is Err ==> link_path(name, Some(path)) == Err::<
            Seq<char>,
            Fault,
        >(SurfaceError::InvalidLocalPath(names::local_path_check(path)->Err_0)),
        link_path("default"@, None) == Ok::<_, Fault>("wiki"@),
        name != "default"@ ==> link_path(name, None) == Ok::<_, Fault>("wiki-"@ + name),
{
}

/// What is said of a request that is refused.
pub proof fn refused_requests_are_told(
    full: QueueFullError,
    message: Seq<char>,
    path: LocalPathError<Seq<char>>,
    failure: research_task::Fault,
)
    ensures
        SurfaceError::<Seq<char>>::QueueFull(full).says() == "research queue is full"@,
        SurfaceError::<Seq<char>>::MissingTask.says() == "task disappeared"@,
        SurfaceError::ResearchFailed(message).says() == "research failed: "@ + message,
        SurfaceError::<Seq<char>>::UnexpectedTaskState.says() == "unexpected task state"@,
        SurfaceError::RewriteJoin(message).says() == "wikilink rewrite task failed"@,
        SurfaceError::InvalidLocalPath(path).says() == "invalid local_path: "@ + path.says(),
        SurfaceError::ResearchTask(failure).says() == failure.says(),
{
}

} // verus!
