//! The MCP interface: its tools, and which calls are answered how.

use vstd::prelude::*;

use crate::config::AppConfig;
use crate::duration::Duration;
use crate::names;
use crate::queue;
use crate::queue::{QueueFullError, TaskStatus, Tasks};
use crate::research_task;
use crate::rewrite;
use crate::surface;
use crate::surface::SurfaceError;
use crate::sync::tree::Listing;
use crate::views;

verus! {

/// The parameters of the tool that takes a question.
#[derive(Debug)]
pub struct ResearchParams {
    pub question: String,
}

/// The parameters of the tool that polls a task.
#[derive(Debug)]
pub struct GetResultParams {
    pub task_id: String,
    pub local_path: Option<String>,
}

/// Why a call is refused.
#[derive(Debug, PartialEq, Eq)]
pub enum McpError<S = String> {
    InvalidParams(S),
    Internal(S),
    ResourceNotFound(S),
}

/// A refusal by its views.
pub type Fault = McpError<Seq<char>>;

impl DeepView for McpError<String> {
    type V = McpError<Seq<char>>;

    open spec fn deep_view(&self) -> McpError<Seq<char>> {
        match self {
            McpError::InvalidParams(message) => McpError::InvalidParams(message@),
            McpError::Internal(message) => McpError::Internal(message@),
            McpError::ResourceNotFound(message) => McpError::ResourceNotFound(message@),
        }
    }
}

/// The description of the tool that takes questions.
pub open spec fn tool_description(base: Seq<char>, own: Seq<char>) -> Seq<char> {
    base + "\n\n"@ + own
}

/// The description of the tool that takes questions: what is said of it for every wiki, and then
/// what is said of it for this one.
pub fn research_tool_description(base: &str, config: &AppConfig) -> (res: String)
    ensures
        res@ == base@ + "\n\n"@ + config.research_tool_description@,
        res@ == tool_description(base@, config.research_tool_description@),
{
    base.to_string().concat("\n\n").concat(config.research_tool_description())
}

/// The reply to a question that became a task, or for which there was no room.
pub open spec fn submission_reply(submitted: Option<Seq<char>>) -> Result<Seq<char>, Fault> {
    match submitted {
        Some(task_id) => Ok(task_id),
        None => Err(McpError::Internal("research queue is full"@)),
    }
}

/// The reply to a question: the id of the task that it became.
pub fn research_reply(submitted: Result<String, QueueFullError>) -> (res: Result<String, McpError>)
    ensures
        views::outcome(res) == (match submitted {
            Ok(task_id) => Ok(task_id@),
            Err(_) => Err(McpError::Internal("research queue is full"@)),
        }),
        views::outcome(res) == submission_reply(
            match submitted {
                Ok(task_id) => Some(task_id@),
                Err(_) => None,
            },
        ),
{
    match submitted {
        Ok(task_id) => Ok(task_id),
        Err(_) => Err(McpError::Internal("research queue is full".to_string())),
    }
}

/// The refusal of a call that the surface refuses.
pub open spec fn surface_fault(error: surface::Fault) -> Fault {
    match error {
        SurfaceError::InvalidLocalPath(_) => McpError::InvalidParams(error.says()),
        _ => McpError::Internal(error.says()),
    }
}

/// The refusal of a call that the surface refuses.
pub fn mcp_surface_error(error: SurfaceError) -> (res: McpError)
    ensures
        res.deep_view() == surface_fault(error.deep_view()),
{
    match error {
        SurfaceError::InvalidLocalPath(_) => McpError::InvalidParams(error.message()),
        _ => McpError::Internal(error.message()),
    }
}

/// The refusal of a poll of a task that failed.
pub open spec fn failure_reply(error: Seq<char>) -> Fault {
    McpError::Internal("research failed: "@ + error)
}

/// The refusal of a poll of a task that failed.
pub fn mcp_research_failed(error: String) -> (res: McpError)
    ensures
        res.deep_view() == (McpError::Internal("research failed: "@ + error@)),
        res.deep_view() == failure_reply(error@),
{
    McpError::Internal("research failed: ".to_string().concat(error.as_str()))
}

/// The reply to a poll.
pub open spec fn poll_reply(
    task_id: Seq<char>,
    polled: Result<Option<TaskStatus<Seq<char>>>, surface::Fault>,
) -> Result<TaskStatus<Seq<char>>, Fault> {
    match polled {
        Err(e) => Err(surface_fault(e)),
        Ok(None) => Err(McpError::ResourceNotFound("unknown task_id '"@ + task_id + "'"@)),
        Ok(Some(TaskStatus::Failed { error })) => Err(
            McpError::Internal("research failed: "@ + error),
        ),
        Ok(Some(status)) => Ok(status),
    }
}

/// The reply to a poll.
pub fn get_result_reply(
    task_id: &str,
    polled: Result<Option<TaskStatus>, SurfaceError>,
) -> (res: Result<TaskStatus, McpError>)
    ensures
        views::outcome(res) == poll_reply(task_id@, views::outcome(polled)),
{
    match polled {
        Err(e) => Err(mcp_surface_error(e)),
        Ok(None) => Err(
            McpError::ResourceNotFound(
                "unknown task_id '".to_string().concat(task_id).concat("'"),
            ),
        ),
        Ok(Some(TaskStatus::Failed { error })) => Err(mcp_research_failed(error)),
        Ok(Some(status)) => Ok(status),
    }
}

/// The reply to a poll is where the task stands: a question that was taken waits, then runs, and
/// once it is answered the reply is done, with the answer, its links made. A task that failed is
/// told with its error, and a task that is not there is told as unknown.
pub proof fn polls_are_told_where_the_task_stands(
    tasks: Tasks,
    id: Seq<char>,
    question: Seq<char>,
    answer: Seq<char>,
    error: Seq<char>,
    now: Duration,
    name: Seq<char>,
    path: Seq<char>,
    wiki_dir: Seq<char>,
    found: Option<Listing>,
)
    requires
        names::local_path_check(path) is Ok,
    ensures
        ({
            let reply = |tasks: Tasks|
                polled(tasks, id, name, Some(path), Ok(()), wiki_dir, found);
            let asked = queue::waiting(queue::recorded(tasks, id, question), id);
            let running = queue::started(asked, id);
            let done = queue::finished(running, id, TaskStatus::Done { answer }, now);
            let failed = queue::finished(running, id, TaskStatus::Failed { error }, now);
            &&& reply(asked) == Ok::<_, Fault>(TaskStatus::<Seq<char>>::Queued)
            &&& reply(running) == Ok::<_, Fault>(TaskStatus::<Seq<char>>::Running)
            &&& reply(done) == Ok::<_, Fault>(
                TaskStatus::Done { answer: rewrite::rewritten(answer, wiki_dir, found, path) },
            )
            &&& reply(failed) == Err::<TaskStatus<Seq<char>>, Fault>(
                McpError::Internal("research failed: "@ + error),
            )
            &&& !tasks.table.contains_key(id) ==> reply(tasks) == Err::<
                TaskStatus<Seq<char>>,
                Fault,
            >(McpError::ResourceNotFound("unknown task_id '"@ + id + "'"@))
        }),
{
}

/// The reply to a poll of a task, with the path that its links are to lead into, given how making
/// the published wiki ready ended and what was found in its directory.
pub open spec fn polled(
    tasks: Tasks,
    id: Seq<char>,
    name: Seq<char>,
    local_path: Option<Seq<char>>,
    prepared: Result<(), research_task::Fault>,
    wiki_dir: Seq<char>,
    found: Option<Listing>,
) -> Result<TaskStatus<Seq<char>>, Fault> {
    match surface::poll_of(surface::status_in(tasks, id), name, local_path) {
        Ok(poll) => poll_reply(id, surface::poll_report(poll, prepared, wiki_dir, found)),
        Err(e) => poll_reply(id, Err(e)),
    }
}

/// A poll for an answer is refused where the path for its links is none, or the published wiki could
/// not be made ready; without a path the links lead into the path that belongs to the wiki's name.
pub proof fn answers_are_polled_with_a_path(
    tasks: Tasks,
    id: Seq<char>,
    answer: Seq<char>,
    name: Seq<char>,
    path: Seq<char>,
    failure: research_task::Fault,
    wiki_dir: Seq<char>,
    found: Option<Listing>,
)
    requires
        tasks.table.contains_key(id),
        tasks.table[id].status == (TaskStatus::Done { answer }),
        names::local_path_check(path) is Err,
    ensures
        polled(tasks, id, name, Some(path), Ok(()), wiki_dir, found) == Err::<
            TaskStatus<Seq<char>>,
            Fault,
        >(
            McpError::InvalidParams(
                "invalid local_path: "@ + names::local_path_check(path)->Err_0.says(),
            ),
        ),
        polled(tasks, id, name, None, Ok(()), wiki_dir, found) == Ok::<_, Fault>(
            TaskStatus::Done {
                answer: rewrite::rewritten(
                    answer,
                    wiki_dir,
                    found,
                    if name == "default"@ {
                        "wiki"@
                    } else {
                        "wiki-"@ + name
                    },
                ),
            },
        ),
        polled(tasks, id, name, None, Err(failure), wiki_dir, found) == Err::<
            TaskStatus<Seq<char>>,
            Fault,
        >(McpError::Internal(failure.says())),
{
}

/// What a refusal of the surface is told as: a path that may not be one is the caller's fault,
/// everything else is the server's.
pub proof fn refusals_are_told(
    path: names::LocalPathError<Seq<char>>,
    message: Seq<char>,
    full: QueueFullError,
    failure: research_task::Fault,
)
    ensures
        surface_fault(SurfaceError::InvalidLocalPath(path)) == McpError::InvalidParams(
            "invalid local_path: "@ + path.says(),
        ),
        surface_fault(SurfaceError::QueueFull(full)) == McpError::Internal(
            "research queue is full"@,
        ),
        surface_fault(SurfaceError::MissingTask) == McpError::Internal("task disappeared"@),
        surface_fault(SurfaceError::ResearchFailed(message)) == McpError::Internal(
            "research failed: "@ + message,
        ),
        surface_fault(SurfaceError::UnexpectedTaskState) == McpError::Internal(
            "unexpected task state"@,
        ),
        surface_fault(SurfaceError::RewriteJoin(message)) == McpError::Internal(
            "wikilink rewrite task failed"@,
        ),
        surface_fault(SurfaceError::ResearchTask(failure)) == McpError::Internal(failure.says()),
{
}

/// A question that was taken is told the id of its task, and one that was not that the queue is
/// full. The tool for questions is described for every wiki first, then for this one.
pub proof fn questions_are_told_their_task(id: Seq<char>, base: Seq<char>, own: Seq<char>)
    ensures
        submission_reply(Some(id)) == Ok::<_, Fault>(id),
        submission_reply(None) == Err::<Seq<char>, Fault>(
            McpError::Internal("research queue is full"@),
        ),
        tool_description(base, own) == base + "\n\n"@ + own,
        failure_reply(own) == McpError::Internal("research failed: "@ + own),
{
}

} // verus!
