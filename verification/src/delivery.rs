//! The delivery of a finished task's answer.

use vstd::prelude::*;

use crate::paths;
use crate::queue::TaskStatus;
use crate::rewrite;
use crate::sync::tree::Listing;
use crate::views;

verus! {

/// Why no answer is delivered.
#[derive(Debug, PartialEq, Eq)]
pub enum DeliveryError<S = String> {
    MissingTask,
    ResearchFailed(S),
    UnexpectedState,
    RewriteJoin(S),
}

/// A refusal by its views.
pub type Fault = DeliveryError<Seq<char>>;

impl DeepView for DeliveryError<String> {
    type V = DeliveryError<Seq<char>>;

    open spec fn deep_view(&self) -> DeliveryError<Seq<char>> {
        match self {
            DeliveryError::MissingTask => DeliveryError::MissingTask,
            DeliveryError::ResearchFailed(error) => DeliveryError::ResearchFailed(error@),
            DeliveryError::UnexpectedState => DeliveryError::UnexpectedState,
            DeliveryError::RewriteJoin(error) => DeliveryError::RewriteJoin(error@),
        }
    }
}

impl DeliveryError<Seq<char>> {
    /// What the refusal says.
    pub open spec fn says(self) -> Seq<char> {
        match self {
            DeliveryError::MissingTask => "task disappeared"@,
            DeliveryError::ResearchFailed(error) => "research failed: "@ + error,
            DeliveryError::UnexpectedState => "unexpected task state"@,
            DeliveryError::RewriteJoin(error) => "wikilink rewrite task failed: "@ + error,
        }
    }
}

impl DeliveryError {
    /// The message of the refusal.
    pub fn message(&self) -> (res: String)
        ensures
            res@ == self.deep_view().says(),
    {
        match self {
            DeliveryError::MissingTask => "task disappeared".to_string(),
            DeliveryError::ResearchFailed(error) => "research failed: ".to_string().concat(
                error.as_str(),
            ),
            DeliveryError::UnexpectedState => "unexpected task state".to_string(),
            DeliveryError::RewriteJoin(error) => "wikilink rewrite task failed: ".to_string().concat(
                error.as_str(),
            ),
        }
    }
}

/// An answer with its links into the pages of a repository.
pub open spec fn with_links(
    answer: Seq<char>,
    wiki_repo: Seq<char>,
    found: Option<Listing>,
    prefix: Seq<char>,
) -> Seq<char> {
    rewrite::rewritten(answer, paths::join_path(wiki_repo, "wiki"@), found, prefix)
}

/// What is delivered of a task.
pub open spec fn delivery(
    status: Option<TaskStatus<Seq<char>>>,
    wiki_repo: Seq<char>,
    found: Option<Listing>,
    prefix: Seq<char>,
) -> Result<Seq<char>, Fault> {
    match status {
        None => Err(DeliveryError::MissingTask),
        Some(TaskStatus::Done { answer }) => Ok(with_links(answer, wiki_repo, found, prefix)),
        Some(TaskStatus::Failed { error }) => Err(DeliveryError::ResearchFailed(error)),
        Some(TaskStatus::Queued) | Some(TaskStatus::Running) => Err(DeliveryError::UnexpectedState),
    }
}

/// What is delivered of a task, given what was found in the repository's directory of pages.
pub fn deliver_answer(
    status: Option<TaskStatus>,
    wiki_repo: &str,
    found: &Option<Listing>,
    link_prefix: &str,
) -> (res: Result<String, DeliveryError>)
    ensures
        views::outcome(res) == delivery(status.deep_view(), wiki_repo@, *found, link_prefix@),
{
    match status {
        None => Err(DeliveryError::MissingTask),
        Some(TaskStatus::Done { answer }) => Ok(
            render_wikilinks(answer.as_str(), wiki_repo, found, link_prefix),
        ),
        Some(TaskStatus::Failed { error }) => Err(DeliveryError::ResearchFailed(error)),
        Some(TaskStatus::Queued) | Some(TaskStatus::Running) => Err(DeliveryError::UnexpectedState),
    }
}

/// An answer with its links into the pages of a repository.
pub fn render_wikilinks(
    answer: &str,
    wiki_repo: &str,
    found: &Option<Listing>,
    link_prefix: &str,
) -> (res: String)
    ensures
        res@ == with_links(answer@, wiki_repo@, *found, link_prefix@),
{
    rewrite::rewrite_wikilinks(
        answer,
        paths::join(wiki_repo, "wiki").as_str(),
        found,
        link_prefix,
    )
}

/// What is delivered of a task: an answer with its links to the pages in the repository's directory
/// `wiki`; what failed is told as it failed, and a task that is not over is told as such.
pub proof fn finished_tasks_are_delivered(
    answer: Seq<char>,
    error: Seq<char>,
    repo: Seq<char>,
    found: Option<Listing>,
    prefix: Seq<char>,
)
    requires
        repo.len() > 0,
        repo.last() != '/',
    ensures
        delivery(Some(TaskStatus::Done { answer }), repo, found, prefix) == Ok::<_, Fault>(
            rewrite::rewritten(answer, repo + "/wiki"@, found, prefix),
        ),
        delivery(Some(TaskStatus::Failed { error }), repo, found, prefix) == Err::<Seq<char>, _>(
            DeliveryError::ResearchFailed(error),
        ),
        delivery(None, repo, found, prefix) == Err::<Seq<char>, Fault>(DeliveryError::MissingTask),
        delivery(Some(TaskStatus::Queued), repo, found, prefix) == Err::<Seq<char>, Fault>(
            DeliveryError::UnexpectedState,
        ),
        delivery(Some(TaskStatus::Running), repo, found, prefix) == Err::<Seq<char>, Fault>(
            DeliveryError::UnexpectedState,
        ),
        with_links(answer, repo, found, prefix) == rewrite::rewritten(
            answer,
            repo + "/wiki"@,
            found,
            prefix,
        ),
{
    reveal_strlit("wiki");
    reveal_strlit("/wiki");
    reveal_strlit("/");
    paths::paths_are_taken_from_directories(repo, "wiki"@);
    assert(repo + "/"@ + "wiki"@ =~= repo + "/wiki"@);
}

/// What is said where no answer is delivered.
pub proof fn refused_deliveries_are_told(message: Seq<char>)
    ensures
        DeliveryError::<Seq<char>>::MissingTask.says() == "task disappeared"@,
        DeliveryError::ResearchFailed(message).says() == "research failed: "@ + message,
        DeliveryError::<Seq<char>>::UnexpectedState.says() == "unexpected task state"@,
        DeliveryError::RewriteJoin(message).says() == "wikilink rewrite task failed: "@ + message,
{
}

} // verus!
