//! Research in a Jujutsu repository: isolated workspaces, merges into `main`, and Git remotes.

use vstd::prelude::*;

use crate::research_task;
use crate::runner::RunnerError;
use crate::text;

pub mod command;
pub mod lineage;
pub mod outcome;
pub mod publication;
pub mod readiness;
pub mod remote_lineage;
pub mod safety;
pub mod watch;
pub mod workflow;
pub mod workspace;

verus! {

/// Why a step in a Jujutsu repository failed.
#[derive(Debug, PartialEq, Eq)]
#[non_exhaustive]
pub enum Error<S = String> {
    NotJjWorkspace(S),
    CreateDir { path: S, reason: S },
    RemoveDir { path: S, reason: S },
    Spawn(S),
    JjCommand { repo: S, args: S, stderr: S },
    UnexpectedOutput { op: S, output: S },
    PublishedDirty { repo: S, summary: S },
    AgentNoOutput,
    UnresolvedConflicts { files: S },
    Runner(RunnerError<S>),
}

impl DeepView for Error<String> {
    type V = Error<Seq<char>>;

    open spec fn deep_view(&self) -> Error<Seq<char>> {
        match self {
            Error::NotJjWorkspace(path) => Error::NotJjWorkspace(path@),
            Error::CreateDir { path, reason } => Error::CreateDir { path: path@, reason: reason@ },
            Error::RemoveDir { path, reason } => Error::RemoveDir { path: path@, reason: reason@ },
            Error::Spawn(reason) => Error::Spawn(reason@),
            Error::JjCommand { repo, args, stderr } => Error::JjCommand {
                repo: repo@,
                args: args@,
                stderr: stderr@,
            },
            Error::UnexpectedOutput { op, output } => Error::UnexpectedOutput {
                op: op@,
                output: output@,
            },
            Error::PublishedDirty { repo, summary } => Error::PublishedDirty {
                repo: repo@,
                summary: summary@,
            },
            Error::AgentNoOutput => Error::AgentNoOutput,
            Error::UnresolvedConflicts { files } => Error::UnresolvedConflicts { files: files@ },
            Error::Runner(error) => Error::Runner(error.deep_view()),
        }
    }
}

impl Clone for Error<String> {
    fn clone(&self) -> (res: Self)
        ensures
            res == *self,
    {
        match self {
            Error::NotJjWorkspace(path) => Error::NotJjWorkspace(path.clone()),
            Error::CreateDir { path, reason } => Error::CreateDir {
                path: path.clone(),
                reason: reason.clone(),
            },
            Error::RemoveDir { path, reason } => Error::RemoveDir {
                path: path.clone(),
                reason: reason.clone(),
            },
            Error::Spawn(reason) => Error::Spawn(reason.clone()),
            Error::JjCommand { repo, args, stderr } => Error::JjCommand {
                repo: repo.clone(),
                args: args.clone(),
                stderr: stderr.clone(),
            },
            Error::UnexpectedOutput { op, output } => Error::UnexpectedOutput {
                op: op.clone(),
                output: output.clone(),
            },
            Error::PublishedDirty { repo, summary } => Error::PublishedDirty {
                repo: repo.clone(),
                summary: summary.clone(),
            },
            Error::AgentNoOutput => Error::AgentNoOutput,
            Error::UnresolvedConflicts { files } => Error::UnresolvedConflicts {
                files: files.clone(),
            },
            Error::Runner(error) => Error::Runner(error.clone()),
        }
    }
}

impl Error<Seq<char>> {
    /// What the error says.
    pub open spec fn says(self) -> Seq<char> {
        match self {
            Error::NotJjWorkspace(path) => "wiki repo '"@ + path + "' is not a jj workspace"@,
            Error::CreateDir { path, reason: _ } => "failed to create directory '"@ + path + "'"@,
            Error::RemoveDir { path, reason: _ } => "failed to remove directory '"@ + path + "'"@,
            Error::Spawn(_) => "failed to spawn jj"@,
            Error::JjCommand { repo, args, stderr } => "jj command failed in '"@ + repo + "': jj "@
                + args + "\n"@ + stderr,
            Error::UnexpectedOutput { op, output } => "unexpected jj output while "@ + op + ": "@
                + text::quoted(output),
            Error::PublishedDirty { repo, summary } => "published wiki workspace '"@ + repo
                + "' has local edits; commit, move, or discard them first\n"@ + summary,
            Error::AgentNoOutput => "agent produced no output"@,
            Error::UnresolvedConflicts { files } => "merge conflicts remain after resolver\n"@
                + files,
            Error::Runner(error) => error.says(),
        }
    }
}

impl Error {
    /// The message of the error.
    pub fn message(&self) -> (res: String)
        ensures
            res@ == self.deep_view().says(),
    {
        match self {
            Error::NotJjWorkspace(path) => "wiki repo '".to_string().concat(path.as_str()).concat(
                "' is not a jj workspace",
            ),
            Error::CreateDir { path, reason: _ } => "failed to create directory '".to_string().concat(
                path.as_str(),
            ).concat("'"),
            Error::RemoveDir { path, reason: _ } => "failed to remove directory '".to_string().concat(
                path.as_str(),
            ).concat("'"),
            Error::Spawn(_) => "failed to spawn jj".to_string(),
            Error::JjCommand { repo, args, stderr } => "jj command failed in '".to_string().concat(
                repo.as_str(),
            ).concat("': jj ").concat(args.as_str()).concat("\n").concat(stderr.as_str()),
            Error::UnexpectedOutput { op, output } => "unexpected jj output while ".to_string().concat(
                op.as_str(),
            ).concat(": ").concat(text::quoted_text(output.as_str()).as_str()),
            Error::PublishedDirty { repo, summary } => "published wiki workspace '".to_string().concat(
                repo.as_str(),
            ).concat("' has local edits; commit, move, or discard them first\n").concat(
                summary.as_str(),
            ),
            Error::AgentNoOutput => "agent produced no output".to_string(),
            Error::UnresolvedConflicts {
                files,
            } => "merge conflicts remain after resolver\n".to_string().concat(files.as_str()),
            Error::Runner(error) => error.message(),
        }
    }

    /// Whether a synchronisation with the remote is worth another try: a failed command may
    /// succeed later, nothing else is helped by waiting.
    pub fn is_retryable_remote_sync(&self) -> (res: bool)
        ensures
            res == (self is JjCommand),
    {
        match self {
            Error::JjCommand { .. } => true,
            _ => false,
        }
    }
}

/// The resolution notes worth recording: trimmed, and none where they are blank.
pub open spec fn noted(notes: Option<Seq<char>>) -> Option<Seq<char>> {
    match notes {
        Some(notes) => if text::is_blank(notes) {
            None
        } else {
            Some(text::trim(notes))
        },
        None => None,
    }
}

/// A commit description: a headline, and the resolution notes where there are any.
pub open spec fn described(headline: Seq<char>, notes: Option<Seq<char>>) -> Seq<char> {
    match noted(notes) {
        Some(notes) => headline + "\n\nResolution:\n"@ + notes,
        None => headline,
    }
}

fn describe_text(headline: String, notes: Option<&str>) -> (res: String)
    ensures
        res@ == described(headline@, notes.deep_view()),
{
    match notes {
        Some(notes) => if text::blank(notes) {
            headline
        } else {
            headline.concat("\n\nResolution:\n").concat(text::trimmed(notes).as_str())
        },
        None => headline,
    }
}

/// The description of the commit that holds the changes of a research task.
pub open spec fn research_message_of(task_id: Seq<char>, question: Seq<char>) -> Seq<char> {
    "wikidesk research: "@ + research_task::title_of(question) + "\n\nTask: "@ + task_id + "\n\n"@
        + text::trim(question)
}

/// The description of a research commit.
pub fn research_message(task_id: &str, question: &str) -> (res: String)
    ensures
        res@ == research_message_of(task_id@, question@),
{
    "wikidesk research: ".to_string().concat(
        research_task::question_title(question).as_str(),
    ).concat("\n\nTask: ").concat(task_id).concat("\n\n").concat(text::trimmed(question).as_str())
}

/// The description of the commit that merges a research task into `main`.
pub open spec fn merge_message_of(task_id: Seq<char>, notes: Option<Seq<char>>) -> Seq<char> {
    described("wikidesk merge: "@ + task_id, notes)
}

/// The description of a merge commit.
pub fn merge_message(task_id: &str, notes: Option<&str>) -> (res: String)
    ensures
        res@ == merge_message_of(task_id@, notes.deep_view()),
{
    describe_text("wikidesk merge: ".to_string().concat(task_id), notes)
}

/// The prompt for the agent that resolves the conflicts of a merge.
pub open spec fn merge_prompt_of(
    task_id: Seq<char>,
    question: Seq<char>,
    conflicts: Seq<char>,
) -> Seq<char> {
    "You are resolving a wikidesk jj merge for task "@ + task_id
        + ".\n\nThe current workspace is a jj merge commit. Resolve all conflicts in this wiki repo. Preserve both sides where possible, keep the wiki coherent, and edit only files in this repo. When finished, return concise resolution notes.\n\nOriginal research question:\n"@
        + question + "\n\nConflicted files:\n"@ + conflicts
}

/// The prompt for the agent that resolves the conflicts of a merge.
pub fn merge_prompt(task_id: &str, question: &str, conflicts: &str) -> (res: String)
    ensures
        res@ == merge_prompt_of(task_id@, question@, conflicts@),
{
    "You are resolving a wikidesk jj merge for task ".to_string().concat(task_id).concat(
        ".\n\nThe current workspace is a jj merge commit. Resolve all conflicts in this wiki repo. Preserve both sides where possible, keep the wiki coherent, and edit only files in this repo. When finished, return concise resolution notes.\n\nOriginal research question:\n",
    ).concat(question).concat("\n\nConflicted files:\n").concat(conflicts)
}

/// The description of the commit that merges a remote's `main`.
pub open spec fn remote_sync_message_of(remote: Seq<char>, notes: Option<Seq<char>>) -> Seq<char> {
    described("wikidesk remote sync: "@ + remote + "/main"@, notes)
}

/// The description of a remote merge commit.
pub fn remote_sync_message(remote: &str, notes: Option<&str>) -> (res: String)
    ensures
        res@ == remote_sync_message_of(remote@, notes.deep_view()),
{
    describe_text(
        "wikidesk remote sync: ".to_string().concat(remote).concat("/main"),
        notes,
    )
}

/// The prompt for the agent that resolves the conflicts with a remote's `main`.
pub open spec fn remote_sync_prompt_of(remote: Seq<char>, conflicts: Seq<char>) -> Seq<char> {
    "You are resolving a wikidesk jj remote sync merge.\n\nThe current workspace merges local main with fetched "@
        + remote
        + "/main. Resolve all conflicts in this wiki repo. Preserve both sides where possible, keep the wiki coherent, and edit only files in this repo. When finished, return concise resolution notes.\n\nConflicted files:\n"@
        + conflicts
}

/// The prompt for the agent that resolves the conflicts with a remote's `main`.
pub fn remote_sync_prompt(remote: &str, conflicts: &str) -> (res: String)
    ensures
        res@ == remote_sync_prompt_of(remote@, conflicts@),
{
    "You are resolving a wikidesk jj remote sync merge.\n\nThe current workspace merges local main with fetched ".to_string().concat(
    remote).concat(
        "/main. Resolve all conflicts in this wiki repo. Preserve both sides where possible, keep the wiki coherent, and edit only files in this repo. When finished, return concise resolution notes.\n\nConflicted files:\n",
    ).concat(conflicts)
}

/// The revisions that are heads of the local and the remote `main`.
pub open spec fn remote_heads_of(remote: Seq<char>) -> Seq<char> {
    "heads(main | main@"@ + remote + ")"@
}

/// The revisions that are heads of the local and the remote `main`.
pub fn remote_heads_revset(remote: &str) -> (res: String)
    ensures
        res@ == remote_heads_of(remote@),
{
    "heads(main | main@".to_string().concat(remote).concat(")")
}

/// What a merge is for.
#[derive(Debug, PartialEq, Eq)]
pub enum MergeKind<S = String> {
    Research { task_id: S, question: S },
    RemoteSync { remote: S },
}

impl DeepView for MergeKind<String> {
    type V = MergeKind<Seq<char>>;

    open spec fn deep_view(&self) -> MergeKind<Seq<char>> {
        match self {
            MergeKind::Research { task_id, question } => MergeKind::Research {
                task_id: task_id@,
                question: question@,
            },
            MergeKind::RemoteSync { remote } => MergeKind::RemoteSync { remote: remote@ },
        }
    }
}

impl MergeKind<Seq<char>> {
    /// The description of the merge commit.
    pub open spec fn message_of(self, notes: Option<Seq<char>>) -> Seq<char> {
        match self {
            MergeKind::Research { task_id, question: _ } => merge_message_of(task_id, notes),
            MergeKind::RemoteSync { remote } => remote_sync_message_of(remote, notes),
        }
    }

    /// The prompt for the agent that resolves the conflicts.
    pub open spec fn prompt_of(self, conflicts: Seq<char>) -> Seq<char> {
        match self {
            MergeKind::Research { task_id, question } => merge_prompt_of(
                task_id,
                question,
                conflicts,
            ),
            MergeKind::RemoteSync { remote } => remote_sync_prompt_of(remote, conflicts),
        }
    }
}

impl MergeKind {
    /// The description of the merge commit.
    pub fn message(&self, notes: Option<&str>) -> (res: String)
        ensures
            res@ == self.deep_view().message_of(notes.deep_view()),
    {
        match self {
            MergeKind::Research { task_id, question: _ } => merge_message(task_id.as_str(), notes),
            MergeKind::RemoteSync { remote } => remote_sync_message(remote.as_str(), notes),
        }
    }

    /// The prompt for the agent that resolves the conflicts.
    pub fn prompt(&self, conflicts: &str) -> (res: String)
        ensures
            res@ == self.deep_view().prompt_of(conflicts@),
    {
        match self {
            MergeKind::Research { task_id, question } => merge_prompt(
                task_id.as_str(),
                question.as_str(),
                conflicts,
            ),
            MergeKind::RemoteSync { remote } => remote_sync_prompt(remote.as_str(), conflicts),
        }
    }
}

/// What the descriptions of commits say: a headline that names the task or the remote, and behind it
/// the notes of whoever resolved conflicts, without the white space around them, unless there are
/// none.
pub proof fn commits_are_described(
    id: Seq<char>,
    question: Seq<char>,
    remote: Seq<char>,
    notes: Seq<char>,
    blank: Option<Seq<char>>,
)
    requires
        !text::is_blank(notes),
        blank matches Some(b) ==> text::is_blank(b),
    ensures
        research_message_of(id, question) == "wikidesk research: "@ + research_task::title_of(
            question,
        ) + "\n\nTask: "@ + id + "\n\n"@ + text::trim(question),
        (MergeKind::Research { task_id: id, question }).message_of(blank) == "wikidesk merge: "@ + id,
        (MergeKind::Research { task_id: id, question }).message_of(Some(notes))
            == "wikidesk merge: "@ + id + "\n\nResolution:\n"@ + text::trim(notes),
        (MergeKind::RemoteSync { remote }).message_of(blank) == "wikidesk remote sync: "@ + remote
            + "/main"@,
        (MergeKind::RemoteSync { remote }).message_of(Some(notes)) == "wikidesk remote sync: "@
            + remote + "/main"@ + "\n\nResolution:\n"@ + text::trim(notes),
{
}

/// What an agent is asked that resolves conflicts: the task with its question, or the remote, and
/// the files with conflicts.
pub proof fn resolvers_are_told_the_conflicts(
    id: Seq<char>,
    question: Seq<char>,
    remote: Seq<char>,
    conflicts: Seq<char>,
)
    ensures
        (MergeKind::Research { task_id: id, question }).prompt_of(conflicts)
            == "You are resolving a wikidesk jj merge for task "@ + id
            + ".\n\nThe current workspace is a jj merge commit. Resolve all conflicts in this wiki repo. Preserve both sides where possible, keep the wiki coherent, and edit only files in this repo. When finished, return concise resolution notes.\n\nOriginal research question:\n"@
            + question + "\n\nConflicted files:\n"@ + conflicts,
        (MergeKind::RemoteSync { remote }).prompt_of(conflicts)
            == "You are resolving a wikidesk jj remote sync merge.\n\nThe current workspace merges local main with fetched "@
            + remote
            + "/main. Resolve all conflicts in this wiki repo. Preserve both sides where possible, keep the wiki coherent, and edit only files in this repo. When finished, return concise resolution notes.\n\nConflicted files:\n"@
            + conflicts,
        remote_heads_of(remote) == "heads(main | main@"@ + remote + ")"@,
{
}

/// What is said of a failed step.
pub proof fn failed_steps_are_told(
    path: Seq<char>,
    text: Seq<char>,
    more: Seq<char>,
    runner: RunnerError<Seq<char>>,
)
    ensures
        Error::NotJjWorkspace(path).says() == "wiki repo '"@ + path + "' is not a jj workspace"@,
        (Error::CreateDir { path, reason: text }).says() == "failed to create directory '"@ + path
            + "'"@,
        (Error::RemoveDir { path, reason: text }).says() == "failed to remove directory '"@ + path
            + "'"@,
        Error::Spawn(text).says() == "failed to spawn jj"@,
        (Error::JjCommand { repo: path, args: text, stderr: more }).says()
            == "jj command failed in '"@ + path + "': jj "@ + text + "\n"@ + more,
        (Error::UnexpectedOutput { op: path, output: text }).says()
            == "unexpected jj output while "@ + path + ": "@ + text::quoted(text),
        (Error::PublishedDirty { repo: path, summary: text }).says()
            == "published wiki workspace '"@ + path
            + "' has local edits; commit, move, or discard them first\n"@ + text,
        Error::<Seq<char>>::AgentNoOutput.says() == "agent produced no output"@,
        (Error::UnresolvedConflicts { files: text }).says()
            == "merge conflicts remain after resolver\n"@ + text,
        Error::Runner(runner).says() == runner.says(),
{
}

} // verus!
