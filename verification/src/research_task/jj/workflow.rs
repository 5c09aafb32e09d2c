//! The flows of a wiki in a Jujutsu repository: start, research, and synchronisation with a remote.

use vstd::prelude::*;

use crate::config::GitSyncConfig;
use crate::paths;
use crate::flow;
use crate::flow::{Program, Status};
use crate::research_task::jj;
use crate::research_task::jj::command;
use crate::research_task::jj::command::JjCall;
use crate::research_task::jj::workspace;
use crate::research_task::jj::workspace::OwnedWorkspace;
use crate::research_task::jj::{Error, MergeKind};
use crate::research_task::published;
use crate::research_task::published::PublishedWikiRepo;
use crate::research_task::steps;
use crate::research_task::steps::{Action, Fault, Lock, Log, Stepped, Steps, Tries};
use crate::text;
use crate::views;

verus! {

/// What the agent has left in its workspace: an answer, and a commit where it changed pages.
#[derive(Debug, PartialEq, Eq)]
pub enum Staged<S = String> {
    Unchanged { answer: S },
    Changed { answer: S, rev: S, parent: S },
}

impl DeepView for Staged<String> {
    type V = Staged<Seq<char>>;

    open spec fn deep_view(&self) -> Staged<Seq<char>> {
        match self {
            Staged::Unchanged { answer } => Staged::Unchanged { answer: answer@ },
            Staged::Changed { answer, rev, parent } => Staged::Changed {
                answer: answer@,
                rev: rev@,
                parent: parent@,
            },
        }
    }
}

/// How an integration into `main` ended, and whether it opened a merge workspace.
#[derive(Debug, PartialEq, Eq)]
pub struct Integrated<E = Error> {
    pub outcome: Result<(), E>,
    pub merging: bool,
}

impl DeepView for Integrated<Error> {
    type V = Integrated<Error<Seq<char>>>;

    open spec fn deep_view(&self) -> Integrated<Error<Seq<char>>> {
        Integrated { outcome: views::outcome(self.outcome), merging: self.merging }
    }
}

/// What a fetch found: `main` before and after it, where they could be read, and the heads of the
/// local and the remote `main`.
#[derive(Debug, PartialEq, Eq)]
pub struct Fetched<S = String, L = Vec<String>> {
    pub old_main: Option<S>,
    pub current_main: Option<S>,
    pub heads: L,
}

impl DeepView for Fetched<String, Vec<String>> {
    type V = Fetched<Seq<char>, Seq<Seq<char>>>;

    open spec fn deep_view(&self) -> Fetched<Seq<char>, Seq<Seq<char>>> {
        Fetched {
            old_main: self.old_main.deep_view(),
            current_main: self.current_main.deep_view(),
            heads: self.heads.deep_view(),
        }
    }
}

/// The flows of a wiki in a Jujutsu repository.
#[derive(Debug, PartialEq, Eq)]
pub struct Workflow<S = String> {
    /// The wiki's name.
    pub wiki: S,
    /// The wiki's repository, whose default workspace is the published one.
    pub wiki_repo: S,
    /// The directory that holds the workspaces which the flows create.
    pub workspace_root: S,
}

impl DeepView for Workflow<String> {
    type V = Workflow<Seq<char>>;

    open spec fn deep_view(&self) -> Workflow<Seq<char>> {
        Workflow {
            wiki: self.wiki@,
            wiki_repo: self.wiki_repo@,
            workspace_root: self.workspace_root@,
        }
    }
}

/// Removes a workspace's directory where one is left over.
pub open spec fn clearing(ws: OwnedWorkspace<Seq<char>>) -> Tries<()> {
    steps::plain(Action::RemoveDir { path: ws.path })
}

/// Creates the directory above a path.
pub open spec fn parents(path: Seq<char>) -> Tries<()> {
    match paths::parent_of(path) {
        Some(parent) => steps::plain(Action::CreateDir { path: parent }),
        None => steps::done(),
    }
}

/// Resolves the conflicts of a merge workspace: the agent is asked where there are any, and its
/// notes become part of the commit's description. Conflicts that are left fail the flow.
pub open spec fn resolution(dir: Seq<char>, kind: MergeKind<Seq<char>>) -> Tries<()> {
    steps::attempt(
        steps::jj(dir, JjCall::UnresolvedConflicts),
        |conflicts: Seq<char>|
            if text::is_blank(conflicts) {
                steps::done()
            } else {
                steps::attempt(
                    steps::agent(kind.prompt_of(conflicts), dir),
                    |answer: Option<Seq<char>>|
                        steps::attempt(
                            steps::jj_do(dir, JjCall::Snapshot),
                            |u: ()|
                                steps::attempt(
                                    steps::jj(dir, JjCall::UnresolvedConflicts),
                                    |files: Seq<char>|
                                        if !text::is_blank(files) {
                                            steps::fail(Error::UnresolvedConflicts { files })
                                        } else {
                                            recording(dir, kind, answer)
                                        },
                                ),
                        ),
                )
            },
    )
}

/// Records the resolver's notes in the commit's description, unless they are blank.
pub open spec fn recording(
    dir: Seq<char>,
    kind: MergeKind<Seq<char>>,
    answer: Option<Seq<char>>,
) -> Tries<()> {
    match answer {
        Some(notes) => if text::is_blank(notes) {
            steps::done()
        } else {
            steps::jj_do(dir, JjCall::Describe { message: kind.message_of(Some(notes)) })
        },
        None => steps::done(),
    }
}

impl Workflow<Seq<char>> {
    /// Opens the workspace in which a task is researched, on top of `main`.
    pub open spec fn research_opening(self, ws: OwnedWorkspace<Seq<char>>) -> Tries<()> {
        steps::attempt(
            clearing(ws),
            |u: ()|
                steps::attempt(
                    parents(ws.path),
                    |u: ()|
                        steps::jj_do(
                            self.wiki_repo,
                            JjCall::AddFromMain { name: ws.name, path: ws.path },
                        ),
                ),
        )
    }

    /// Forgets a workspace and removes its directory, whatever comes of either.
    pub open spec fn discarding<T>(self, ws: OwnedWorkspace<Seq<char>>, next: Steps<T>) -> Steps<
        T,
    > {
        steps::quietly(
            Action::Jj {
                repo: self.wiki_repo,
                call: JjCall::ForgetWorkspace { name: ws.name },
            },
            steps::quietly(Action::RemoveDir { path: ws.path }, next),
        )
    }

    /// Merges revisions in a workspace of their own and publishes the result.
    pub open spec fn merging(
        self,
        published: PublishedWikiRepo<Seq<char>>,
        ws: OwnedWorkspace<Seq<char>>,
        revs: Seq<Seq<char>>,
        kind: MergeKind<Seq<char>>,
    ) -> Tries<()> {
        steps::attempt(
            clearing(ws),
            |u: ()|
                steps::attempt(
                    parents(ws.path),
                    |u: ()|
                        steps::attempt(
                            steps::jj_do(
                                self.wiki_repo,
                                JjCall::AddMerge {
                                    name: ws.name,
                                    revs,
                                    message: kind.message_of(None),
                                    path: ws.path,
                                },
                            ),
                            |u: ()|
                                steps::attempt(
                                    resolution(ws.path, kind),
                                    |u: ()| published.publication(ws.path, "@"@),
                                ),
                        ),
                ),
        )
    }

    /// Lets the agent research a question in a workspace of its own, and commits its changes.
    pub open spec fn staging(
        self,
        prompt: Seq<char>,
        task_id: Seq<char>,
        question: Seq<char>,
    ) -> Tries<Staged<Seq<char>>> {
        let ws = workspace::research_workspace(self.workspace_root, task_id);
        steps::attempt(
            self.research_opening(ws),
            |u: ()|
                steps::attempt(
                    steps::agent(prompt, ws.path),
                    |answer: Option<Seq<char>>|
                        match answer {
                            None => steps::fail(Error::AgentNoOutput),
                            Some(answer) => steps::attempt(
                                steps::jj_do(ws.path, JjCall::Snapshot),
                                |u: ()|
                                    steps::attempt(
                                        steps::jj(ws.path, JjCall::DiffSummary),
                                        |summary: Seq<char>|
                                            if text::is_blank(summary) {
                                                Program::Return(Ok(Staged::Unchanged { answer }))
                                            } else {
                                                committing(ws.path, answer, task_id, question)
                                            },
                                    ),
                            ),
                        },
                ),
        )
    }

    /// Brings a research commit into `main`: as it is where `main` has not moved on, else by a
    /// merge.
    pub open spec fn integration(
        self,
        published: PublishedWikiRepo<Seq<char>>,
        task_id: Seq<char>,
        question: Seq<char>,
        rev: Seq<char>,
        parent: Seq<char>,
    ) -> Steps<Integrated<Fault>> {
        flow::bind(
            published::commit_id(self.wiki_repo, "main"@, "reading main bookmark"@),
            |main: Result<Seq<char>, Fault>|
                match main {
                    Err(e) => Program::Return(Integrated { outcome: Err(e), merging: false }),
                    Ok(main) => if main == parent {
                        flow::bind(
                            published.publication(
                                workspace::research_workspace(self.workspace_root, task_id).path,
                                "@"@,
                            ),
                            |outcome: Result<(), Fault>|
                                Program::Return(Integrated { outcome, merging: false }),
                        )
                    } else {
                        flow::bind(
                            self.merging(
                                published,
                                workspace::merge_workspace(self.workspace_root, task_id),
                                seq!["main"@, rev],
                                MergeKind::Research { task_id, question },
                            ),
                            |outcome: Result<(), Fault>|
                                Program::Return(Integrated { outcome, merging: true }),
                        )
                    },
                },
        )
    }

    /// What follows the agent's work: integration where it changed pages, then the removal of the
    /// workspaces.
    pub open spec fn research_ending(
        self,
        published: PublishedWikiRepo<Seq<char>>,
        task_id: Seq<char>,
        question: Seq<char>,
        staged: Result<Staged<Seq<char>>, Fault>,
    ) -> Tries<Seq<char>> {
        let research = workspace::research_workspace(self.workspace_root, task_id);
        match staged {
            Err(e) => self.discarding(research, steps::fail(e)),
            Ok(Staged::Unchanged { answer }) => flow::bind(
                published.preparation(),
                |outcome: Result<(), Fault>|
                    self.discarding(research, Program::Return(answered(outcome, answer))),
            ),
            Ok(Staged::Changed { answer, rev, parent }) => flow::bind(
                steps::locked(
                    Lock::Integration,
                    self.integration(published, task_id, question, rev, parent),
                ),
                |end: Integrated<Fault>| self.research_closing(task_id, answer, end),
            ),
        }
    }

    /// Removes the workspaces of a task, the last one opened first.
    pub open spec fn research_closing(
        self,
        task_id: Seq<char>,
        answer: Seq<char>,
        end: Integrated<Fault>,
    ) -> Tries<Seq<char>> {
        let closing = self.discarding(
            workspace::research_workspace(self.workspace_root, task_id),
            Program::Return(answered(end.outcome, answer)),
        );
        if end.merging {
            self.discarding(workspace::merge_workspace(self.workspace_root, task_id), closing)
        } else {
            closing
        }
    }

    /// Researches a question.
    pub open spec fn research(
        self,
        published: PublishedWikiRepo<Seq<char>>,
        prompt: Seq<char>,
        task_id: Seq<char>,
        question: Seq<char>,
    ) -> Tries<Seq<char>> {
        steps::attempt(
            published.preparation(),
            |u: ()|
                flow::bind(
                    self.staging(prompt, task_id, question),
                    |staged: Result<Staged<Seq<char>>, Fault>|
                        self.research_ending(published, task_id, question, staged),
                ),
        )
    }

    /// Fetches a remote and reads where `main` stands before and after.
    pub open spec fn fetching(
        self,
        published: PublishedWikiRepo<Seq<char>>,
        sync: GitSyncConfig<Seq<char>>,
    ) -> Tries<Fetched<Seq<char>, Seq<Seq<char>>>> {
        steps::attempt(
            published.preparation(),
            |u: ()|
                flow::bind(
                    published::commit_id(
                        self.wiki_repo,
                        "main"@,
                        "reading main before remote fetch"@,
                    ),
                    |old_main: Result<Seq<char>, Fault>|
                        steps::attempt(
                            steps::jj_do(
                                self.wiki_repo,
                                JjCall::GitFetch {
                                    remote: sync.remote,
                                    ssh_command: sync.ssh_command,
                                },
                            ),
                            |u: ()|
                                steps::attempt(
                                    steps::jj_do(
                                        self.wiki_repo,
                                        JjCall::TrackMain { remote: sync.remote },
                                    ),
                                    |u: ()| self.heads_reading(sync.remote, known(old_main)),
                                ),
                        ),
                ),
        )
    }

    /// Reads `main` and the heads of the local and the remote `main`.
    pub open spec fn heads_reading(
        self,
        remote: Seq<char>,
        old_main: Option<Seq<char>>,
    ) -> Tries<Fetched<Seq<char>, Seq<Seq<char>>>> {
        flow::bind(
            published::commit_id(self.wiki_repo, "main"@, "reading main after remote fetch"@),
            |current_main: Result<Seq<char>, Fault>|
                steps::attempt(
                    published::commit_ids(
                        self.wiki_repo,
                        jj::remote_heads_of(remote),
                        "reading local and remote main heads after fetch"@,
                    ),
                    |heads: Seq<Seq<char>>|
                        Program::Return(
                            Ok(Fetched { old_main, current_main: known(current_main), heads }),
                        ),
                ),
        )
    }

    /// Merges the diverged heads of `main`, after `main` is put back to where it was before the
    /// fetch, if that is known.
    pub open spec fn heads_merging(
        self,
        published: PublishedWikiRepo<Seq<char>>,
        remote: Seq<char>,
        run_id: Seq<char>,
        fetched: Fetched<Seq<char>, Seq<Seq<char>>>,
    ) -> Tries<()> {
        let merging = self.merging(
            published,
            workspace::remote_sync_workspace(self.workspace_root, run_id),
            fetched.heads,
            MergeKind::RemoteSync { remote },
        );
        match fetched.old_main {
            Some(rev) => steps::quietly(
                Action::Jj { repo: self.wiki_repo, call: JjCall::SetMain { rev } },
                merging,
            ),
            None => merging,
        }
    }

    /// Brings what was fetched into `main`: a single head becomes `main`, several are merged.
    pub open spec fn settling(
        self,
        published: PublishedWikiRepo<Seq<char>>,
        remote: Seq<char>,
        run_id: Seq<char>,
        fetched: Fetched<Seq<char>, Seq<Seq<char>>>,
    ) -> Steps<Integrated<Fault>> {
        if fetched.heads.len() == 1 {
            if fetched.current_main == Some(fetched.heads[0]) {
                Program::Return(Integrated { outcome: Ok(()), merging: false })
            } else {
                flow::bind(
                    steps::jj_do(self.wiki_repo, JjCall::SetMain { rev: fetched.heads[0] }),
                    |outcome: Result<(), Fault>|
                        Program::Return(Integrated { outcome, merging: false }),
                )
            }
        } else {
            flow::bind(
                self.heads_merging(published, remote, run_id, fetched),
                |outcome: Result<(), Fault>|
                    Program::Return(Integrated { outcome, merging: true }),
            )
        }
    }

    /// What follows a fetch: `main` is settled and pushed, then a merge workspace is removed.
    pub open spec fn sync_ending(
        self,
        published: PublishedWikiRepo<Seq<char>>,
        sync: GitSyncConfig<Seq<char>>,
        run_id: Seq<char>,
        fetched: Fetched<Seq<char>, Seq<Seq<char>>>,
    ) -> Tries<()> {
        flow::bind(
            self.settling(published, sync.remote, run_id, fetched),
            |end: Integrated<Fault>|
                flow::bind(
                    self.pushing(published, sync, end.outcome),
                    |outcome: Result<(), Fault>| self.sync_closing(run_id, outcome, end.merging),
                ),
        )
    }

    /// Removes the workspace of a synchronisation where one was opened.
    pub open spec fn sync_closing(
        self,
        run_id: Seq<char>,
        outcome: Result<(), Fault>,
        merging: bool,
    ) -> Tries<()> {
        if merging {
            self.discarding(
                workspace::remote_sync_workspace(self.workspace_root, run_id),
                Program::Return(outcome),
            )
        } else {
            Program::Return(outcome)
        }
    }

    /// Pushes `main` to the remote, unless it could not be settled or the published workspace
    /// cannot follow it.
    pub open spec fn pushing(
        self,
        published: PublishedWikiRepo<Seq<char>>,
        sync: GitSyncConfig<Seq<char>>,
        outcome: Result<(), Fault>,
    ) -> Tries<()> {
        match outcome {
            Err(e) => steps::fail(e),
            Ok(u) => steps::attempt(
                published.preparation(),
                |u: ()|
                    steps::jj_do(
                        self.wiki_repo,
                        JjCall::GitPushMain {
                            remote: sync.remote,
                            ssh_command: sync.ssh_command,
                        },
                    ),
            ),
        }
    }

    /// Synchronises `main` with a remote.
    pub open spec fn remote_sync(
        self,
        published: PublishedWikiRepo<Seq<char>>,
        sync: GitSyncConfig<Seq<char>>,
        run_id: Seq<char>,
    ) -> Tries<()> {
        steps::locked(
            Lock::Integration,
            steps::attempt(
                self.fetching(published, sync),
                |fetched: Fetched<Seq<char>, Seq<Seq<char>>>|
                    self.sync_ending(published, sync, run_id, fetched),
            ),
        )
    }

    /// Forgets those of the workspaces that a flow left behind.
    pub open spec fn forgetting(self, names: Seq<Seq<char>>) -> Tries<()>
        decreases names.len(),
    {
        if names.len() == 0 {
            steps::done()
        } else if workspace::is_owned_name(names[0]) {
            steps::attempt(
                steps::jj_do(self.wiki_repo, JjCall::ForgetWorkspace { name: names[0] }),
                |u: ()| self.forgetting(names.drop_first()),
            )
        } else {
            self.forgetting(names.drop_first())
        }
    }

    /// Removes the workspaces that earlier flows left behind.
    pub open spec fn stale_cleanup(self) -> Tries<()> {
        steps::attempt(
            steps::jj(self.wiki_repo, JjCall::WorkspaceNames),
            |output: Seq<char>|
                steps::attempt(
                    self.forgetting(command::entries(output)),
                    |u: ()| steps::plain(Action::RemoveDir { path: self.workspace_root }),
                ),
        )
    }

    /// Makes the repository ready when the server starts.
    pub open spec fn startup(
        self,
        published: PublishedWikiRepo<Seq<char>>,
        is_jj_workspace: bool,
    ) -> Tries<()> {
        if !is_jj_workspace {
            steps::fail(Error::NotJjWorkspace(self.wiki_repo))
        } else {
            steps::attempt(
                published::commit_id(self.wiki_repo, "main"@, "checking main bookmark"@),
                |main: Seq<char>|
                    steps::attempt(self.stale_cleanup(), |u: ()| published.preparation()),
            )
        }
    }
}

/// A value that counts only where it could be read.
pub open spec fn known(value: Result<Seq<char>, Fault>) -> Option<Seq<char>> {
    match value {
        Ok(v) => Some(v),
        Err(e) => None,
    }
}

fn known_text(value: Result<String, Error>) -> (res: Option<String>)
    ensures
        res.deep_view() == known(views::outcome(value)),
{
    match value {
        Ok(v) => Some(v),
        Err(_) => None,
    }
}

/// Commits the agent's changes and reads where the commit stands.
pub open spec fn committing(
    dir: Seq<char>,
    answer: Seq<char>,
    task_id: Seq<char>,
    question: Seq<char>,
) -> Tries<Staged<Seq<char>>> {
    steps::attempt(
        steps::jj_do(
            dir,
            JjCall::Describe { message: jj::research_message_of(task_id, question) },
        ),
        |u: ()|
            steps::attempt(
                published::commit_id(dir, "@"@, "reading research commit id"@),
                |rev: Seq<char>|
                    steps::attempt(
                        published::commit_id(dir, "@-"@, "reading research parent id"@),
                        |parent: Seq<char>|
                            Program::Return(Ok(Staged::Changed { answer, rev, parent })),
                    ),
            ),
    )
}

/// The answer, unless what came after it failed.
pub open spec fn answered(outcome: Result<(), Fault>, answer: Seq<char>) -> Result<
    Seq<char>,
    Fault,
> {
    match outcome {
        Ok(u) => Ok(answer),
        Err(e) => Err(e),
    }
}

fn clear(ws: &OwnedWorkspace, log: &mut Log) -> (res: Stepped<Result<(), Error>>)
    ensures
        flow::run(clearing(ws.deep_view()), old(log).rest()) == (
            steps::tried(res),
            final(log).rest(),
        ),
{
    steps::run_plain(Action::RemoveDir { path: ws.path.clone() }, log)
}

fn create_parent(path: &str, log: &mut Log) -> (res: Stepped<Result<(), Error>>)
    ensures
        flow::run(parents(path@), old(log).rest()) == (steps::tried(res), final(log).rest()),
{
    match paths::parent(path) {
        Some(parent) => steps::run_plain(Action::CreateDir { path: parent }, log),
        None => Ok(Ok(())),
    }
}

fn record(dir: &str, kind: &MergeKind, answer: Option<String>, log: &mut Log) -> (res: Stepped<
    Result<(), Error>,
>)
    ensures
        flow::run(recording(dir@, kind.deep_view(), answer.deep_view()), old(log).rest()) == (
            steps::tried(res),
            final(log).rest(),
        ),
{
    match answer {
        Some(notes) => if text::blank(notes.as_str()) {
            Ok(Ok(()))
        } else {
            steps::do_jj(
                dir,
                JjCall::Describe { message: kind.message(Some(notes.as_str())) },
                log,
            )
        },
        None => Ok(Ok(())),
    }
}

/// Resolves the conflicts of a merge workspace.
pub fn resolve_conflicts(dir: &str, kind: &MergeKind, log: &mut Log) -> (res: Stepped<
    Result<(), Error>,
>)
    ensures
        flow::run(resolution(dir@, kind.deep_view()), old(log).rest()) == (
            steps::tried(res),
            final(log).rest(),
        ),
{
    broadcast use flow::lemma_run_bind;

    let conflicts = match steps::run_jj(dir, JjCall::UnresolvedConflicts, log) {
        Ok(Ok(conflicts)) => conflicts,
        Ok(Err(e)) => return Ok(Err(e)),
        Err(action) => return Err(action),
    };
    if text::blank(conflicts.as_str()) {
        return Ok(Ok(()));
    }
    let answer = match steps::run_agent(kind.prompt(conflicts.as_str()), dir, log) {
        Ok(Ok(answer)) => answer,
        Ok(Err(e)) => return Ok(Err(e)),
        Err(action) => return Err(action),
    };
    match steps::do_jj(dir, JjCall::Snapshot, log) {
        Ok(Ok(())) => {},
        Ok(Err(e)) => return Ok(Err(e)),
        Err(action) => return Err(action),
    }
    let files = match steps::run_jj(dir, JjCall::UnresolvedConflicts, log) {
        Ok(Ok(files)) => files,
        Ok(Err(e)) => return Ok(Err(e)),
        Err(action) => return Err(action),
    };
    if !text::blank(files.as_str()) {
        return Ok(Err(Error::UnresolvedConflicts { files }));
    }
    record(dir, kind, answer, log)
}

fn commit(dir: &str, answer: String, task_id: &str, question: &str, log: &mut Log) -> (res: Stepped<
    Result<Staged, Error>,
>)
    ensures
        flow::run(committing(dir@, answer@, task_id@, question@), old(log).rest()) == (
            steps::tried(res),
            final(log).rest(),
        ),
{
    broadcast use flow::lemma_run_bind;

    match steps::do_jj(
        dir,
        JjCall::Describe { message: jj::research_message(task_id, question) },
        log,
    ) {
        Ok(Ok(())) => {},
        Ok(Err(e)) => return Ok(Err(e)),
        Err(action) => return Err(action),
    }
    let rev = match published::read_commit_id(dir, "@", "reading research commit id", log) {
        Ok(Ok(rev)) => rev,
        Ok(Err(e)) => return Ok(Err(e)),
        Err(action) => return Err(action),
    };
    match published::read_commit_id(dir, "@-", "reading research parent id", log) {
        Ok(Ok(parent)) => Ok(Ok(Staged::Changed { answer, rev, parent })),
        Ok(Err(e)) => Ok(Err(e)),
        Err(action) => Err(action),
    }
}

impl Workflow {
    /// The flows of a wiki whose workspaces lie below the directory `data_root`.
    pub fn new(wiki: String, wiki_repo: String, data_root: &str) -> (res: Self)
        ensures
            res.deep_view() == (Workflow {
                wiki: wiki@,
                wiki_repo: wiki_repo@,
                workspace_root: workspace::workspace_root_of(data_root@, wiki_repo@),
            }),
    {
        let workspace_root = workspace::workspace_root(data_root, wiki_repo.as_str());
        Workflow { wiki, wiki_repo, workspace_root }
    }

    fn open_research(&self, ws: &OwnedWorkspace, log: &mut Log) -> (res: Stepped<
        Result<(), Error>,
    >)
        ensures
            flow::run(self.deep_view().research_opening(ws.deep_view()), old(log).rest()) == (
                steps::tried(res),
                final(log).rest(),
            ),
    {
        broadcast use flow::lemma_run_bind;

        match clear(ws, log) {
            Ok(Ok(())) => {},
            Ok(Err(e)) => return Ok(Err(e)),
            Err(action) => return Err(action),
        }
        match create_parent(ws.path.as_str(), log) {
            Ok(Ok(())) => {},
            Ok(Err(e)) => return Ok(Err(e)),
            Err(action) => return Err(action),
        }
        steps::do_jj(
            self.wiki_repo.as_str(),
            JjCall::AddFromMain { name: ws.name.clone(), path: ws.path.clone() },
            log,
        )
    }

    fn discard(&self, ws: &OwnedWorkspace, log: &mut Log) -> (res: Stepped<()>)
        ensures
            forall|next: Steps<Result<(), Fault>>| #[trigger]
                flow::run(
                    self.deep_view().discarding(ws.deep_view(), next),
                    old(log).rest(),
                ) == (match res {
                    Ok(()) => flow::run(next, final(log).rest()),
                    Err(action) => (Status::Waiting(action.deep_view()), final(log).rest()),
                }),
            forall|next: Steps<Result<Seq<char>, Fault>>| #[trigger]
                flow::run(
                    self.deep_view().discarding(ws.deep_view(), next),
                    old(log).rest(),
                ) == (match res {
                    Ok(()) => flow::run(next, final(log).rest()),
                    Err(action) => (Status::Waiting(action.deep_view()), final(log).rest()),
                }),
    {
        broadcast use steps::lemma_run_quietly;

        match steps::run_quietly(
            Action::Jj {
                repo: self.wiki_repo.clone(),
                call: JjCall::ForgetWorkspace { name: ws.name.clone() },
            },
            log,
        ) {
            Ok(()) => {},
            Err(action) => return Err(action),
        }
        steps::run_quietly(Action::RemoveDir { path: ws.path.clone() }, log)
    }

    /// Merges revisions in a workspace of their own and publishes the result.
    pub fn publish_resolved_merge(
        &self,
        published: &PublishedWikiRepo,
        ws: &OwnedWorkspace,
        revs: Vec<String>,
        kind: &MergeKind,
        log: &mut Log,
    ) -> (res: Stepped<Result<(), Error>>)
        ensures
            flow::run(
                self.deep_view().merging(
                    published.deep_view(),
                    ws.deep_view(),
                    revs.deep_view(),
                    kind.deep_view(),
                ),
                old(log).rest(),
            ) == (steps::tried(res), final(log).rest()),
    {
        broadcast use flow::lemma_run_bind;

        match clear(ws, log) {
            Ok(Ok(())) => {},
            Ok(Err(e)) => return Ok(Err(e)),
            Err(action) => return Err(action),
        }
        match create_parent(ws.path.as_str(), log) {
            Ok(Ok(())) => {},
            Ok(Err(e)) => return Ok(Err(e)),
            Err(action) => return Err(action),
        }
        match steps::do_jj(
            self.wiki_repo.as_str(),
            JjCall::AddMerge {
                name: ws.name.clone(),
                revs,
                message: kind.message(None),
                path: ws.path.clone(),
            },
            log,
        ) {
            Ok(Ok(())) => {},
            Ok(Err(e)) => return Ok(Err(e)),
            Err(action) => return Err(action),
        }
        match resolve_conflicts(ws.path.as_str(), kind, log) {
            Ok(Ok(())) => {},
            Ok(Err(e)) => return Ok(Err(e)),
            Err(action) => return Err(action),
        }
        published.publish_revision(ws.path.as_str(), "@", log)
    }

    fn stage(&self, prompt: &str, task_id: &str, question: &str, log: &mut Log) -> (res: Stepped<
        Result<Staged, Error>,
    >)
        ensures
            flow::run(
                self.deep_view().staging(prompt@, task_id@, question@),
                old(log).rest(),
            ) == (steps::tried(res), final(log).rest()),
    {
        broadcast use flow::lemma_run_bind;

        let ws = OwnedWorkspace::research(self.workspace_root.as_str(), task_id);
        match self.open_research(&ws, log) {
            Ok(Ok(())) => {},
            Ok(Err(e)) => return Ok(Err(e)),
            Err(action) => return Err(action),
        }
        let answer = match steps::run_agent(prompt.to_string(), ws.path.as_str(), log) {
            Ok(Ok(Some(answer))) => answer,
            Ok(Ok(None)) => return Ok(Err(Error::AgentNoOutput)),
            Ok(Err(e)) => return Ok(Err(e)),
            Err(action) => return Err(action),
        };
        match steps::do_jj(ws.path.as_str(), JjCall::Snapshot, log) {
            Ok(Ok(())) => {},
            Ok(Err(e)) => return Ok(Err(e)),
            Err(action) => return Err(action),
        }
        let summary = match steps::run_jj(ws.path.as_str(), JjCall::DiffSummary, log) {
            Ok(Ok(summary)) => summary,
            Ok(Err(e)) => return Ok(Err(e)),
            Err(action) => return Err(action),
        };
        if text::blank(summary.as_str()) {
            return Ok(Ok(Staged::Unchanged { answer }));
        }
        commit(ws.path.as_str(), answer, task_id, question, log)
    }

    fn integrate(
        &self,
        published: &PublishedWikiRepo,
        task_id: &str,
        question: &str,
        rev: String,
        parent: String,
        log: &mut Log,
    ) -> (res: Stepped<Integrated>)
        ensures
            flow::run(
                self.deep_view().integration(
                    published.deep_view(),
                    task_id@,
                    question@,
                    rev@,
                    parent@,
                ),
                old(log).rest(),
            ) == (steps::stands(res), final(log).rest()),
    {
        broadcast use flow::lemma_run_bind;

        let main = match published::read_commit_id(
            self.wiki_repo.as_str(),
            "main",
            "reading main bookmark",
            log,
        ) {
            Ok(Ok(main)) => main,
            Ok(Err(e)) => return Ok(Integrated { outcome: Err(e), merging: false }),
            Err(action) => return Err(action),
        };
        if text::same(main.as_str(), parent.as_str()) {
            let ws = OwnedWorkspace::research(self.workspace_root.as_str(), task_id);
            return match published.publish_revision(ws.path.as_str(), "@", log) {
                Ok(outcome) => Ok(Integrated { outcome, merging: false }),
                Err(action) => Err(action),
            };
        }
        let ws = OwnedWorkspace::merge(self.workspace_root.as_str(), task_id);
        let revs = vec!["main".to_string(), rev];
        assert(revs.deep_view() =~= seq!["main"@, rev@]);
        let kind = MergeKind::Research {
            task_id: task_id.to_string(),
            question: question.to_string(),
        };
        match self.publish_resolved_merge(published, &ws, revs, &kind, log) {
            Ok(outcome) => Ok(Integrated { outcome, merging: true }),
            Err(action) => Err(action),
        }
    }

    fn end_research(
        &self,
        published: &PublishedWikiRepo,
        task_id: &str,
        question: &str,
        staged: Result<Staged, Error>,
        log: &mut Log,
    ) -> (res: Stepped<Result<String, Error>>)
        ensures
            flow::run(
                self.deep_view().research_ending(
                    published.deep_view(),
                    task_id@,
                    question@,
                    views::outcome(staged),
                ),
                old(log).rest(),
            ) == (steps::tried(res), final(log).rest()),
    {
        broadcast use {flow::lemma_run_bind, steps::lemma_run_quietly};

        let research = OwnedWorkspace::research(self.workspace_root.as_str(), task_id);
        match staged {
            Err(e) => match self.discard(&research, log) {
                Ok(()) => Ok(Err(e)),
                Err(action) => Err(action),
            },
            Ok(Staged::Unchanged { answer }) => {
                let outcome = match published.prepare(log) {
                    Ok(outcome) => outcome,
                    Err(action) => return Err(action),
                };
                match self.discard(&research, log) {
                    Ok(()) => match outcome {
                        Ok(()) => Ok(Ok(answer)),
                        Err(e) => Ok(Err(e)),
                    },
                    Err(action) => Err(action),
                }
            },
            Ok(Staged::Changed { answer, rev, parent }) => {
                match steps::run_quietly(Action::Acquire(Lock::Integration), log) {
                    Ok(()) => {},
                    Err(action) => return Err(action),
                }
                let end = match self.integrate(published, task_id, question, rev, parent, log) {
                    Ok(end) => end,
                    Err(action) => return Err(action),
                };
                match steps::run_quietly(Action::Release(Lock::Integration), log) {
                    Ok(()) => {},
                    Err(action) => return Err(action),
                }
                if end.merging {
                    let merge = OwnedWorkspace::merge(self.workspace_root.as_str(), task_id);
                    match self.discard(&merge, log) {
                        Ok(()) => {},
                        Err(action) => return Err(action),
                    }
                }
                match self.discard(&research, log) {
                    Ok(()) => match end.outcome {
                        Ok(()) => Ok(Ok(answer)),
                        Err(e) => Ok(Err(e)),
                    },
                    Err(action) => Err(action),
                }
            },
        }
    }

    /// Researches a question: the next step, given the replies to the steps so far, or the answer.
    pub fn run_research(
        &self,
        published: &PublishedWikiRepo,
        prompt: &str,
        task_id: &str,
        question: &str,
        log: &mut Log,
    ) -> (res: Stepped<Result<String, Error>>)
        ensures
            flow::run(
                self.deep_view().research(published.deep_view(), prompt@, task_id@, question@),
                old(log).rest(),
            ) == (steps::tried(res), final(log).rest()),
    {
        broadcast use flow::lemma_run_bind;

        match published.prepare(log) {
            Ok(Ok(())) => {},
            Ok(Err(e)) => return Ok(Err(e)),
            Err(action) => return Err(action),
        }
        let staged = match self.stage(prompt, task_id, question, log) {
            Ok(staged) => staged,
            Err(action) => return Err(action),
        };
        self.end_research(published, task_id, question, staged, log)
    }

    fn read_heads(&self, remote: &str, old_main: Option<String>, log: &mut Log) -> (res: Stepped<
        Result<Fetched, Error>,
    >)
        ensures
            flow::run(
                self.deep_view().heads_reading(remote@, old_main.deep_view()),
                old(log).rest(),
            ) == (steps::tried(res), final(log).rest()),
    {
        broadcast use flow::lemma_run_bind;

        let current_main = match published::read_commit_id(
            self.wiki_repo.as_str(),
            "main",
            "reading main after remote fetch",
            log,
        ) {
            Ok(current_main) => known_text(current_main),
            Err(action) => return Err(action),
        };
        match published::read_commit_ids(
            self.wiki_repo.as_str(),
            jj::remote_heads_revset(remote).as_str(),
            "reading local and remote main heads after fetch",
            log,
        ) {
            Ok(Ok(heads)) => Ok(Ok(Fetched { old_main, current_main, heads })),
            Ok(Err(e)) => Ok(Err(e)),
            Err(action) => Err(action),
        }
    }

    fn fetch(&self, published: &PublishedWikiRepo, sync: &GitSyncConfig, log: &mut Log) -> (res:
        Stepped<Result<Fetched, Error>>)
        ensures
            flow::run(
                self.deep_view().fetching(published.deep_view(), sync.deep_view()),
                old(log).rest(),
            ) == (steps::tried(res), final(log).rest()),
    {
        broadcast use flow::lemma_run_bind;

        match published.prepare(log) {
            Ok(Ok(())) => {},
            Ok(Err(e)) => return Ok(Err(e)),
            Err(action) => return Err(action),
        }
        let old_main = match published::read_commit_id(
            self.wiki_repo.as_str(),
            "main",
            "reading main before remote fetch",
            log,
        ) {
            Ok(old_main) => known_text(old_main),
            Err(action) => return Err(action),
        };
        match steps::do_jj(
            self.wiki_repo.as_str(),
            JjCall::GitFetch {
                remote: sync.remote.clone(),
                ssh_command: sync.ssh_command.clone(),
            },
            log,
        ) {
            Ok(Ok(())) => {},
            Ok(Err(e)) => return Ok(Err(e)),
            Err(action) => return Err(action),
        }
        match steps::do_jj(
            self.wiki_repo.as_str(),
            JjCall::TrackMain { remote: sync.remote.clone() },
            log,
        ) {
            Ok(Ok(())) => {},
            Ok(Err(e)) => return Ok(Err(e)),
            Err(action) => return Err(action),
        }
        self.read_heads(sync.remote.as_str(), old_main, log)
    }

    fn merge_remote_heads(
        &self,
        published: &PublishedWikiRepo,
        remote: &str,
        run_id: &str,
        fetched: Fetched,
        log: &mut Log,
    ) -> (res: Stepped<Result<(), Error>>)
        ensures
            flow::run(
                self.deep_view().heads_merging(
                    published.deep_view(),
                    remote@,
                    run_id@,
                    fetched.deep_view(),
                ),
                old(log).rest(),
            ) == (steps::tried(res), final(log).rest()),
    {
        broadcast use steps::lemma_run_quietly;

        let ws = OwnedWorkspace::remote_sync(self.workspace_root.as_str(), run_id);
        let kind = MergeKind::RemoteSync { remote: remote.to_string() };
        match fetched.old_main {
            Some(rev) => match steps::run_quietly(
                Action::Jj { repo: self.wiki_repo.clone(), call: JjCall::SetMain { rev } },
                log,
            ) {
                Ok(()) => {},
                Err(action) => return Err(action),
            },
            None => {},
        }
        self.publish_resolved_merge(published, &ws, fetched.heads, &kind, log)
    }

    fn settle(
        &self,
        published: &PublishedWikiRepo,
        remote: &str,
        run_id: &str,
        fetched: Fetched,
        log: &mut Log,
    ) -> (res: Stepped<Integrated>)
        ensures
            flow::run(
                self.deep_view().settling(
                    published.deep_view(),
                    remote@,
                    run_id@,
                    fetched.deep_view(),
                ),
                old(log).rest(),
            ) == (steps::stands(res), final(log).rest()),
    {
        broadcast use flow::lemma_run_bind;

        assert(fetched.heads.deep_view().len() == fetched.heads@.len());
        if fetched.heads.len() == 1 {
            let head = fetched.heads[0].clone();
            assert(fetched.heads.deep_view()[0] == head@);
            let settled = match &fetched.current_main {
                Some(main) => text::same(main.as_str(), head.as_str()),
                None => false,
            };
            if settled {
                return Ok(Integrated { outcome: Ok(()), merging: false });
            }
            return match steps::do_jj(
                self.wiki_repo.as_str(),
                JjCall::SetMain { rev: head },
                log,
            ) {
                Ok(outcome) => Ok(Integrated { outcome, merging: false }),
                Err(action) => Err(action),
            };
        }
        match self.merge_remote_heads(published, remote, run_id, fetched, log) {
            Ok(outcome) => Ok(Integrated { outcome, merging: true }),
            Err(action) => Err(action),
        }
    }

    fn push(
        &self,
        published: &PublishedWikiRepo,
        sync: &GitSyncConfig,
        outcome: Result<(), Error>,
        log: &mut Log,
    ) -> (res: Stepped<Result<(), Error>>)
        ensures
            flow::run(
                self.deep_view().pushing(
                    published.deep_view(),
                    sync.deep_view(),
                    views::outcome(outcome),
                ),
                old(log).rest(),
            ) == (steps::tried(res), final(log).rest()),
    {
        broadcast use flow::lemma_run_bind;

        match outcome {
            Ok(()) => {},
            Err(e) => return Ok(Err(e)),
        }
        match published.prepare(log) {
            Ok(Ok(())) => {},
            Ok(Err(e)) => return Ok(Err(e)),
            Err(action) => return Err(action),
        }
        steps::do_jj(
            self.wiki_repo.as_str(),
            JjCall::GitPushMain {
                remote: sync.remote.clone(),
                ssh_command: sync.ssh_command.clone(),
            },
            log,
        )
    }

    fn end_sync(
        &self,
        published: &PublishedWikiRepo,
        sync: &GitSyncConfig,
        run_id: &str,
        fetched: Fetched,
        log: &mut Log,
    ) -> (res: Stepped<Result<(), Error>>)
        ensures
            flow::run(
                self.deep_view().sync_ending(
                    published.deep_view(),
                    sync.deep_view(),
                    run_id@,
                    fetched.deep_view(),
                ),
                old(log).rest(),
            ) == (steps::tried(res), final(log).rest()),
    {
        broadcast use flow::lemma_run_bind;

        let end = match self.settle(published, sync.remote.as_str(), run_id, fetched, log) {
            Ok(end) => end,
            Err(action) => return Err(action),
        };
        let outcome = match self.push(published, sync, end.outcome, log) {
            Ok(outcome) => outcome,
            Err(action) => return Err(action),
        };
        if end.merging {
            let ws = OwnedWorkspace::remote_sync(self.workspace_root.as_str(), run_id);
            match self.discard(&ws, log) {
                Ok(()) => {},
                Err(action) => return Err(action),
            }
        }
        Ok(outcome)
    }

    /// Synchronises `main` with a remote.
    pub fn sync_remote_once(
        &self,
        published: &PublishedWikiRepo,
        sync: &GitSyncConfig,
        run_id: &str,
        log: &mut Log,
    ) -> (res: Stepped<Result<(), Error>>)
        ensures
            flow::run(
                self.deep_view().remote_sync(published.deep_view(), sync.deep_view(), run_id@),
                old(log).rest(),
            ) == (steps::tried(res), final(log).rest()),
    {
        broadcast use {flow::lemma_run_bind, steps::lemma_run_quietly};

        match steps::run_quietly(Action::Acquire(Lock::Integration), log) {
            Ok(()) => {},
            Err(action) => return Err(action),
        }
        let outcome = match self.fetch(published, sync, log) {
            Ok(Ok(fetched)) => match self.end_sync(published, sync, run_id, fetched, log) {
                Ok(outcome) => outcome,
                Err(action) => return Err(action),
            },
            Ok(Err(e)) => Err(e),
            Err(action) => return Err(action),
        };
        match steps::run_quietly(Action::Release(Lock::Integration), log) {
            Ok(()) => Ok(outcome),
            Err(action) => Err(action),
        }
    }

    fn forget_owned(&self, names: &Vec<String>, log: &mut Log) -> (res: Stepped<Result<(), Error>>)
        ensures
            flow::run(self.deep_view().forgetting(names.deep_view()), old(log).rest()) == (
                steps::tried(res),
                final(log).rest(),
            ),
    {
        broadcast use flow::lemma_run_bind;

        let ghost me = self.deep_view();
        let ghost all = names.deep_view();
        let ghost start = log.rest();
        let n: usize = names.len();
        let mut i: usize = 0;
        assert(all.skip(0) =~= all);
        while i < n
            invariant
                n == names@.len(),
                i <= n,
                me == self.deep_view(),
                all == names.deep_view(),
                flow::run(me.forgetting(all), start) == flow::run(
                    me.forgetting(all.skip(i as int)),
                    log.rest(),
                ),
                start == old(log).rest(),
            decreases n - i,
        {
            broadcast use flow::lemma_run_bind;

            assert(all.skip(i as int)[0] == names@[i as int]@);
            assert(all.skip(i as int).drop_first() =~= all.skip(i + 1));
            if workspace::is_wikidesk_workspace(names[i].as_str()) {
                match steps::do_jj(
                    self.wiki_repo.as_str(),
                    JjCall::ForgetWorkspace { name: names[i].clone() },
                    log,
                ) {
                    Ok(Ok(())) => {},
                    Ok(Err(e)) => return Ok(Err(e)),
                    Err(action) => return Err(action),
                }
            }
            i = i + 1;
        }
        Ok(Ok(()))
    }

    /// Removes the workspaces that earlier flows left behind.
    pub fn cleanup_stale_workspaces(&self, log: &mut Log) -> (res: Stepped<Result<(), Error>>)
        ensures
            flow::run(self.deep_view().stale_cleanup(), old(log).rest()) == (
                steps::tried(res),
                final(log).rest(),
            ),
    {
        broadcast use flow::lemma_run_bind;

        let names = match steps::run_jj(self.wiki_repo.as_str(), JjCall::WorkspaceNames, log) {
            Ok(Ok(output)) => command::entry_list(output.as_str()),
            Ok(Err(e)) => return Ok(Err(e)),
            Err(action) => return Err(action),
        };
        match self.forget_owned(&names, log) {
            Ok(Ok(())) => {},
            Ok(Err(e)) => return Ok(Err(e)),
            Err(action) => return Err(action),
        }
        steps::run_plain(Action::RemoveDir { path: self.workspace_root.clone() }, log)
    }

    /// Makes the repository ready when the server starts. Whether the repository has a `.jj`
    /// directory is told by `is_jj_workspace`.
    pub fn prepare_startup(
        &self,
        published: &PublishedWikiRepo,
        is_jj_workspace: bool,
        log: &mut Log,
    ) -> (res: Stepped<Result<(), Error>>)
        ensures
            flow::run(
                self.deep_view().startup(published.deep_view(), is_jj_workspace),
                old(log).rest(),
            ) == (steps::tried(res), final(log).rest()),
    {
        broadcast use flow::lemma_run_bind;

        if !is_jj_workspace {
            return Ok(Err(Error::NotJjWorkspace(self.wiki_repo.clone())));
        }
        match published::read_commit_id(
            self.wiki_repo.as_str(),
            "main",
            "checking main bookmark",
            log,
        ) {
            Ok(Ok(_)) => {},
            Ok(Err(e)) => return Ok(Err(e)),
            Err(action) => return Err(action),
        }
        match self.cleanup_stale_workspaces(log) {
            Ok(Ok(())) => {},
            Ok(Err(e)) => return Ok(Err(e)),
            Err(action) => return Err(action),
        }
        published.prepare(log)
    }
}

/// A research commit is taken over as it is where `main` still stands on its parent, and the lock of
/// the published workspace is what comes next; otherwise the workspace of a merge is prepared.
pub proof fn standing_main_needs_no_merge(
    wf: Workflow<Seq<char>>,
    published: PublishedWikiRepo<Seq<char>>,
    id: Seq<char>,
    question: Seq<char>,
    rev: Seq<char>,
    parent: Seq<char>,
    main: Seq<char>,
    output: Seq<char>,
)
    requires
        command::entries(output) == seq![main],
    ensures
        flow::run(
            wf.integration(published, id, question, rev, parent),
            seq![steps::Reply::Text(output)],
        ).0 == Status::<steps::Act, Integrated<Fault>>::Waiting(
            if main == parent {
                Action::Acquire(Lock::Published)
            } else {
                Action::RemoveDir {
                    path: workspace::merge_workspace(wf.workspace_root, id).path,
                }
            },
        ),
{
    broadcast use {flow::lemma_run_bind, steps::lemma_run_quietly};

    let log = seq![steps::Reply::Text(output)];
    assert(log.drop_first() =~= Seq::empty());
    reveal_with_fuel(flow::run, 3);
}

/// Before diverged heads are merged `main` is put back to where it stood before the fetch, where that
/// is known.
pub proof fn main_is_put_back_before_heads_are_merged(
    wf: Workflow<Seq<char>>,
    published: PublishedWikiRepo<Seq<char>>,
    remote: Seq<char>,
    run_id: Seq<char>,
    old: Seq<char>,
    current: Option<Seq<char>>,
    heads: Seq<Seq<char>>,
    reply: steps::Rep,
)
    ensures
        ({
            let clear = Status::<steps::Act, Result<(), Fault>>::Waiting(
                Action::RemoveDir {
                    path: workspace::remote_sync_workspace(wf.workspace_root, run_id).path,
                },
            );
            let known = wf.heads_merging(
                published,
                remote,
                run_id,
                Fetched { old_main: Some(old), current_main: current, heads },
            );
            let unknown = wf.heads_merging(
                published,
                remote,
                run_id,
                Fetched { old_main: None, current_main: current, heads },
            );
            &&& flow::run(known, Seq::empty()).0 == Status::<
                steps::Act,
                Result<(), Fault>,
            >::Waiting(Action::Jj { repo: wf.wiki_repo, call: JjCall::SetMain { rev: old } })
            &&& flow::run(known, seq![reply]).0 == clear
            &&& flow::run(unknown, Seq::empty()).0 == clear
        }),
{
    broadcast use {flow::lemma_run_bind, steps::lemma_run_quietly};

    assert(seq![reply].drop_first() =~= Seq::empty());
}

/// `main` that already stands on the only head is left alone; one that does not is moved there.
pub proof fn single_heads_become_main(
    wf: Workflow<Seq<char>>,
    published: PublishedWikiRepo<Seq<char>>,
    remote: Seq<char>,
    run_id: Seq<char>,
    old: Option<Seq<char>>,
    current: Option<Seq<char>>,
    head: Seq<char>,
)
    ensures
        flow::run(
            wf.settling(
                published,
                remote,
                run_id,
                Fetched { old_main: old, current_main: current, heads: seq![head] },
            ),
            Seq::empty(),
        ).0 == (if current == Some(head) {
            Status::<steps::Act, Integrated<Fault>>::Finished(
                Integrated { outcome: Ok(()), merging: false },
            )
        } else {
            Status::Waiting(Action::Jj { repo: wf.wiki_repo, call: JjCall::SetMain { rev: head } })
        }),
{
    broadcast use flow::lemma_run_bind;

}

/// An agent that is asked to resolve conflicts is told which files have them. What it did is recorded
/// and the conflicts are looked for again: where some are left the flow fails with them, else its
/// notes become part of the commit's description, unless they are blank.
pub proof fn resolvers_leave_their_notes(
    dir: Seq<char>,
    kind: MergeKind<Seq<char>>,
    conflicts: Seq<char>,
    notes: Seq<char>,
    blank: Seq<char>,
    left: Seq<char>,
)
    requires
        !text::is_blank(conflicts),
        !text::is_blank(notes),
        !text::is_blank(left),
        text::is_blank(blank),
    ensures
        ({
            let p = resolution(dir, kind);
            let found = steps::Reply::Text(conflicts);
            let said = steps::Reply::Text(notes);
            let recorded = steps::Reply::Nothing;
            let settled = steps::Reply::Text(blank);
            &&& flow::run(p, Seq::empty()).0 == Status::<steps::Act, Result<(), Fault>>::Waiting(
                Action::Jj { repo: dir, call: JjCall::UnresolvedConflicts },
            )
            &&& flow::run(p, seq![settled]).0 == Status::<
                steps::Act,
                Result<(), Fault>,
            >::Finished(Ok(()))
            &&& flow::run(p, seq![found]).0 == Status::<steps::Act, Result<(), Fault>>::Waiting(
                Action::Agent { prompt: kind.prompt_of(conflicts), dir },
            )
            &&& flow::run(p, seq![found, said]).0 == Status::<
                steps::Act,
                Result<(), Fault>,
            >::Waiting(Action::Jj { repo: dir, call: JjCall::Snapshot })
            &&& flow::run(p, seq![found, said, recorded]).0 == Status::<
                steps::Act,
                Result<(), Fault>,
            >::Waiting(Action::Jj { repo: dir, call: JjCall::UnresolvedConflicts })
            &&& flow::run(p, seq![found, said, recorded, settled]).0 == Status::<
                steps::Act,
                Result<(), Fault>,
            >::Waiting(
                Action::Jj {
                    repo: dir,
                    call: JjCall::Describe { message: kind.message_of(Some(notes)) },
                },
            )
            &&& flow::run(p, seq![found, settled, recorded, settled]).0 == Status::<
                steps::Act,
                Result<(), Fault>,
            >::Finished(Ok(()))
            &&& flow::run(p, seq![found, said, recorded, steps::Reply::Text(left)]).0 == Status::<
                steps::Act,
                Result<(), Fault>,
            >::Finished(Err(Error::UnresolvedConflicts { files: left }))
        }),
{
    broadcast use flow::lemma_run_bind;

    let found = steps::Reply::Text(conflicts);
    let said = steps::Reply::Text(notes);
    let recorded = steps::Reply::<Seq<char>>::Nothing;
    let settled = steps::Reply::Text(blank);
    let refused = steps::Reply::Text(left);
    lemma_log_of(found, said, recorded, settled);
    lemma_log_of(found, settled, recorded, settled);
    lemma_log_of(found, said, recorded, refused);
    reveal_with_fuel(flow::run, 2);
}

proof fn lemma_log_of(a: steps::Rep, b: steps::Rep, c: steps::Rep, d: steps::Rep)
    ensures
        seq![a].drop_first() == Seq::<steps::Rep>::empty(),
        seq![b].drop_first() == Seq::<steps::Rep>::empty(),
        seq![c].drop_first() == Seq::<steps::Rep>::empty(),
        seq![d].drop_first() == Seq::<steps::Rep>::empty(),
        seq![a, b].drop_first() == seq![b],
        seq![b, c].drop_first() == seq![c],
        seq![c, d].drop_first() == seq![d],
        seq![a, b, c].drop_first() == seq![b, c],
        seq![b, c, d].drop_first() == seq![c, d],
        seq![a, b, c, d].drop_first() == seq![b, c, d],
{
    assert(seq![a].drop_first() =~= Seq::empty());
    assert(seq![b].drop_first() =~= Seq::empty());
    assert(seq![c].drop_first() =~= Seq::empty());
    assert(seq![d].drop_first() =~= Seq::empty());
    assert(seq![a, b].drop_first() =~= seq![b]);
    assert(seq![b, c].drop_first() =~= seq![c]);
    assert(seq![c, d].drop_first() =~= seq![d]);
    assert(seq![a, b, c].drop_first() =~= seq![b, c]);
    assert(seq![b, c, d].drop_first() =~= seq![c, d]);
    assert(seq![a, b, c, d].drop_first() =~= seq![b, c, d]);
}

} // verus!
