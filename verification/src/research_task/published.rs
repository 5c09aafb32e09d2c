//! The published workspace of a wiki: the one that readers see. It holds no edits of its own and
//! follows `main`.

use vstd::prelude::*;

use crate::config::VcsWorkflow;
use crate::paths;
use crate::flow;
use crate::flow::Program;
use crate::research_task::jj::command;
use crate::research_task::jj::command::JjCall;
use crate::research_task::jj::Error;
use crate::research_task::steps;
use crate::research_task::steps::{Action, Fault, Lock, Log, Stepped, Tries};
use crate::text;

verus! {

/// Reads the commit ids of a revision set.
pub open spec fn commit_ids(repo: Seq<char>, rev: Seq<char>, op: Seq<char>) -> Tries<
    Seq<Seq<char>>,
> {
    steps::attempt(
        steps::jj(repo, JjCall::CommitIds { rev }),
        |output: Seq<char>| Program::Return(command::ids_of(output, op)),
    )
}

/// Reads the commit id of a revision.
pub open spec fn commit_id(repo: Seq<char>, rev: Seq<char>, op: Seq<char>) -> Tries<Seq<char>> {
    steps::attempt(
        commit_ids(repo, rev, op),
        |ids: Seq<Seq<char>>| Program::Return(command::only_id(ids, op)),
    )
}

/// Fails unless the published workspace has no edits.
pub open spec fn ensure_clean(repo: Seq<char>) -> Tries<()> {
    steps::attempt(
        steps::jj(repo, JjCall::DiffSummary),
        |summary: Seq<char>|
            if text::is_blank(summary) {
                steps::done()
            } else {
                steps::fail(Error::PublishedDirty { repo, summary })
            },
    )
}

/// Moves a clean published workspace onto `main`, and fails where it is not clean before or after.
pub open spec fn follow_main(repo: Seq<char>) -> Tries<()> {
    steps::attempt(
        ensure_clean(repo),
        |u: ()|
            steps::attempt(
                commit_id(repo, "@-"@, "reading published parent"@),
                |parent: Seq<char>|
                    steps::attempt(
                        commit_id(repo, "main"@, "reading main bookmark"@),
                        |main: Seq<char>|
                            if parent == main {
                                steps::done()
                            } else {
                                steps::attempt(
                                    steps::jj_do(repo, JjCall::RebaseOnMain),
                                    |u: ()| ensure_clean(repo),
                                )
                            },
                    ),
            ),
    )
}

/// Where a flow that may be undone stands: failed, and `main` put back to where it was if that is
/// known, or as it finished.
pub open spec fn undone_on_failure(
    workspace: Seq<char>,
    old_main: Result<Seq<char>, Fault>,
    outcome: Result<(), Fault>,
) -> Tries<()> {
    match (outcome, old_main) {
        (Err(e), Ok(rev)) => steps::quietly(
            Action::Jj { repo: workspace, call: JjCall::SetMain { rev } },
            steps::fail(e),
        ),
        _ => Program::Return(outcome),
    }
}

/// Moves `main` to a revision of a workspace and the published workspace with it. Where the
/// published workspace cannot follow, `main` is put back.
pub open spec fn move_main(repo: Seq<char>, workspace: Seq<char>, rev: Seq<char>) -> Tries<()> {
    steps::attempt(
        ensure_clean(repo),
        |u: ()|
            flow::bind(
                commit_id(repo, "main"@, "reading main before publish"@),
                |old_main: Result<Seq<char>, Fault>|
                    steps::attempt(
                        commit_id(workspace, rev, "reading revision before publish"@),
                        |new_main: Seq<char>|
                            steps::attempt(
                                steps::jj_do(workspace, JjCall::SetMain { rev: new_main }),
                                |u: ()|
                                    flow::bind(
                                        follow_main(repo),
                                        |outcome: Result<(), Fault>|
                                            undone_on_failure(workspace, old_main, outcome),
                                    ),
                            ),
                    ),
            ),
    )
}

/// The published workspace of a wiki.
#[derive(Debug, PartialEq, Eq)]
pub struct PublishedWikiRepo<S = String> {
    pub repo: S,
    pub workflow: VcsWorkflow,
}

impl DeepView for PublishedWikiRepo<String> {
    type V = PublishedWikiRepo<Seq<char>>;

    open spec fn deep_view(&self) -> PublishedWikiRepo<Seq<char>> {
        PublishedWikiRepo { repo: self.repo@, workflow: self.workflow }
    }
}

impl PublishedWikiRepo<Seq<char>> {
    /// Makes the workspace ready, without the lock.
    pub open spec fn readying(self) -> Tries<()> {
        match self.workflow {
            VcsWorkflow::Unversioned => steps::done(),
            VcsWorkflow::Jj => follow_main(self.repo),
        }
    }

    /// Makes the workspace ready.
    pub open spec fn preparation(self) -> Tries<()> {
        steps::locked(Lock::Published, self.readying())
    }

    /// Makes the workspace ready for a reader, who keeps its lock where that succeeds.
    pub open spec fn read_preparation(self) -> Tries<()> {
        steps::quietly(
            Action::Acquire(Lock::Published),
            flow::bind(
                self.readying(),
                |outcome: Result<(), Fault>|
                    match outcome {
                        Ok(u) => steps::done(),
                        Err(e) => steps::quietly(
                            Action::Release(Lock::Published),
                            steps::fail(e),
                        ),
                    },
            ),
        )
    }

    /// Makes a revision of a workspace the published one.
    pub open spec fn publication(self, workspace: Seq<char>, rev: Seq<char>) -> Tries<()> {
        steps::locked(
            Lock::Published,
            match self.workflow {
                VcsWorkflow::Unversioned => steps::done(),
                VcsWorkflow::Jj => move_main(self.repo, workspace, rev),
            },
        )
    }

    /// The directory that holds the wiki's pages.
    pub open spec fn pages(self) -> Seq<char> {
        paths::join_path(self.repo, "wiki"@)
    }
}

/// Reads the commit ids of a revision set.
pub fn read_commit_ids(repo: &str, rev: &str, op: &str, log: &mut Log) -> (res: Stepped<
    Result<Vec<String>, Error>,
>)
    ensures
        flow::run(commit_ids(repo@, rev@, op@), old(log).rest()) == (
            steps::tried(res),
            final(log).rest(),
        ),
{
    broadcast use flow::lemma_run_bind;

    let output = match steps::run_jj(repo, JjCall::CommitIds { rev: rev.to_string() }, log) {
        Ok(Ok(output)) => output,
        Ok(Err(e)) => return Ok(Err(e)),
        Err(action) => return Err(action),
    };
    Ok(command::commit_ids(output, op))
}

/// Reads the commit id of a revision.
pub fn read_commit_id(repo: &str, rev: &str, op: &str, log: &mut Log) -> (res: Stepped<
    Result<String, Error>,
>)
    ensures
        flow::run(commit_id(repo@, rev@, op@), old(log).rest()) == (
            steps::tried(res),
            final(log).rest(),
        ),
{
    broadcast use flow::lemma_run_bind;

    let ids = match read_commit_ids(repo, rev, op, log) {
        Ok(Ok(ids)) => ids,
        Ok(Err(e)) => return Ok(Err(e)),
        Err(action) => return Err(action),
    };
    Ok(command::one_line(ids, op))
}

/// Fails unless the published workspace has no edits.
pub fn ensure_published_clean(repo: &str, log: &mut Log) -> (res: Stepped<Result<(), Error>>)
    ensures
        flow::run(ensure_clean(repo@), old(log).rest()) == (steps::tried(res), final(log).rest()),
{
    broadcast use flow::lemma_run_bind;

    let summary = match steps::run_jj(repo, JjCall::DiffSummary, log) {
        Ok(Ok(summary)) => summary,
        Ok(Err(e)) => return Ok(Err(e)),
        Err(action) => return Err(action),
    };
    if text::blank(summary.as_str()) {
        Ok(Ok(()))
    } else {
        Ok(Err(Error::PublishedDirty { repo: repo.to_string(), summary }))
    }
}

/// Moves a clean published workspace onto `main`.
pub fn prepare_jj_published_workspace(repo: &str, log: &mut Log) -> (res: Stepped<
    Result<(), Error>,
>)
    ensures
        flow::run(follow_main(repo@), old(log).rest()) == (steps::tried(res), final(log).rest()),
{
    broadcast use flow::lemma_run_bind;

    match ensure_published_clean(repo, log) {
        Ok(Ok(())) => {},
        Ok(Err(e)) => return Ok(Err(e)),
        Err(action) => return Err(action),
    }
    let parent = match read_commit_id(repo, "@-", "reading published parent", log) {
        Ok(Ok(id)) => id,
        Ok(Err(e)) => return Ok(Err(e)),
        Err(action) => return Err(action),
    };
    let main = match read_commit_id(repo, "main", "reading main bookmark", log) {
        Ok(Ok(id)) => id,
        Ok(Err(e)) => return Ok(Err(e)),
        Err(action) => return Err(action),
    };
    if text::same(parent.as_str(), main.as_str()) {
        return Ok(Ok(()));
    }
    match steps::do_jj(repo, JjCall::RebaseOnMain, log) {
        Ok(Ok(())) => {},
        Ok(Err(e)) => return Ok(Err(e)),
        Err(action) => return Err(action),
    }
    ensure_published_clean(repo, log)
}

/// Moves `main` to a revision of a workspace and the published workspace with it.
pub fn publish_jj_revision(repo: &str, workspace: &str, rev: &str, log: &mut Log) -> (res: Stepped<
    Result<(), Error>,
>)
    ensures
        flow::run(move_main(repo@, workspace@, rev@), old(log).rest()) == (
            steps::tried(res),
            final(log).rest(),
        ),
{
    broadcast use {flow::lemma_run_bind, steps::lemma_run_quietly};

    match ensure_published_clean(repo, log) {
        Ok(Ok(())) => {},
        Ok(Err(e)) => return Ok(Err(e)),
        Err(action) => return Err(action),
    }
    let old_main = match read_commit_id(repo, "main", "reading main before publish", log) {
        Ok(id) => id,
        Err(action) => return Err(action),
    };
    let new_main = match read_commit_id(workspace, rev, "reading revision before publish", log) {
        Ok(Ok(id)) => id,
        Ok(Err(e)) => return Ok(Err(e)),
        Err(action) => return Err(action),
    };
    match steps::do_jj(workspace, JjCall::SetMain { rev: new_main }, log) {
        Ok(Ok(())) => {},
        Ok(Err(e)) => return Ok(Err(e)),
        Err(action) => return Err(action),
    }
    match prepare_jj_published_workspace(repo, log) {
        Ok(Ok(())) => Ok(Ok(())),
        Ok(Err(e)) => match old_main {
            Ok(rev) => match steps::run_quietly(
                Action::Jj { repo: workspace.to_string(), call: JjCall::SetMain { rev } },
                log,
            ) {
                Ok(()) => Ok(Err(e)),
                Err(action) => Err(action),
            },
            Err(_) => Ok(Err(e)),
        },
        Err(action) => Err(action),
    }
}

impl PublishedWikiRepo {
    /// The published workspace of a repository.
    pub fn new(repo: String, workflow: VcsWorkflow) -> (res: Self)
        ensures
            res.deep_view() == (PublishedWikiRepo { repo: repo@, workflow }),
    {
        PublishedWikiRepo { repo, workflow }
    }

    /// The directory that holds the wiki's pages.
    pub fn wiki_dir(&self) -> (res: String)
        ensures
            res@ == self.deep_view().pages(),
    {
        paths::join(self.repo.as_str(), "wiki")
    }

    /// The wiki's repository.
    pub fn wiki_repo(&self) -> (res: &str)
        ensures
            res@ == self.deep_view().repo,
    {
        self.repo.as_str()
    }

    fn ready(&self, log: &mut Log) -> (res: Stepped<Result<(), Error>>)
        ensures
            flow::run(self.deep_view().readying(), old(log).rest()) == (
                steps::tried(res),
                final(log).rest(),
            ),
    {
        match self.workflow {
            VcsWorkflow::Unversioned => Ok(Ok(())),
            VcsWorkflow::Jj => prepare_jj_published_workspace(self.repo.as_str(), log),
        }
    }

    /// Makes the workspace ready.
    pub fn prepare(&self, log: &mut Log) -> (res: Stepped<Result<(), Error>>)
        ensures
            flow::run(self.deep_view().preparation(), old(log).rest()) == (
                steps::tried(res),
                final(log).rest(),
            ),
    {
        broadcast use {flow::lemma_run_bind, steps::lemma_run_quietly};

        match steps::run_quietly(Action::Acquire(Lock::Published), log) {
            Ok(()) => {},
            Err(action) => return Err(action),
        }
        let outcome = match self.ready(log) {
            Ok(outcome) => outcome,
            Err(action) => return Err(action),
        };
        match steps::run_quietly(Action::Release(Lock::Published), log) {
            Ok(()) => Ok(outcome),
            Err(action) => Err(action),
        }
    }

    /// Makes the workspace ready for a reader, who keeps its lock where that succeeds.
    pub fn prepare_for_read(&self, log: &mut Log) -> (res: Stepped<Result<(), Error>>)
        ensures
            flow::run(self.deep_view().read_preparation(), old(log).rest()) == (
                steps::tried(res),
                final(log).rest(),
            ),
    {
        broadcast use {flow::lemma_run_bind, steps::lemma_run_quietly};

        match steps::run_quietly(Action::Acquire(Lock::Published), log) {
            Ok(()) => {},
            Err(action) => return Err(action),
        }
        match self.ready(log) {
            Ok(Ok(())) => Ok(Ok(())),
            Ok(Err(e)) => match steps::run_quietly(Action::Release(Lock::Published), log) {
                Ok(()) => Ok(Err(e)),
                Err(action) => Err(action),
            },
            Err(action) => Err(action),
        }
    }

    /// Makes a revision of a workspace the published one.
    pub fn publish_revision(&self, workspace: &str, rev: &str, log: &mut Log) -> (res: Stepped<
        Result<(), Error>,
    >)
        ensures
            flow::run(self.deep_view().publication(workspace@, rev@), old(log).rest()) == (
                steps::tried(res),
                final(log).rest(),
            ),
    {
        broadcast use {flow::lemma_run_bind, steps::lemma_run_quietly};

        match steps::run_quietly(Action::Acquire(Lock::Published), log) {
            Ok(()) => {},
            Err(action) => return Err(action),
        }
        let outcome = match self.workflow {
            VcsWorkflow::Unversioned => Ok(()),
            VcsWorkflow::Jj => match publish_jj_revision(
                self.repo.as_str(),
                workspace,
                rev,
                log,
            ) {
                Ok(outcome) => outcome,
                Err(action) => return Err(action),
            },
        };
        match steps::run_quietly(Action::Release(Lock::Published), log) {
            Ok(()) => Ok(outcome),
            Err(action) => Err(action),
        }
    }
}

/// The pages of a wiki lie in the directory `wiki` of its repository.
pub proof fn pages_lie_in_the_repository(published: PublishedWikiRepo<Seq<char>>)
    requires
        published.repo.len() > 0,
        published.repo.last() != '/',
    ensures
        published.pages() == published.repo + "/wiki"@,
{
    reveal_strlit("wiki");
    reveal_strlit("/wiki");
    reveal_strlit("/");
    paths::paths_are_taken_from_directories(published.repo, "wiki"@);
    assert(published.repo + "/"@ + "wiki"@ =~= published.repo + "/wiki"@);
}

} // verus!
