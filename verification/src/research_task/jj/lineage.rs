//! Where the commits come from that a research flow brings into `main`.

use vstd::prelude::*;

use crate::research_task::jj;
use crate::research_task::jj::command;
use crate::research_task::jj::command::Effect;
use crate::research_task::jj::publication;
use crate::research_task::jj::watch;
use crate::research_task::jj::workflow;
use crate::research_task::jj::workflow::{Integrated, Staged, Workflow};
use crate::research_task::jj::workspace;
use crate::research_task::jj::workspace::OwnedWorkspace;
use crate::research_task::jj::MergeKind;
use crate::research_task::published;
use crate::research_task::published::PublishedWikiRepo;
use crate::research_task::steps;
use crate::research_task::steps::{Act, Action, Fault, Rep, Reply, Steps};
use crate::text;

verus! {

/// A research task: where it works, and what it is about.
pub struct Job {
    /// The published workspace.
    pub home: Seq<char>,
    /// The workspace in which the agent works.
    pub research: OwnedWorkspace<Seq<char>>,
    /// The workspace in which its commit is merged where `main` has moved on.
    pub merge: OwnedWorkspace<Seq<char>>,
    pub prompt: Seq<char>,
    pub task_id: Seq<char>,
    pub question: Seq<char>,
}

/// What is known of a research flow.
pub struct Trail {
    /// Whether the agent's workspace was created on top of `main`.
    pub opened: bool,
    /// What the agent answered there.
    pub answer: Option<Seq<char>>,
    /// Whether what the agent did was recorded.
    pub recorded: bool,
    /// Whether the record was found to change something.
    pub changed: bool,
    /// Whether the commit was described with the task and the question.
    pub described: bool,
    /// The commit of the agent's workspace, when it was last read.
    pub work: Option<Seq<char>>,
    /// The commit under it, when it was last read.
    pub parent: Option<Seq<char>>,
    /// Whether `main` was found to stand on that commit.
    pub level: bool,
    /// Whether a workspace was created that merges `main` and the agent's commit.
    pub merged: bool,
    /// The commit of that workspace, when it was last read.
    pub merge: Option<Seq<char>>,
    /// Whether that workspace was found to be without conflicts since an agent last worked in it.
    pub settled: bool,
    /// Whether that workspace was recorded since an agent last worked in it.
    pub settling: bool,
    /// Whether `main` was moved.
    pub moved: bool,
}

/// Nothing known yet.
pub open spec fn start() -> Trail {
    Trail {
        opened: false,
        answer: None,
        recorded: false,
        changed: false,
        described: false,
        work: None,
        parent: None,
        level: false,
        merged: false,
        merge: None,
        settled: false,
        settling: true,
        moved: false,
    }
}

/// Whether a reply is the text of no conflicts.
pub open spec fn no_conflicts_in(reply: Rep) -> bool {
    steps::text_reply(reply) matches Ok(files) && text::is_blank(files)
}

/// Whether `main` is known to stand on the parent of the agent's commit, after it was read.
pub open spec fn is_level(trail: Trail, main: Option<Seq<char>>) -> bool {
    trail.level || main is Some && main == trail.parent
}

/// What is known after the reply to an action.
pub open spec fn trail_after(job: Job, trail: Trail, action: Act, reply: Rep) -> Trail {
    match action {
        Action::Agent { prompt, dir } => if dir == job.research.path {
            Trail {
                answer: match reply {
                    Reply::Text(answer) => Some(answer),
                    _ => None,
                },
                recorded: false,
                ..trail
            }
        } else {
            Trail { settled: false, settling: false, ..trail }
        },
        Action::Jj { repo, call } => match command::effect_of(call.args()) {
            Effect::AddsWorkspace { name, on, message, path } => if reply is Failed {
                trail
            } else if path == job.research.path {
                Trail { opened: on == seq!["main"@], ..trail }
            } else {
                Trail {
                    merged: trail.work matches Some(work) && on == seq!["main"@, work],
                    settled: false,
                    settling: true,
                    ..trail
                }
            },
            Effect::RecordsWorkingCopy => if reply is Failed {
                trail
            } else if repo == job.research.path {
                Trail { recorded: true, ..trail }
            } else {
                Trail { settling: true, ..trail }
            },
            Effect::ListsChanges { rev: _ } => if repo == job.research.path {
                Trail { changed: !publication::no_edits_in(reply), ..trail }
            } else {
                trail
            },
            Effect::ListsConflicts => Trail {
                settled: trail.settling && no_conflicts_in(reply),
                ..trail
            },
            Effect::DescribesWorkingCopy { text } => if repo == job.research.path {
                Trail { described: !(reply is Failed), ..trail }
            } else {
                trail
            },
            Effect::ListsCommits { revset } => if revset == "main"@ {
                Trail { level: is_level(trail, publication::id_in(reply)), ..trail }
            } else if revset == "@-"@ && repo == job.research.path {
                Trail { parent: publication::id_in(reply), ..trail }
            } else if revset != "@"@ {
                trail
            } else if repo == job.research.path {
                Trail { work: publication::id_in(reply), ..trail }
            } else {
                Trail { merge: publication::id_in(reply), ..trail }
            },
            Effect::SetsBookmark { bookmark: _, rev: _ } => Trail {
                moved: trail.moved || !(reply is Failed),
                ..trail
            },
            _ => trail,
        },
        _ => trail,
    }
}

/// Which actions a research flow takes, given what is known.
///
/// The agent is asked the prompt once, in a workspace that was created for it on top of `main`; what
/// it did is recorded before it is looked at, and described with the task and the question. `main`
/// is moved to the agent's commit where it stands on the parent of that, or to a commit without conflicts that merges `main` and the
/// agent's commit, and to nothing else, unless it is to go back.
pub open spec fn leads_on(job: Job, action: Act, trail: Trail) -> bool {
    match action {
        Action::Agent { prompt, dir } => if dir == job.research.path {
            prompt == job.prompt && trail.opened && trail.answer is None
        } else {
            dir == job.merge.path && trail.merged && !trail.settled && text::contains(
                prompt,
                job.question,
            ) && text::contains(prompt, job.task_id)
        },
        Action::Jj { repo, call } => match command::effect_of(call.args()) {
            Effect::AddsWorkspace { name, on, message, path } => {
                ||| (OwnedWorkspace { name, path }) == job.research && on == seq!["main"@]
                ||| {
                    &&& (OwnedWorkspace { name, path }) == job.merge
                    &&& trail.work is Some
                    &&& on == seq!["main"@, trail.work->0]
                    &&& message == Some("wikidesk merge: "@ + job.task_id)
                }
            },
            Effect::ListsChanges { rev } => rev == "@"@ && (repo == job.home || repo
                == job.research.path && trail.answer is Some && trail.recorded),
            Effect::DescribesWorkingCopy { text } => {
                ||| repo == job.research.path && trail.changed && text == jj::research_message_of(
                    job.task_id,
                    job.question,
                )
                ||| repo == job.merge.path && trail.settled
            },
            Effect::SetsBookmark { bookmark, rev } => bookmark == "main"@ && (trail.moved || {
                ||| {
                    &&& repo == job.research.path
                    &&& trail.work == Some(rev)
                    &&& trail.recorded && trail.changed && trail.described && trail.level
                }
                ||| {
                    &&& repo == job.merge.path
                    &&& trail.merge == Some(rev)
                    &&& trail.merged && trail.settled
                }
            }),
            _ => true,
        },
        _ => true,
    }
}

/// What is known after the reply to an action of a job.
pub open spec fn follows(job: Job) -> spec_fn(Trail, Act, Rep) -> Trail {
    |trail: Trail, action: Act, reply: Rep| trail_after(job, trail, action, reply)
}

/// The rule that [`leads_on`] states for a job.
pub open spec fn leads(job: Job) -> spec_fn(Act, Trail) -> bool {
    |action: Act, trail: Trail| leads_on(job, action, trail)
}

/// Whether a flow keeps to the trail of a job.
pub open spec fn on_trail<T>(
    p: Steps<T>,
    trail: Trail,
    job: Job,
    end: spec_fn(T, Trail) -> bool,
) -> bool {
    watch::watched(p, trail, follows(job), leads(job), end)
}

/// Whether the workspaces of a job lie apart.
pub open spec fn lies_apart(job: Job) -> bool {
    &&& job.home != job.research.path
    &&& job.home != job.merge.path
    &&& job.research.path != job.merge.path
}

broadcast group group_trail {
    watch::group_watched,
    command::calls_do_what_flows_rely_on,
}

broadcast proof fn trail_own_id(
    dir: Seq<char>,
    op: Seq<char>,
    trail: Trail,
    job: Job,
    end: spec_fn(Result<Seq<char>, Fault>, Trail) -> bool,
)
    requires
        forall|v: Result<Seq<char>, Fault>, t: Trail|
            t == (if dir == job.research.path {
                Trail { work: workflow::known(v), ..trail }
            } else {
                Trail { merge: workflow::known(v), ..trail }
            }) ==> #[trigger] end(v, t),
    ensures
        #[trigger] watch::watched(published::commit_id(dir, "@"@, op), trail, follows(job), leads(job), end),
{
    broadcast use group_trail;

    reveal_strlit("main");
    reveal_strlit("@");
    reveal_strlit("@-");
    assert("main"@.len() == 4);
    assert("@"@.len() == 1);
    assert("@-"@.len() == 2);
}

broadcast proof fn trail_main(
    repo: Seq<char>,
    op: Seq<char>,
    trail: Trail,
    job: Job,
    end: spec_fn(Result<Seq<char>, Fault>, Trail) -> bool,
)
    requires
        forall|v: Result<Seq<char>, Fault>, t: Trail|
            t == (Trail { level: is_level(trail, workflow::known(v)), ..trail }) ==> #[trigger] end(
                v,
                t,
            ),
    ensures
        #[trigger] watch::watched(published::commit_id(repo, "main"@, op), trail, follows(job), leads(job), end),
{
    broadcast use group_trail;

}

broadcast proof fn trail_parent(
    repo: Seq<char>,
    op: Seq<char>,
    trail: Trail,
    job: Job,
    end: spec_fn(Result<Seq<char>, Fault>, Trail) -> bool,
)
    requires
        forall|v: Result<Seq<char>, Fault>, t: Trail|
            t == (if repo == job.research.path {
                Trail { parent: workflow::known(v), ..trail }
            } else {
                trail
            }) ==> #[trigger] end(v, t),
    ensures
        #[trigger] watch::watched(published::commit_id(repo, "@-"@, op), trail, follows(job), leads(job), end),
{
    broadcast use group_trail;

    reveal_strlit("main");
    reveal_strlit("@");
    reveal_strlit("@-");
    assert("main"@.len() == 4);
    assert("@"@.len() == 1);
    assert("@-"@.len() == 2);
}

broadcast proof fn trail_ensure_clean(
    trail: Trail,
    job: Job,
    end: spec_fn(Result<(), Fault>, Trail) -> bool,
)
    requires
        lies_apart(job),
        forall|v: Result<(), Fault>| #[trigger] end(v, trail),
    ensures
        #[trigger] watch::watched(published::ensure_clean(job.home), trail, follows(job), leads(job), end),
{
    broadcast use group_trail;

}

/// What following `main` leaves known.
pub open spec fn apart_from_main(before: Trail, after: Trail) -> bool {
    after == (Trail { level: after.level, ..before }) && (before.level ==> after.level)
}

broadcast proof fn trail_follow_main(
    trail: Trail,
    job: Job,
    end: spec_fn(Result<(), Fault>, Trail) -> bool,
)
    requires
        lies_apart(job),
        forall|v: Result<(), Fault>, t: Trail| apart_from_main(trail, t) ==> #[trigger] end(v, t),
    ensures
        #[trigger] watch::watched(published::follow_main(job.home), trail, follows(job), leads(job), end),
{
    broadcast use {group_trail, trail_main, trail_parent, trail_ensure_clean};

}

broadcast proof fn trail_preparation(
    published: PublishedWikiRepo<Seq<char>>,
    trail: Trail,
    job: Job,
    end: spec_fn(Result<(), Fault>, Trail) -> bool,
)
    requires
        lies_apart(job),
        published.repo == job.home,
        forall|v: Result<(), Fault>, t: Trail| apart_from_main(trail, t) ==> #[trigger] end(v, t),
    ensures
        #[trigger] watch::watched(published.preparation(), trail, follows(job), leads(job), end),
{
    broadcast use {group_trail, trail_follow_main};

}

/// Whether a workspace holds a commit that may become `main`.
pub open spec fn is_ripe(job: Job, dir: Seq<char>, trail: Trail) -> bool {
    ||| dir == job.research.path && trail.recorded && trail.changed && trail.described && trail.level
    ||| dir == job.merge.path && trail.merged && trail.settled
}

broadcast proof fn trail_undone(
    dir: Seq<char>,
    old_main: Result<Seq<char>, Fault>,
    outcome: Result<(), Fault>,
    trail: Trail,
    job: Job,
    end: spec_fn(Result<(), Fault>, Trail) -> bool,
)
    requires
        trail.moved,
        forall|v: Result<(), Fault>, t: Trail| #[trigger] end(v, t),
    ensures
        #[trigger] watch::watched(
            published::undone_on_failure(dir, old_main, outcome),
            trail,
            follows(job),
            leads(job),
            end,
        ),
{
    broadcast use group_trail;

}

broadcast proof fn trail_move_main(
    dir: Seq<char>,
    trail: Trail,
    job: Job,
    end: spec_fn(Result<(), Fault>, Trail) -> bool,
)
    requires
        lies_apart(job),
        is_ripe(job, dir, trail),
        forall|v: Result<(), Fault>, t: Trail| #[trigger] end(v, t),
    ensures
        #[trigger] watch::watched(
            published::move_main(job.home, dir, "@"@),
            trail,
            follows(job),
            leads(job),
            end,
        ),
{
    broadcast use {
        group_trail,
        trail_main,
        trail_own_id,
        trail_ensure_clean,
        trail_follow_main,
        trail_undone,
    };

}

broadcast proof fn trail_publication(
    published: PublishedWikiRepo<Seq<char>>,
    dir: Seq<char>,
    trail: Trail,
    job: Job,
    end: spec_fn(Result<(), Fault>, Trail) -> bool,
)
    requires
        lies_apart(job),
        published.repo == job.home,
        is_ripe(job, dir, trail),
        forall|v: Result<(), Fault>, t: Trail| #[trigger] end(v, t),
    ensures
        #[trigger] watch::watched(published.publication(dir, "@"@), trail, follows(job), leads(job), end),
{
    broadcast use {group_trail, trail_move_main};

}

broadcast proof fn trail_recording(
    dir: Seq<char>,
    kind: MergeKind<Seq<char>>,
    answer: Option<Seq<char>>,
    trail: Trail,
    job: Job,
    end: spec_fn(Result<(), Fault>, Trail) -> bool,
)
    requires
        lies_apart(job),
        dir == job.merge.path,
        trail.settled,
        forall|v: Result<(), Fault>| #[trigger] end(v, trail),
    ensures
        #[trigger] watch::watched(workflow::recording(dir, kind, answer), trail, follows(job), leads(job), end),
{
    broadcast use group_trail;

}

proof fn lemma_prompt_holds(job: Job, conflicts: Seq<char>)
    ensures
        text::contains(
            jj::merge_prompt_of(job.task_id, job.question, conflicts),
            job.question,
        ),
        text::contains(
            jj::merge_prompt_of(job.task_id, job.question, conflicts),
            job.task_id,
        ),
{
    let prompt = jj::merge_prompt_of(job.task_id, job.question, conflicts);
    let first = "You are resolving a wikidesk jj merge for task "@;
    let second =
        ".\n\nThe current workspace is a jj merge commit. Resolve all conflicts in this wiki repo. Preserve both sides where possible, keep the wiki coherent, and edit only files in this repo. When finished, return concise resolution notes.\n\nOriginal research question:\n"@;
    let third = "\n\nConflicted files:\n"@ + conflicts;
    let a = first.len() as int;
    let b = a + job.task_id.len() + second.len();
    assert(prompt.subrange(a, a + job.task_id.len()) =~= job.task_id);
    assert(text::occurs_at(prompt, job.task_id, a));
    assert(prompt.subrange(b, b + job.question.len()) =~= job.question);
    assert(text::occurs_at(prompt, job.question, b));
}

broadcast proof fn trail_resolution(
    dir: Seq<char>,
    kind: MergeKind<Seq<char>>,
    trail: Trail,
    job: Job,
    end: spec_fn(Result<(), Fault>, Trail) -> bool,
)
    requires
        lies_apart(job),
        dir == job.merge.path,
        kind == (MergeKind::Research { task_id: job.task_id, question: job.question }),
        trail.merged,
        trail.settling,
        forall|v: Result<(), Fault>, t: Trail|
            (v is Ok ==> t.merged && t.settled) ==> #[trigger] end(v, t),
    ensures
        #[trigger] watch::watched(workflow::resolution(dir, kind), trail, follows(job), leads(job), end),
{
    broadcast use {group_trail, trail_recording};

    assert forall|conflicts: Seq<char>|
        text::contains(#[trigger] kind.prompt_of(conflicts), job.question) && text::contains(
            kind.prompt_of(conflicts),
            job.task_id,
        ) by {
        lemma_prompt_holds(job, conflicts);
    }
}

broadcast proof fn trail_parents(
    path: Seq<char>,
    trail: Trail,
    job: Job,
    end: spec_fn(Result<(), Fault>, Trail) -> bool,
)
    requires
        forall|v: Result<(), Fault>| #[trigger] end(v, trail),
    ensures
        #[trigger] watch::watched(workflow::parents(path), trail, follows(job), leads(job), end),
{
    broadcast use group_trail;

}

broadcast proof fn trail_research_opening(
    wf: Workflow<Seq<char>>,
    trail: Trail,
    job: Job,
    end: spec_fn(Result<(), Fault>, Trail) -> bool,
)
    requires
        lies_apart(job),
        forall|v: Result<(), Fault>, t: Trail|
            t == (if v is Ok {
                Trail { opened: true, ..trail }
            } else {
                trail
            }) ==> #[trigger] end(v, t),
    ensures
        #[trigger] watch::watched(wf.research_opening(job.research), trail, follows(job), leads(job), end),
{
    broadcast use {group_trail, trail_parents};

}

broadcast proof fn trail_discarding<T>(
    wf: Workflow<Seq<char>>,
    ws: OwnedWorkspace<Seq<char>>,
    next: Steps<T>,
    trail: Trail,
    job: Job,
    end: spec_fn(T, Trail) -> bool,
)
    requires
        watch::watched(next, trail, follows(job), leads(job), end),
    ensures
        #[trigger] watch::watched(wf.discarding(ws, next), trail, follows(job), leads(job), end),
{
    broadcast use group_trail;

}

broadcast proof fn trail_merging(
    wf: Workflow<Seq<char>>,
    published: PublishedWikiRepo<Seq<char>>,
    revs: Seq<Seq<char>>,
    kind: MergeKind<Seq<char>>,
    trail: Trail,
    job: Job,
    end: spec_fn(Result<(), Fault>, Trail) -> bool,
)
    requires
        lies_apart(job),
        published.repo == job.home,
        kind == (MergeKind::Research { task_id: job.task_id, question: job.question }),
        trail.work is Some,
        revs == seq!["main"@, trail.work->0],
        forall|v: Result<(), Fault>, t: Trail| #[trigger] end(v, t),
    ensures
        #[trigger] watch::watched(wf.merging(published, job.merge, revs, kind), trail, follows(job), leads(job), end),
{
    broadcast use {group_trail, trail_parents, trail_resolution, trail_publication};

}

broadcast proof fn trail_committing(
    answer: Seq<char>,
    trail: Trail,
    job: Job,
    end: spec_fn(Result<Staged<Seq<char>>, Fault>, Trail) -> bool,
)
    requires
        lies_apart(job),
        trail.changed,
        forall|v: Result<Staged<Seq<char>>, Fault>, t: Trail|
            (v is Ok ==> {
                &&& v->Ok_0 == (Staged::Changed {
                    answer,
                    rev: v->Ok_0->rev,
                    parent: v->Ok_0->parent,
                })
                &&& t == (Trail {
                    described: true,
                    work: Some(v->Ok_0->rev),
                    parent: Some(v->Ok_0->parent),
                    ..trail
                })
            }) ==> #[trigger] end(v, t),
    ensures
        #[trigger] watch::watched(
            workflow::committing(job.research.path, answer, job.task_id, job.question),
            trail,
            follows(job),
            leads(job),
            end,
        ),
{
    broadcast use {group_trail, trail_own_id, trail_parent};

}

/// What the agent's work leaves known: a commit that was recorded, found to change something,
/// described and read, where there is one.
pub open spec fn is_worked(v: Result<Staged<Seq<char>>, Fault>, trail: Trail) -> bool {
    match v {
        Ok(Staged::Changed { answer, rev, parent }) => {
            &&& trail.answer == Some(answer)
            &&& trail.work == Some(rev)
            &&& trail.parent == Some(parent)
            &&& trail.recorded && trail.changed && trail.described
            &&& !trail.moved
        },
        Ok(Staged::Unchanged { answer }) => trail.answer == Some(answer) && trail.recorded
            && !trail.changed && !trail.moved,
        Err(_) => !trail.moved,
    }
}

broadcast proof fn trail_staging(
    wf: Workflow<Seq<char>>,
    trail: Trail,
    job: Job,
    end: spec_fn(Result<Staged<Seq<char>>, Fault>, Trail) -> bool,
)
    requires
        lies_apart(job),
        job.research == workspace::research_workspace(wf.workspace_root, job.task_id),
        trail.answer is None,
        !trail.moved,
        forall|v: Result<Staged<Seq<char>>, Fault>, t: Trail|
            (v is Ok ==> is_worked(v, t)) ==> #[trigger] end(v, t),
    ensures
        #[trigger] watch::watched(wf.staging(job.prompt, job.task_id, job.question), trail, follows(job), leads(job), end),
{
    broadcast use {group_trail, trail_research_opening, trail_committing};

}

broadcast proof fn trail_integration(
    wf: Workflow<Seq<char>>,
    published: PublishedWikiRepo<Seq<char>>,
    rev: Seq<char>,
    parent: Seq<char>,
    trail: Trail,
    job: Job,
    end: spec_fn(Integrated<Fault>, Trail) -> bool,
)
    requires
        lies_apart(job),
        published.repo == job.home,
        job.research == workspace::research_workspace(wf.workspace_root, job.task_id),
        job.merge == workspace::merge_workspace(wf.workspace_root, job.task_id),
        trail.work == Some(rev),
        trail.parent == Some(parent),
        trail.recorded && trail.changed && trail.described,
        forall|v: Integrated<Fault>, t: Trail| #[trigger] end(v, t),
    ensures
        #[trigger] watch::watched(
            wf.integration(published, job.task_id, job.question, rev, parent),
            trail,
            follows(job),
            leads(job),
            end,
        ),
{
    broadcast use {group_trail, trail_main, trail_publication, trail_merging};

}

/// A research flow brings into `main` what the agent did, and nothing else: the agent is asked the
/// prompt in a workspace of its own on top of `main`, its changes are recorded and described with
/// the task and the question, and `main` is moved to its commit where `main` has not moved on, else
/// to a merge of `main` and its commit that is without conflicts.
pub proof fn research_brings_in_what_the_agent_did(
    wf: Workflow<Seq<char>>,
    published: PublishedWikiRepo<Seq<char>>,
    job: Job,
)
    requires
        lies_apart(job),
        published.repo == job.home,
        job.research == workspace::research_workspace(wf.workspace_root, job.task_id),
        job.merge == workspace::merge_workspace(wf.workspace_root, job.task_id),
    ensures
        on_trail(
            wf.research(published, job.prompt, job.task_id, job.question),
            start(),
            job,
            |v: Result<Seq<char>, Fault>, t: Trail| true,
        ),
{
    broadcast use {
        group_trail,
        trail_preparation,
        trail_staging,
        trail_integration,
        trail_discarding,
    };

}

} // verus!
