//! What every flow of a wiki keeps to, whatever replies it gets: which directories it touches,
//! which locks it holds when it moves `main`, and which workspaces it leaves behind.

use vstd::prelude::*;

use crate::config::GitSyncConfig;
use crate::paths;
use crate::flow;
use crate::flow::{Program, Status};
use crate::research_task::jj::command;
use crate::research_task::jj::command::{Effect, JjCall};
use crate::research_task::jj::workflow;
use crate::research_task::jj::workflow::{Fetched, Integrated, Staged, Workflow};
use crate::research_task::jj::workspace;
use crate::research_task::jj::workspace::OwnedWorkspace;
use crate::research_task::jj::MergeKind;
use crate::research_task::published;
use crate::research_task::published::PublishedWikiRepo;
use crate::research_task::steps;
use crate::research_task::steps::{Act, Action, Fault, Lock, Rep, Reply, Steps};

verus! {

/// Where a flow may work: the wiki's repository, and the workspaces that are the flow's own.
pub struct Site {
    pub wiki_repo: Seq<char>,
    pub owned: Set<OwnedWorkspace<Seq<char>>>,
}

/// What a flow holds at one of its steps: locks, and workspaces that it created and has not
/// forgotten.
pub struct Held {
    pub integration: bool,
    pub published: bool,
    pub open: Set<Seq<char>>,
}

/// Nothing held.
pub open spec fn free() -> Held {
    Held { integration: false, published: false, open: Set::empty() }
}

impl Site {
    /// Whether a directory is that of a workspace of the flow's own.
    pub open spec fn owns_dir(self, dir: Seq<char>) -> bool {
        exists|ws: OwnedWorkspace<Seq<char>>| #[trigger] self.owned.contains(ws) && ws.path == dir
    }

    /// Whether a name is that of a workspace of the flow's own.
    pub open spec fn owns_name(self, name: Seq<char>) -> bool {
        exists|ws: OwnedWorkspace<Seq<char>>| #[trigger] self.owned.contains(ws) && ws.name == name
    }
}

/// Whether a flow may take an action, with what it holds, by what the command line of the action
/// does.
///
/// The agent works in workspaces of the flow's own, and only those are recorded, described,
/// searched for conflicts, created, forgotten and removed. `main` moves, and the remote is spoken
/// to, under the integration lock. The published workspace moves under its own lock, which is
/// never held when the integration lock is waited for.
pub open spec fn allowed(action: Act, held: Held, site: Site) -> bool {
    match action {
        Action::Acquire(Lock::Integration) => !held.integration && !held.published,
        Action::Acquire(Lock::Published) => !held.published,
        Action::Release(Lock::Integration) => held.integration,
        Action::Release(Lock::Published) => held.published,
        Action::Agent { prompt: _, dir } => site.owns_dir(dir),
        Action::RemoveDir { path } => site.owns_dir(path),
        Action::CreateDir { path } => exists|ws: OwnedWorkspace<Seq<char>>| #[trigger]
            site.owned.contains(ws) && paths::parent_of(ws.path) == Some(path),
        Action::Jj { repo, call } => match command::effect_of(call.args()) {
            Effect::SetsBookmark { bookmark, rev: _ } => held.integration && bookmark == "main"@ && (
            repo == site.wiki_repo || site.owns_dir(repo)),
            Effect::Moves { rev, onto } => held.published && repo == site.wiki_repo && rev == "@"@
                && onto == "main"@,
            Effect::DescribesWorkingCopy { text: _ } => site.owns_dir(repo),
            Effect::RecordsWorkingCopy => site.owns_dir(repo),
            Effect::ListsConflicts => site.owns_dir(repo),
            Effect::Fetches { remote: _ } => held.integration && repo == site.wiki_repo,
            Effect::TracksBookmark { remote_bookmark: _ } => held.integration && repo
                == site.wiki_repo,
            Effect::Pushes { remote: _, bookmark } => held.integration && repo == site.wiki_repo
                && bookmark == "main"@,
            Effect::AddsWorkspace { name, on: _, message, path } => repo == site.wiki_repo && (
            message is Some ==> held.integration) && site.owned.contains(
                OwnedWorkspace { name, path },
            ),
            Effect::ForgetsWorkspace { name } => repo == site.wiki_repo && site.owns_name(name),
            Effect::ListsWorkspaces | Effect::ListsChanges { rev: _ } | Effect::ListsCommits {
                revset: _,
            } => true,
            Effect::Unknown => false,
        },
    }
}

/// What a flow holds after an action.
pub open spec fn after(action: Act, held: Held) -> Held {
    match action {
        Action::Acquire(Lock::Integration) => Held { integration: true, ..held },
        Action::Acquire(Lock::Published) => Held { published: true, ..held },
        Action::Release(Lock::Integration) => Held { integration: false, ..held },
        Action::Release(Lock::Published) => Held { published: false, ..held },
        Action::Jj { repo: _, call } => match command::effect_of(call.args()) {
            Effect::AddsWorkspace { name, on: _, message: _, path: _ } => Held {
                open: held.open.insert(name),
                ..held
            },
            Effect::ForgetsWorkspace { name } => Held { open: held.open.remove(name), ..held },
            _ => held,
        },
        _ => held,
    }
}

/// The rule that [`allowed`] states for a site.
pub open spec fn within(site: Site) -> spec_fn(Act, Held) -> bool {
    |action: Act, held: Held| allowed(action, held, site)
}

/// Whether every action that a flow can come to obeys the rule, and `end` holds whenever it finishes.
pub open spec fn guarded<T>(
    p: Steps<T>,
    held: Held,
    rule: spec_fn(Act, Held) -> bool,
    end: spec_fn(T, Held) -> bool,
) -> bool
    decreases p,
{
    match p {
        Program::Return(v) => end(v, held),
        Program::Do { action, then } => {
            &&& rule(action, held)
            &&& forall|reply: Rep| #![trigger then(reply)]
                guarded(then(reply), after(action, held), rule, end)
        },
    }
}

/// What a flow holds after the replies of a log.
pub open spec fn held_after<T>(p: Steps<T>, log: Seq<Rep>, held: Held) -> Held
    decreases p,
{
    match p {
        Program::Return(v) => held,
        Program::Do { action, then } => if log.len() == 0 {
            held
        } else {
            held_after(then(log[0]), log.drop_first(), after(action, held))
        },
    }
}

/// A guarded flow obeys the rule at each action that it comes to, whatever replies it got, and
/// where it finishes, `end` holds.
pub proof fn guarded_runs_obey<T>(
    p: Steps<T>,
    held: Held,
    rule: spec_fn(Act, Held) -> bool,
    end: spec_fn(T, Held) -> bool,
    log: Seq<Rep>,
)
    requires
        guarded(p, held, rule, end),
    ensures
        match flow::run(p, log).0 {
            Status::Waiting(action) => rule(action, held_after(p, log, held)),
            Status::Finished(v) => end(v, held_after(p, log, held)),
        },
    decreases p,
{
    match p {
        Program::Return(v) => {},
        Program::Do { action, then } => {
            if log.len() > 0 {
                guarded_runs_obey(then(log[0]), after(action, held), rule, end, log.drop_first());
            }
        },
    }
}

broadcast proof fn guarded_return<T>(
    v: T,
    held: Held,
    rule: spec_fn(Act, Held) -> bool,
    end: spec_fn(T, Held) -> bool,
)
    ensures
        #[trigger] guarded(Program::Return(v), held, rule, end) == end(v, held),
{
}

broadcast proof fn guarded_quietly<T>(
    action: Act,
    next: Steps<T>,
    held: Held,
    rule: spec_fn(Act, Held) -> bool,
    end: spec_fn(T, Held) -> bool,
)
    ensures
        #[trigger] guarded(steps::quietly(action, next), held, rule, end) == (rule(action, held) && guarded(next, after(action, held), rule, end)),
{
    let then = steps::quietly(action, next)->then;
    assert(then(Reply::Nothing) == next);
    assert(forall|reply: Rep| #[trigger] then(reply) == next);
}

broadcast proof fn guarded_bind<T, U>(
    p: Steps<T>,
    next: spec_fn(T) -> Steps<U>,
    held: Held,
    rule: spec_fn(Act, Held) -> bool,
    end: spec_fn(U, Held) -> bool,
)
    ensures
        #[trigger] guarded(flow::bind(p, next), held, rule, end) == guarded(
            p,
            held,
            rule,
            |v: T, h: Held| guarded(next(v), h, rule, end),
        ),
    decreases p,
{
    let mid = |v: T, h: Held| guarded(next(v), h, rule, end);
    match p {
        Program::Return(v) => {
            assert(mid(v, held) == guarded(next(v), held, rule, end));
        },
        Program::Do { action, then } => {
            let later = flow::bind(p, next)->then;
            assert forall|reply: Rep|
                #![trigger then(reply)]
                #![trigger later(reply)]
                guarded(then(reply), after(action, held), rule, mid) == guarded(
                    later(reply),
                    after(action, held),
                    rule,
                    end,
                ) by {
                assert(later(reply) == flow::bind(then(reply), next));
                guarded_bind(then(reply), next, after(action, held), rule, end);
            }
        },
    }
}

broadcast proof fn guarded_jj(
    repo: Seq<char>,
    call: JjCall<Seq<char>, Seq<Seq<char>>>,
    held: Held,
    rule: spec_fn(Act, Held) -> bool,
    end: spec_fn(Result<Seq<char>, Fault>, Held) -> bool,
)
    requires
        rule(Action::Jj { repo, call }, held),
        forall|v: Result<Seq<char>, Fault>| #[trigger] end(v, after(Action::Jj { repo, call }, held)),
    ensures
        #[trigger] guarded(steps::jj(repo, call), held, rule, end),
{
    reveal_with_fuel(guarded, 2);
}

broadcast proof fn guarded_agent(
    prompt: Seq<char>,
    dir: Seq<char>,
    held: Held,
    rule: spec_fn(Act, Held) -> bool,
    end: spec_fn(Result<Option<Seq<char>>, Fault>, Held) -> bool,
)
    requires
        rule(Action::Agent { prompt, dir }, held),
        forall|v: Result<Option<Seq<char>>, Fault>| #[trigger] end(v, held),
    ensures
        #[trigger] guarded(steps::agent(prompt, dir), held, rule, end),
{
    reveal_with_fuel(guarded, 2);
}

broadcast proof fn guarded_plain(
    action: Act,
    held: Held,
    rule: spec_fn(Act, Held) -> bool,
    end: spec_fn(Result<(), Fault>, Held) -> bool,
)
    requires
        rule(action, held),
        forall|v: Result<(), Fault>| #[trigger] end(v, after(action, held)),
    ensures
        #[trigger] guarded(steps::plain(action), held, rule, end),
{
    reveal_with_fuel(guarded, 2);
}

broadcast group group_guarded {
    command::calls_do_what_flows_rely_on,
    guarded_return,
    guarded_quietly,
    guarded_bind,
    guarded_jj,
    guarded_agent,
    guarded_plain,
}

broadcast proof fn guarded_commit_ids(
    repo: Seq<char>,
    rev: Seq<char>,
    op: Seq<char>,
    held: Held,
    site: Site,
    end: spec_fn(Result<Seq<Seq<char>>, Fault>, Held) -> bool,
)
    requires
        forall|v: Result<Seq<Seq<char>>, Fault>| #[trigger] end(v, held),
    ensures
        #[trigger] guarded(published::commit_ids(repo, rev, op), held, within(site), end),
{
    broadcast use group_guarded;

}

broadcast proof fn guarded_commit_id(
    repo: Seq<char>,
    rev: Seq<char>,
    op: Seq<char>,
    held: Held,
    site: Site,
    end: spec_fn(Result<Seq<char>, Fault>, Held) -> bool,
)
    requires
        forall|v: Result<Seq<char>, Fault>| #[trigger] end(v, held),
    ensures
        #[trigger] guarded(published::commit_id(repo, rev, op), held, within(site), end),
{
    broadcast use {group_guarded, guarded_commit_ids};

}

broadcast proof fn guarded_ensure_clean(
    repo: Seq<char>,
    held: Held,
    site: Site,
    end: spec_fn(Result<(), Fault>, Held) -> bool,
)
    requires
        forall|v: Result<(), Fault>| #[trigger] end(v, held),
    ensures
        #[trigger] guarded(published::ensure_clean(repo), held, within(site), end),
{
    broadcast use group_guarded;

}

broadcast proof fn guarded_follow_main(
    repo: Seq<char>,
    held: Held,
    site: Site,
    end: spec_fn(Result<(), Fault>, Held) -> bool,
)
    requires
        held.published,
        repo == site.wiki_repo,
        forall|v: Result<(), Fault>| #[trigger] end(v, held),
    ensures
        #[trigger] guarded(published::follow_main(repo), held, within(site), end),
{
    broadcast use {group_guarded, guarded_commit_id, guarded_ensure_clean};

}

broadcast proof fn guarded_preparation(
    published: PublishedWikiRepo<Seq<char>>,
    held: Held,
    site: Site,
    end: spec_fn(Result<(), Fault>, Held) -> bool,
)
    requires
        !held.published,
        published.repo == site.wiki_repo,
        forall|v: Result<(), Fault>| #[trigger] end(v, held),
    ensures
        #[trigger] guarded(published.preparation(), held, within(site), end),
{
    broadcast use {group_guarded, guarded_follow_main};

    assert(Held { published: false, ..(Held { published: true, ..held }) } == held);
}

broadcast proof fn guarded_move_main(
    repo: Seq<char>,
    dir: Seq<char>,
    rev: Seq<char>,
    held: Held,
    site: Site,
    end: spec_fn(Result<(), Fault>, Held) -> bool,
)
    requires
        held.integration,
        held.published,
        repo == site.wiki_repo,
        site.owns_dir(dir),
        forall|v: Result<(), Fault>| #[trigger] end(v, held),
    ensures
        #[trigger] guarded(published::move_main(repo, dir, rev), held, within(site), end),
{
    broadcast use {group_guarded, guarded_commit_id, guarded_ensure_clean, guarded_follow_main};

}

broadcast proof fn guarded_publication(
    published: PublishedWikiRepo<Seq<char>>,
    dir: Seq<char>,
    rev: Seq<char>,
    held: Held,
    site: Site,
    end: spec_fn(Result<(), Fault>, Held) -> bool,
)
    requires
        held.integration,
        !held.published,
        published.repo == site.wiki_repo,
        site.owns_dir(dir),
        forall|v: Result<(), Fault>| #[trigger] end(v, held),
    ensures
        #[trigger] guarded(published.publication(dir, rev), held, within(site), end),
{
    broadcast use {group_guarded, guarded_move_main};

    assert(Held { published: false, ..(Held { published: true, ..held }) } == held);
}

broadcast proof fn guarded_recording(
    dir: Seq<char>,
    kind: MergeKind<Seq<char>>,
    answer: Option<Seq<char>>,
    held: Held,
    site: Site,
    end: spec_fn(Result<(), Fault>, Held) -> bool,
)
    requires
        site.owns_dir(dir),
        forall|v: Result<(), Fault>| #[trigger] end(v, held),
    ensures
        #[trigger] guarded(workflow::recording(dir, kind, answer), held, within(site), end),
{
    broadcast use group_guarded;

}

broadcast proof fn guarded_resolution(
    dir: Seq<char>,
    kind: MergeKind<Seq<char>>,
    held: Held,
    site: Site,
    end: spec_fn(Result<(), Fault>, Held) -> bool,
)
    requires
        site.owns_dir(dir),
        forall|v: Result<(), Fault>| #[trigger] end(v, held),
    ensures
        #[trigger] guarded(workflow::resolution(dir, kind), held, within(site), end),
{
    broadcast use {group_guarded, guarded_recording};

}

broadcast proof fn guarded_parents(
    ws: OwnedWorkspace<Seq<char>>,
    held: Held,
    site: Site,
    end: spec_fn(Result<(), Fault>, Held) -> bool,
)
    requires
        site.owned.contains(ws),
        forall|v: Result<(), Fault>| #[trigger] end(v, held),
    ensures
        #[trigger] guarded(workflow::parents(ws.path), held, within(site), end),
{
    broadcast use group_guarded;

}

/// With a workspace created.
pub open spec fn opened(held: Held, name: Seq<char>) -> Held {
    Held { open: held.open.insert(name), ..held }
}

/// With a workspace forgotten.
pub open spec fn closed_off(held: Held, name: Seq<char>) -> Held {
    Held { open: held.open.remove(name), ..held }
}

broadcast proof fn guarded_research_opening(
    wf: Workflow<Seq<char>>,
    ws: OwnedWorkspace<Seq<char>>,
    held: Held,
    site: Site,
    end: spec_fn(Result<(), Fault>, Held) -> bool,
)
    requires
        wf.wiki_repo == site.wiki_repo,
        site.owned.contains(ws),
        forall|v: Result<(), Fault>| #[trigger] end(v, held),
        forall|v: Result<(), Fault>| #[trigger] end(v, opened(held, ws.name)),
    ensures
        #[trigger] guarded(wf.research_opening(ws), held, within(site), end),
{
    broadcast use {group_guarded, guarded_parents};

    assert(site.owns_dir(ws.path));
    assert(OwnedWorkspace { name: ws.name, path: ws.path } == ws);
    assert(after(
        Action::Jj {
            repo: wf.wiki_repo,
            call: JjCall::AddFromMain { name: ws.name, path: ws.path },
        },
        held,
    ) == opened(held, ws.name));
}

broadcast proof fn guarded_discarding<T>(
    wf: Workflow<Seq<char>>,
    ws: OwnedWorkspace<Seq<char>>,
    next: Steps<T>,
    held: Held,
    site: Site,
    end: spec_fn(T, Held) -> bool,
)
    requires
        wf.wiki_repo == site.wiki_repo,
        site.owned.contains(ws),
        guarded(next, closed_off(held, ws.name), within(site), end),
    ensures
        #[trigger] guarded(wf.discarding(ws, next), held, within(site), end),
{
    broadcast use group_guarded;

    assert(site.owns_dir(ws.path));
    assert(site.owns_name(ws.name));
}

broadcast proof fn guarded_merging(
    wf: Workflow<Seq<char>>,
    published: PublishedWikiRepo<Seq<char>>,
    ws: OwnedWorkspace<Seq<char>>,
    revs: Seq<Seq<char>>,
    kind: MergeKind<Seq<char>>,
    held: Held,
    site: Site,
    end: spec_fn(Result<(), Fault>, Held) -> bool,
)
    requires
        held.integration,
        !held.published,
        wf.wiki_repo == site.wiki_repo,
        published.repo == site.wiki_repo,
        site.owned.contains(ws),
        forall|v: Result<(), Fault>| #[trigger] end(v, held),
        forall|v: Result<(), Fault>| #[trigger] end(v, opened(held, ws.name)),
    ensures
        #[trigger] guarded(wf.merging(published, ws, revs, kind), held, within(site), end),
{
    broadcast use {group_guarded, guarded_parents, guarded_resolution, guarded_publication};

    assert(site.owns_dir(ws.path));
    assert(OwnedWorkspace { name: ws.name, path: ws.path } == ws);
    assert(after(
        Action::Jj {
            repo: wf.wiki_repo,
            call: JjCall::AddMerge {
                name: ws.name,
                revs,
                message: kind.message_of(None),
                path: ws.path,
            },
        },
        held,
    ) == opened(held, ws.name));
}

broadcast proof fn guarded_committing(
    dir: Seq<char>,
    answer: Seq<char>,
    task_id: Seq<char>,
    question: Seq<char>,
    held: Held,
    site: Site,
    end: spec_fn(Result<Staged<Seq<char>>, Fault>, Held) -> bool,
)
    requires
        site.owns_dir(dir),
        forall|v: Result<Staged<Seq<char>>, Fault>| #[trigger] end(v, held),
    ensures
        #[trigger] guarded(
            workflow::committing(dir, answer, task_id, question),
            held,
            within(site),
            end,
        ),
{
    broadcast use {group_guarded, guarded_commit_id};

}

broadcast proof fn guarded_staging(
    wf: Workflow<Seq<char>>,
    prompt: Seq<char>,
    task_id: Seq<char>,
    question: Seq<char>,
    held: Held,
    site: Site,
    end: spec_fn(Result<Staged<Seq<char>>, Fault>, Held) -> bool,
)
    requires
        wf.wiki_repo == site.wiki_repo,
        site.owned.contains(workspace::research_workspace(wf.workspace_root, task_id)),
        forall|v: Result<Staged<Seq<char>>, Fault>| #[trigger] end(v, held),
        forall|v: Result<Staged<Seq<char>>, Fault>| #[trigger]
            end(
                v,
                opened(held, workspace::research_workspace(wf.workspace_root, task_id).name),
            ),
    ensures
        #[trigger] guarded(wf.staging(prompt, task_id, question), held, within(site), end),
{
    broadcast use {group_guarded, guarded_research_opening, guarded_committing};

    assert(site.owns_dir(workspace::research_workspace(wf.workspace_root, task_id).path));
}

broadcast proof fn guarded_integration(
    wf: Workflow<Seq<char>>,
    published: PublishedWikiRepo<Seq<char>>,
    task_id: Seq<char>,
    question: Seq<char>,
    rev: Seq<char>,
    parent: Seq<char>,
    held: Held,
    site: Site,
    end: spec_fn(Integrated<Fault>, Held) -> bool,
)
    requires
        held.integration,
        !held.published,
        wf.wiki_repo == site.wiki_repo,
        published.repo == site.wiki_repo,
        site.owned.contains(workspace::research_workspace(wf.workspace_root, task_id)),
        site.owned.contains(workspace::merge_workspace(wf.workspace_root, task_id)),
        forall|v: Integrated<Fault>| #[trigger] end(v, held),
        forall|v: Integrated<Fault>|
            v.merging ==> #[trigger] end(
                v,
                opened(held, workspace::merge_workspace(wf.workspace_root, task_id).name),
            ),
    ensures
        #[trigger] guarded(
            wf.integration(published, task_id, question, rev, parent),
            held,
            within(site),
            end,
        ),
{
    broadcast use {group_guarded, guarded_commit_id, guarded_publication, guarded_merging};

    assert(site.owns_dir(workspace::research_workspace(wf.workspace_root, task_id).path));
}

/// Where the research of a task may work.
pub open spec fn research_site(wf: Workflow<Seq<char>>, task_id: Seq<char>) -> Site {
    Site {
        wiki_repo: wf.wiki_repo,
        owned: set![
            workspace::research_workspace(wf.workspace_root, task_id),
            workspace::merge_workspace(wf.workspace_root, task_id),
        ],
    }
}

broadcast proof fn guarded_research_closing(
    wf: Workflow<Seq<char>>,
    task_id: Seq<char>,
    answer: Seq<char>,
    ending: Integrated<Fault>,
    held: Held,
    site: Site,
    end: spec_fn(Result<Seq<char>, Fault>, Held) -> bool,
)
    requires
        !held.integration,
        !held.published,
        site == research_site(wf, task_id),
        ({
            let research = workspace::research_workspace(wf.workspace_root, task_id).name;
            let merge = workspace::merge_workspace(wf.workspace_root, task_id).name;
            ||| held.open.subset_of(set![research])
            ||| ending.merging && held.open.subset_of(set![research, merge])
        }),
        forall|v: Result<Seq<char>, Fault>| #[trigger] end(v, free()),
    ensures
        #[trigger] guarded(wf.research_closing(task_id, answer, ending), held, within(site), end),
{
    broadcast use {group_guarded, guarded_discarding};

    let research = workspace::research_workspace(wf.workspace_root, task_id);
    let merge = workspace::merge_workspace(wf.workspace_root, task_id);
    assert(site.owned.contains(research) && site.owned.contains(merge));
    let last = Program::Return(workflow::answered(ending.outcome, answer));
    if ending.merging {
        let between = closed_off(held, merge.name);
        assert(closed_off(between, research.name).open =~= Set::empty());
        assert(closed_off(between, research.name) == free());
        guarded_discarding(wf, research, last, between, site, end);
        guarded_discarding(wf, merge, wf.discarding(research, last), held, site, end);
    } else {
        assert(closed_off(held, research.name).open =~= Set::empty());
        assert(closed_off(held, research.name) == free());
        guarded_discarding(wf, research, last, held, site, end);
    }
}

broadcast proof fn guarded_research_ending(
    wf: Workflow<Seq<char>>,
    published: PublishedWikiRepo<Seq<char>>,
    task_id: Seq<char>,
    question: Seq<char>,
    staged: Result<Staged<Seq<char>>, Fault>,
    held: Held,
    end: spec_fn(Result<Seq<char>, Fault>, Held) -> bool,
)
    requires
        !held.integration,
        !held.published,
        published.repo == wf.wiki_repo,
        held.open.subset_of(
            set![workspace::research_workspace(wf.workspace_root, task_id).name],
        ),
        forall|v: Result<Seq<char>, Fault>| #[trigger] end(v, free()),
    ensures
        #[trigger] guarded(
            wf.research_ending(published, task_id, question, staged),
            held,
            within(research_site(wf, task_id)),
            end,
        ),
{
    broadcast use {
        group_guarded,
        guarded_preparation,
        guarded_integration,
        guarded_discarding,
        guarded_research_closing,
    };

    let research = workspace::research_workspace(wf.workspace_root, task_id);
    let merge = workspace::merge_workspace(wf.workspace_root, task_id);
    let site = research_site(wf, task_id);
    let locked = Held { integration: true, ..held };
    assert(site.owned.contains(research) && site.owned.contains(merge));
    assert(closed_off(held, research.name).open =~= Set::empty());
    assert(after(Action::Acquire(Lock::Integration), held) == locked);
    assert(after(Action::Release(Lock::Integration), locked) == held);
    assert(after(Action::Release(Lock::Integration), opened(locked, merge.name)) == opened(
        held,
        merge.name,
    ));
    assert(opened(held, merge.name).open.subset_of(set![research.name, merge.name]));
    assert(closed_off(held, research.name) == free());
}

/// Whatever replies it gets, research lets the agent work in workspaces of its own alone, moves
/// `main` only under the integration lock and the published workspace only under its own, and
/// ends with no lock held and no workspace left.
pub proof fn research_keeps_to_its_workspaces(
    wf: Workflow<Seq<char>>,
    published: PublishedWikiRepo<Seq<char>>,
    prompt: Seq<char>,
    task_id: Seq<char>,
    question: Seq<char>,
)
    requires
        published.repo == wf.wiki_repo,
    ensures
        guarded(
            wf.research(published, prompt, task_id, question),
            free(),
            within(research_site(wf, task_id)),
            |v: Result<Seq<char>, Fault>, held: Held| held == free(),
        ),
{
    broadcast use {
        group_guarded,
        guarded_preparation,
        guarded_staging,
        guarded_research_ending,
    };

}

broadcast proof fn guarded_heads_reading(
    wf: Workflow<Seq<char>>,
    remote: Seq<char>,
    old_main: Option<Seq<char>>,
    held: Held,
    site: Site,
    end: spec_fn(Result<Fetched<Seq<char>, Seq<Seq<char>>>, Fault>, Held) -> bool,
)
    requires
        forall|v: Result<Fetched<Seq<char>, Seq<Seq<char>>>, Fault>| #[trigger] end(v, held),
    ensures
        #[trigger] guarded(wf.heads_reading(remote, old_main), held, within(site), end),
{
    broadcast use {group_guarded, guarded_commit_id, guarded_commit_ids};

}

broadcast proof fn guarded_fetching(
    wf: Workflow<Seq<char>>,
    published: PublishedWikiRepo<Seq<char>>,
    sync: GitSyncConfig<Seq<char>>,
    held: Held,
    site: Site,
    end: spec_fn(Result<Fetched<Seq<char>, Seq<Seq<char>>>, Fault>, Held) -> bool,
)
    requires
        held.integration,
        !held.published,
        wf.wiki_repo == site.wiki_repo,
        published.repo == site.wiki_repo,
        forall|v: Result<Fetched<Seq<char>, Seq<Seq<char>>>, Fault>| #[trigger] end(v, held),
    ensures
        #[trigger] guarded(wf.fetching(published, sync), held, within(site), end),
{
    broadcast use {
        group_guarded,
        guarded_preparation,
        guarded_commit_id,
        guarded_heads_reading,
    };

}

broadcast proof fn guarded_heads_merging(
    wf: Workflow<Seq<char>>,
    published: PublishedWikiRepo<Seq<char>>,
    remote: Seq<char>,
    run_id: Seq<char>,
    fetched: Fetched<Seq<char>, Seq<Seq<char>>>,
    held: Held,
    site: Site,
    end: spec_fn(Result<(), Fault>, Held) -> bool,
)
    requires
        held.integration,
        !held.published,
        wf.wiki_repo == site.wiki_repo,
        published.repo == site.wiki_repo,
        site.owned.contains(workspace::remote_sync_workspace(wf.workspace_root, run_id)),
        forall|v: Result<(), Fault>| #[trigger] end(v, held),
        forall|v: Result<(), Fault>| #[trigger]
            end(
                v,
                opened(held, workspace::remote_sync_workspace(wf.workspace_root, run_id).name),
            ),
    ensures
        #[trigger] guarded(
            wf.heads_merging(published, remote, run_id, fetched),
            held,
            within(site),
            end,
        ),
{
    broadcast use {group_guarded, guarded_merging};

}

broadcast proof fn guarded_settling(
    wf: Workflow<Seq<char>>,
    published: PublishedWikiRepo<Seq<char>>,
    remote: Seq<char>,
    run_id: Seq<char>,
    fetched: Fetched<Seq<char>, Seq<Seq<char>>>,
    held: Held,
    site: Site,
    end: spec_fn(Integrated<Fault>, Held) -> bool,
)
    requires
        held.integration,
        !held.published,
        wf.wiki_repo == site.wiki_repo,
        published.repo == site.wiki_repo,
        site.owned.contains(workspace::remote_sync_workspace(wf.workspace_root, run_id)),
        forall|v: Integrated<Fault>| #[trigger] end(v, held),
        forall|v: Integrated<Fault>|
            v.merging ==> #[trigger] end(
                v,
                opened(held, workspace::remote_sync_workspace(wf.workspace_root, run_id).name),
            ),
    ensures
        #[trigger] guarded(
            wf.settling(published, remote, run_id, fetched),
            held,
            within(site),
            end,
        ),
{
    broadcast use {group_guarded, guarded_heads_merging};

}

broadcast proof fn guarded_pushing(
    wf: Workflow<Seq<char>>,
    published: PublishedWikiRepo<Seq<char>>,
    sync: GitSyncConfig<Seq<char>>,
    outcome: Result<(), Fault>,
    held: Held,
    site: Site,
    end: spec_fn(Result<(), Fault>, Held) -> bool,
)
    requires
        held.integration,
        !held.published,
        wf.wiki_repo == site.wiki_repo,
        published.repo == site.wiki_repo,
        forall|v: Result<(), Fault>| #[trigger] end(v, held),
    ensures
        #[trigger] guarded(wf.pushing(published, sync, outcome), held, within(site), end),
{
    broadcast use {group_guarded, guarded_preparation};

}

/// Where a synchronisation with a remote may work.
pub open spec fn sync_site(wf: Workflow<Seq<char>>, run_id: Seq<char>) -> Site {
    Site {
        wiki_repo: wf.wiki_repo,
        owned: set![workspace::remote_sync_workspace(wf.workspace_root, run_id)],
    }
}

broadcast proof fn guarded_sync_closing(
    wf: Workflow<Seq<char>>,
    run_id: Seq<char>,
    outcome: Result<(), Fault>,
    merging: bool,
    held: Held,
    site: Site,
    end: spec_fn(Result<(), Fault>, Held) -> bool,
)
    requires
        site == sync_site(wf, run_id),
        ({
            let name = workspace::remote_sync_workspace(wf.workspace_root, run_id).name;
            if merging {
                held.open.subset_of(set![name])
            } else {
                held.open =~= Set::empty()
            }
        }),
        forall|v: Result<(), Fault>| #[trigger] end(v, Held { open: Set::empty(), ..held }),
    ensures
        #[trigger] guarded(
            wf.sync_closing(run_id, outcome, merging),
            held,
            within(site),
            end,
        ),
{
    broadcast use group_guarded;

    let ws = workspace::remote_sync_workspace(wf.workspace_root, run_id);
    assert(site.owned.contains(ws));
    if merging {
        assert(closed_off(held, ws.name).open =~= Set::empty());
        assert(closed_off(held, ws.name) == (Held { open: Set::empty(), ..held }));
        guarded_discarding(wf, ws, Program::Return(outcome), held, site, end);
    } else {
        assert(held == (Held { open: Set::empty(), ..held }));
    }
}

broadcast proof fn guarded_sync_ending(
    wf: Workflow<Seq<char>>,
    published: PublishedWikiRepo<Seq<char>>,
    sync: GitSyncConfig<Seq<char>>,
    run_id: Seq<char>,
    fetched: Fetched<Seq<char>, Seq<Seq<char>>>,
    held: Held,
    site: Site,
    end: spec_fn(Result<(), Fault>, Held) -> bool,
)
    requires
        held.integration,
        !held.published,
        held.open =~= Set::empty(),
        published.repo == wf.wiki_repo,
        site == sync_site(wf, run_id),
        forall|v: Result<(), Fault>| #[trigger] end(v, held),
    ensures
        #[trigger] guarded(
            wf.sync_ending(published, sync, run_id, fetched),
            held,
            within(site),
            end,
        ),
{
    broadcast use {group_guarded, guarded_settling, guarded_pushing, guarded_sync_closing};

    let ws = workspace::remote_sync_workspace(wf.workspace_root, run_id);
    assert(site.owned.contains(ws));
    assert(Held { open: Set::empty(), ..held } == held);
    assert(Held { open: Set::empty(), ..opened(held, ws.name) } == held);
    assert(opened(held, ws.name).open.subset_of(set![ws.name]));
}

/// Whatever replies it gets, a synchronisation lets the agent work in a workspace of its own alone,
/// moves `main` and speaks to the remote only under the integration lock, and ends with no lock
/// held and no workspace left.
pub proof fn remote_sync_keeps_to_its_workspace(
    wf: Workflow<Seq<char>>,
    published: PublishedWikiRepo<Seq<char>>,
    sync: GitSyncConfig<Seq<char>>,
    run_id: Seq<char>,
)
    requires
        published.repo == wf.wiki_repo,
    ensures
        guarded(
            wf.remote_sync(published, sync, run_id),
            free(),
            within(sync_site(wf, run_id)),
            |v: Result<(), Fault>, held: Held| held == free(),
        ),
{
    broadcast use {group_guarded, guarded_fetching, guarded_sync_ending};

    let locked = Held { integration: true, ..free() };
    assert(after(Action::Acquire(Lock::Integration), free()) == locked);
    assert(after(Action::Release(Lock::Integration), locked) == free());
}

/// Where a start may clean up: workspaces that bear the name of a flow's, and the directory that
/// holds them.
pub open spec fn startup_site(wf: Workflow<Seq<char>>) -> Site {
    Site {
        wiki_repo: wf.wiki_repo,
        owned: Set::new(
            |ws: OwnedWorkspace<Seq<char>>|
                workspace::is_owned_name(ws.name) && ws.path == wf.workspace_root,
        ),
    }
}

proof fn guarded_forgetting(
    wf: Workflow<Seq<char>>,
    names: Seq<Seq<char>>,
    held: Held,
    end: spec_fn(Result<(), Fault>, Held) -> bool,
)
    requires
        held.open =~= Set::empty(),
        forall|v: Result<(), Fault>| #[trigger] end(v, held),
    ensures
        guarded(wf.forgetting(names), held, within(startup_site(wf)), end),
    decreases names.len(),
{
    broadcast use group_guarded;

    let site = startup_site(wf);
    if names.len() > 0 {
        guarded_forgetting(wf, names.drop_first(), held, end);
        if workspace::is_owned_name(names[0]) {
            assert(site.owned.contains(
                OwnedWorkspace { name: names[0], path: wf.workspace_root },
            ));
            assert(site.owns_name(names[0]));
            assert(closed_off(held, names[0]).open =~= held.open);
            assert(after(
                Action::Jj {
                    repo: wf.wiki_repo,
                    call: JjCall::ForgetWorkspace { name: names[0] },
                },
                held,
            ) == held);
        }
    }
}

/// Whatever replies it gets, a start forgets only workspaces that bear the name of a flow's and
/// removes only the directory that holds them. It ends with no lock held.
pub proof fn startup_forgets_only_its_own(
    wf: Workflow<Seq<char>>,
    published: PublishedWikiRepo<Seq<char>>,
    is_jj_workspace: bool,
)
    requires
        published.repo == wf.wiki_repo,
    ensures
        guarded(
            wf.startup(published, is_jj_workspace),
            free(),
            within(startup_site(wf)),
            |v: Result<(), Fault>, held: Held| held == free(),
        ),
{
    broadcast use {group_guarded, guarded_commit_id, guarded_preparation};

    let site = startup_site(wf);
    let named = OwnedWorkspace { name: "wikidesk-merge-"@, path: wf.workspace_root };
    assert("wikidesk-merge-"@ =~= named.name.take(named.name.len() as int));
    assert(site.owned.contains(named));
    assert(site.owns_dir(wf.workspace_root));
    assert forall|names: Seq<Seq<char>>, q: spec_fn(Result<(), Fault>, Held) -> bool|
        (forall|v: Result<(), Fault>| #[trigger] q(v, free())) implies #[trigger] guarded(
        wf.forgetting(names),
        free(),
        within(site),
        q,
    ) by {
        guarded_forgetting(wf, names, free(), q);
    }
}

/// Whether an action may change where `main` stands.
pub open spec fn moves_main(action: Act) -> bool {
    match action {
        Action::Jj { repo: _, call } => match call {
            JjCall::SetMain { rev: _ } => true,
            JjCall::GitFetch { remote: _, ssh_command: _ } => true,
            _ => false,
        },
        _ => false,
    }
}

/// Research that changed no page leaves `main` where it is, whatever replies follow.
pub proof fn unchanged_research_leaves_main(
    wf: Workflow<Seq<char>>,
    published: PublishedWikiRepo<Seq<char>>,
    task_id: Seq<char>,
    question: Seq<char>,
    answer: Seq<char>,
    held: Held,
)
    ensures
        guarded(
            wf.research_ending(
                published,
                task_id,
                question,
                Ok(Staged::Unchanged { answer }),
            ),
            held,
            |action: Act, h: Held| !moves_main(action),
            |v: Result<Seq<char>, Fault>, h: Held| true,
        ),
{
    broadcast use group_guarded;

}

} // verus!
