//! What the end of a flow says of `main` and the published workspace, as the replies have shown it.

use vstd::prelude::*;

use crate::config::{GitSyncConfig, VcsWorkflow};
use crate::flow;
use crate::flow::{Program, Status};
use crate::research_task::jj::command;
use crate::research_task::jj::command::{Effect, JjCall};
use crate::research_task::jj::workflow;
use crate::research_task::jj::workflow::{Fetched, Integrated, Staged, Workflow};
use crate::research_task::jj::workspace;
use crate::research_task::jj::workspace::OwnedWorkspace;
use crate::research_task::jj::MergeKind;
use crate::research_task::published;
use crate::research_task::published::PublishedWikiRepo;
use crate::research_task::steps;
use crate::research_task::steps::{Act, Action, Fault, Rep, Steps};
use crate::text;

verus! {

/// How a flow has moved `main`.
pub enum Move {
    Untouched,
    /// Moved, from where it was read to be, if it could be read.
    Away { from: Option<Seq<char>> },
    /// Moved, and then told to go back to where it was.
    Back,
}

/// What the replies to a flow have shown.
pub struct Seen {
    /// Whether the published workspace was without edits when it was last looked at, and has not
    /// been moved since.
    pub clean: bool,
    /// Where the published workspace stands, if that could be read.
    pub parent: Option<Seq<char>>,
    /// Where `main` stands, if that could be read since it may have moved.
    pub main: Option<Seq<char>>,
    /// Whether the published workspace was moved onto `main` since that may have moved.
    pub rebased: bool,
    /// Whether another workspace was found to hold edits.
    pub changed: bool,
    pub moved: Move,
}

/// Nothing seen yet.
pub open spec fn nothing_seen() -> Seen {
    Seen {
        clean: false,
        parent: None,
        main: None,
        rebased: false,
        changed: false,
        moved: Move::Untouched,
    }
}

/// Whether the published workspace is clean and stands on `main`.
pub open spec fn is_published(seen: Seen) -> bool {
    seen.clean && (seen.rebased || seen.parent is Some && seen.parent == seen.main)
}

/// The one commit id in a reply.
pub open spec fn id_in(reply: Rep) -> Option<Seq<char>> {
    match steps::text_reply(reply) {
        Ok(output) => if command::entries(output).len() == 1 {
            Some(command::entries(output)[0])
        } else {
            None
        },
        Err(_) => None,
    }
}

/// Whether a reply is the text of no edits.
pub open spec fn no_edits_in(reply: Rep) -> bool {
    steps::text_reply(reply) matches Ok(summary) && text::is_blank(summary)
}

/// What is seen after the reply to an action, by what the command line of the action does. The
/// published workspace lies in the directory `home`.
pub open spec fn seen_after(seen: Seen, home: Seq<char>, action: Act, reply: Rep) -> Seen {
    match action {
        Action::Jj { repo, call } => match command::effect_of(call.args()) {
            Effect::ListsChanges { rev } => if rev != "@"@ {
                seen
            } else if repo == home {
                Seen { clean: no_edits_in(reply), ..seen }
            } else {
                Seen {
                    changed: steps::text_reply(reply) matches Ok(summary) && !text::is_blank(
                        summary,
                    ),
                    ..seen
                }
            },
            Effect::ListsCommits { revset } => if repo != home {
                seen
            } else if revset == "main"@ {
                Seen { main: id_in(reply), ..seen }
            } else if revset == "@-"@ {
                Seen { parent: id_in(reply), ..seen }
            } else {
                seen
            },
            Effect::Moves { rev, onto } => if repo == home && rev == "@"@ && onto == "main"@ {
                Seen { clean: false, rebased: !(reply is Failed), ..seen }
            } else {
                Seen { clean: false, parent: None, main: None, rebased: false, ..seen }
            },
            Effect::Fetches { remote: _ } => Seen { main: None, rebased: false, ..seen },
            Effect::SetsBookmark { bookmark, rev } => if bookmark != "main"@ {
                seen
            } else {
                match seen.moved {
                    Move::Away { from } if from == Some(rev) => Seen {
                        main: None,
                        rebased: false,
                        moved: Move::Back,
                        ..seen
                    },
                    _ => if reply is Failed {
                        seen
                    } else {
                        Seen {
                            main: None,
                            rebased: false,
                            moved: Move::Away { from: seen.main },
                            ..seen
                        }
                    },
                }
            },
            Effect::Unknown => nothing_seen(),
            _ => seen,
        },
        _ => seen,
    }
}

/// Whether an action pushes anything to a remote.
pub open spec fn pushes(action: Act) -> bool {
    match action {
        Action::Jj { repo: _, call } => command::effect_of(call.args()) is Pushes,
        _ => false,
    }
}

/// Whether, whatever replies a flow gets, it pushes `main` only when the published workspace was
/// seen to be clean and to stand on it, and `end` holds of what it has seen when it finishes.
pub open spec fn shows<T>(
    p: Steps<T>,
    seen: Seen,
    home: Seq<char>,
    end: spec_fn(T, Seen) -> bool,
) -> bool
    decreases p,
{
    match p {
        Program::Return(v) => end(v, seen),
        Program::Do { action, then } => {
            &&& pushes(action) ==> is_published(seen)
            &&& forall|reply: Rep| #![trigger then(reply)]
                shows(then(reply), seen_after(seen, home, action, reply), home, end)
        },
    }
}

/// What a flow has seen after the replies of a log.
pub open spec fn seen_by<T>(p: Steps<T>, log: Seq<Rep>, seen: Seen, home: Seq<char>) -> Seen
    decreases p,
{
    match p {
        Program::Return(v) => seen,
        Program::Do { action, then } => if log.len() == 0 {
            seen
        } else {
            seen_by(
                then(log[0]),
                log.drop_first(),
                seen_after(seen, home, action, log[0]),
                home,
            )
        },
    }
}

/// What such a flow has seen when it comes to a push, and when it finishes, whatever replies it
/// got.
pub proof fn runs_show<T>(
    p: Steps<T>,
    seen: Seen,
    home: Seq<char>,
    end: spec_fn(T, Seen) -> bool,
    log: Seq<Rep>,
)
    requires
        shows(p, seen, home, end),
    ensures
        match flow::run(p, log).0 {
            Status::Waiting(action) => pushes(action) ==> is_published(
                seen_by(p, log, seen, home),
            ),
            Status::Finished(v) => end(v, seen_by(p, log, seen, home)),
        },
    decreases p,
{
    match p {
        Program::Return(v) => {},
        Program::Do { action, then } => {
            if log.len() > 0 {
                runs_show(
                    then(log[0]),
                    seen_after(seen, home, action, log[0]),
                    home,
                    end,
                    log.drop_first(),
                );
            }
        },
    }
}

broadcast proof fn shows_return<T>(
    v: T,
    seen: Seen,
    home: Seq<char>,
    end: spec_fn(T, Seen) -> bool,
)
    ensures
        #[trigger] shows(Program::Return(v), seen, home, end) == end(v, seen),
{
}

broadcast proof fn shows_quietly<T>(
    action: Act,
    next: Steps<T>,
    seen: Seen,
    home: Seq<char>,
    end: spec_fn(T, Seen) -> bool,
)
    requires
        pushes(action) ==> is_published(seen),
        forall|reply: Rep|
            shows(next, #[trigger] seen_after(seen, home, action, reply), home, end),
    ensures
        #[trigger] shows(steps::quietly(action, next), seen, home, end),
{
    let then = steps::quietly(action, next)->then;
    assert(forall|reply: Rep| #[trigger] then(reply) == next);
}

broadcast proof fn shows_bind<T, U>(
    p: Steps<T>,
    next: spec_fn(T) -> Steps<U>,
    seen: Seen,
    home: Seq<char>,
    end: spec_fn(U, Seen) -> bool,
)
    ensures
        #[trigger] shows(flow::bind(p, next), seen, home, end) == shows(
            p,
            seen,
            home,
            |v: T, s: Seen| shows(next(v), s, home, end),
        ),
    decreases p,
{
    let mid = |v: T, s: Seen| shows(next(v), s, home, end);
    match p {
        Program::Return(v) => {
            assert(mid(v, seen) == shows(next(v), seen, home, end));
        },
        Program::Do { action, then } => {
            let later = flow::bind(p, next)->then;
            assert forall|reply: Rep|
                #![trigger then(reply)]
                #![trigger later(reply)]
                shows(then(reply), seen_after(seen, home, action, reply), home, mid) == shows(
                    later(reply),
                    seen_after(seen, home, action, reply),
                    home,
                    end,
                ) by {
                assert(later(reply) == flow::bind(then(reply), next));
                shows_bind(then(reply), next, seen_after(seen, home, action, reply), home, end);
            }
        },
    }
}

broadcast proof fn shows_jj(
    repo: Seq<char>,
    call: JjCall<Seq<char>, Seq<Seq<char>>>,
    seen: Seen,
    home: Seq<char>,
    end: spec_fn(Result<Seq<char>, Fault>, Seen) -> bool,
)
    requires
        pushes(Action::Jj { repo, call }) ==> is_published(seen),
        forall|reply: Rep| #[trigger]
            end(
                steps::text_reply(reply),
                seen_after(seen, home, Action::Jj { repo, call }, reply),
            ),
    ensures
        #[trigger] shows(steps::jj(repo, call), seen, home, end),
{
    reveal_with_fuel(shows, 2);
}

broadcast proof fn shows_agent(
    prompt: Seq<char>,
    dir: Seq<char>,
    seen: Seen,
    home: Seq<char>,
    end: spec_fn(Result<Option<Seq<char>>, Fault>, Seen) -> bool,
)
    requires
        forall|v: Result<Option<Seq<char>>, Fault>| #[trigger] end(v, seen),
    ensures
        #[trigger] shows(steps::agent(prompt, dir), seen, home, end),
{
    reveal_with_fuel(shows, 2);
}

broadcast proof fn shows_plain(
    action: Act,
    seen: Seen,
    home: Seq<char>,
    end: spec_fn(Result<(), Fault>, Seen) -> bool,
)
    requires
        pushes(action) ==> is_published(seen),
        forall|reply: Rep| #[trigger]
            end(steps::plain_reply(reply), seen_after(seen, home, action, reply)),
    ensures
        #[trigger] shows(steps::plain(action), seen, home, end),
{
    reveal_with_fuel(shows, 2);
}

broadcast group group_shows {
    command::calls_do_what_flows_rely_on,
    shows_return,
    shows_quietly,
    shows_bind,
    shows_jj,
    shows_agent,
    shows_plain,
}

broadcast proof fn shows_commit_id(
    repo: Seq<char>,
    rev: Seq<char>,
    op: Seq<char>,
    seen: Seen,
    home: Seq<char>,
    end: spec_fn(Result<Seq<char>, Fault>, Seen) -> bool,
)
    requires
        repo != home || rev != "main"@ && rev != "@-"@,
        forall|v: Result<Seq<char>, Fault>| #[trigger] end(v, seen),
    ensures
        #[trigger] shows(published::commit_id(repo, rev, op), seen, home, end),
{
    broadcast use group_shows;

}

broadcast proof fn shows_main(
    op: Seq<char>,
    seen: Seen,
    home: Seq<char>,
    end: spec_fn(Result<Seq<char>, Fault>, Seen) -> bool,
)
    requires
        forall|v: Result<Seq<char>, Fault>, s: Seen|
            s == (Seen { main: workflow::known(v), ..seen }) ==> #[trigger] end(v, s),
    ensures
        #[trigger] shows(published::commit_id(home, "main"@, op), seen, home, end),
{
    broadcast use group_shows;

}

broadcast proof fn shows_parent(
    op: Seq<char>,
    seen: Seen,
    home: Seq<char>,
    end: spec_fn(Result<Seq<char>, Fault>, Seen) -> bool,
)
    requires
        forall|v: Result<Seq<char>, Fault>, s: Seen|
            s == (Seen { parent: workflow::known(v), ..seen }) ==> #[trigger] end(v, s),
    ensures
        #[trigger] shows(published::commit_id(home, "@-"@, op), seen, home, end),
{
    broadcast use group_shows;

    reveal_strlit("main");
    reveal_strlit("@-");
    assert("main"@.len() == 4);
    assert("@-"@.len() == 2);
}

broadcast proof fn shows_ensure_clean(
    seen: Seen,
    home: Seq<char>,
    end: spec_fn(Result<(), Fault>, Seen) -> bool,
)
    requires
        forall|v: Result<(), Fault>, s: Seen|
            s == (Seen { clean: v is Ok, ..seen }) ==> #[trigger] end(v, s),
    ensures
        #[trigger] shows(published::ensure_clean(home), seen, home, end),
{
    broadcast use group_shows;

}

/// What following `main` can come to.
pub open spec fn followed(before: Seen, v: Result<(), Fault>, seen: Seen) -> bool {
    &&& seen.changed == before.changed
    &&& seen.moved == before.moved
    &&& v is Ok ==> is_published(seen)
}

broadcast proof fn shows_follow_main(
    seen: Seen,
    home: Seq<char>,
    end: spec_fn(Result<(), Fault>, Seen) -> bool,
)
    requires
        forall|v: Result<(), Fault>, s: Seen| followed(seen, v, s) ==> #[trigger] end(v, s),
    ensures
        #[trigger] shows(published::follow_main(home), seen, home, end),
{
    broadcast use {group_shows, shows_main, shows_parent, shows_ensure_clean};

}

broadcast proof fn shows_preparation(
    published: PublishedWikiRepo<Seq<char>>,
    seen: Seen,
    home: Seq<char>,
    end: spec_fn(Result<(), Fault>, Seen) -> bool,
)
    requires
        published.workflow == VcsWorkflow::Jj,
        published.repo == home,
        forall|v: Result<(), Fault>, s: Seen| followed(seen, v, s) ==> #[trigger] end(v, s),
    ensures
        #[trigger] shows(published.preparation(), seen, home, end),
{
    broadcast use {group_shows, shows_follow_main};

}

/// Whether `main` is where it was, or was told to go back there, or it is not known where it was.
pub open spec fn is_kept(moved: Move) -> bool {
    match moved {
        Move::Untouched | Move::Back => true,
        Move::Away { from } => from is None,
    }
}

/// What a publication can come to.
pub open spec fn placed(before: Seen, v: Result<(), Fault>, seen: Seen) -> bool {
    &&& seen.changed == before.changed
    &&& v is Ok ==> is_published(seen)
    &&& before.moved is Untouched ==> if v is Ok {
        seen.moved is Away
    } else {
        is_kept(seen.moved)
    }
}

broadcast proof fn shows_move_main(
    dir: Seq<char>,
    rev: Seq<char>,
    seen: Seen,
    home: Seq<char>,
    end: spec_fn(Result<(), Fault>, Seen) -> bool,
)
    requires
        dir != home,
        forall|v: Result<(), Fault>, s: Seen| placed(seen, v, s) ==> #[trigger] end(v, s),
    ensures
        #[trigger] shows(published::move_main(home, dir, rev), seen, home, end),
{
    broadcast use {
        group_shows,
        shows_commit_id,
        shows_main,
        shows_ensure_clean,
        shows_follow_main,
    };

}

broadcast proof fn shows_publication(
    published: PublishedWikiRepo<Seq<char>>,
    dir: Seq<char>,
    rev: Seq<char>,
    seen: Seen,
    home: Seq<char>,
    end: spec_fn(Result<(), Fault>, Seen) -> bool,
)
    requires
        published.workflow == VcsWorkflow::Jj,
        published.repo == home,
        dir != home,
        forall|v: Result<(), Fault>, s: Seen| placed(seen, v, s) ==> #[trigger] end(v, s),
    ensures
        #[trigger] shows(published.publication(dir, rev), seen, home, end),
{
    broadcast use {group_shows, shows_move_main};

}

broadcast proof fn shows_recording(
    dir: Seq<char>,
    kind: MergeKind<Seq<char>>,
    answer: Option<Seq<char>>,
    seen: Seen,
    home: Seq<char>,
    end: spec_fn(Result<(), Fault>, Seen) -> bool,
)
    requires
        forall|v: Result<(), Fault>| #[trigger] end(v, seen),
    ensures
        #[trigger] shows(workflow::recording(dir, kind, answer), seen, home, end),
{
    broadcast use group_shows;

}

broadcast proof fn shows_resolution(
    dir: Seq<char>,
    kind: MergeKind<Seq<char>>,
    seen: Seen,
    home: Seq<char>,
    end: spec_fn(Result<(), Fault>, Seen) -> bool,
)
    requires
        forall|v: Result<(), Fault>| #[trigger] end(v, seen),
    ensures
        #[trigger] shows(workflow::resolution(dir, kind), seen, home, end),
{
    broadcast use {group_shows, shows_recording};

}

broadcast proof fn shows_parents(
    path: Seq<char>,
    seen: Seen,
    home: Seq<char>,
    end: spec_fn(Result<(), Fault>, Seen) -> bool,
)
    requires
        forall|v: Result<(), Fault>| #[trigger] end(v, seen),
    ensures
        #[trigger] shows(workflow::parents(path), seen, home, end),
{
    broadcast use group_shows;

}

broadcast proof fn shows_research_opening(
    wf: Workflow<Seq<char>>,
    ws: OwnedWorkspace<Seq<char>>,
    seen: Seen,
    home: Seq<char>,
    end: spec_fn(Result<(), Fault>, Seen) -> bool,
)
    requires
        forall|v: Result<(), Fault>| #[trigger] end(v, seen),
    ensures
        #[trigger] shows(wf.research_opening(ws), seen, home, end),
{
    broadcast use {group_shows, shows_parents};

}

broadcast proof fn shows_discarding<T>(
    wf: Workflow<Seq<char>>,
    ws: OwnedWorkspace<Seq<char>>,
    next: Steps<T>,
    seen: Seen,
    home: Seq<char>,
    end: spec_fn(T, Seen) -> bool,
)
    requires
        shows(next, seen, home, end),
    ensures
        #[trigger] shows(wf.discarding(ws, next), seen, home, end),
{
    broadcast use group_shows;

}

broadcast proof fn shows_merging(
    wf: Workflow<Seq<char>>,
    published: PublishedWikiRepo<Seq<char>>,
    ws: OwnedWorkspace<Seq<char>>,
    revs: Seq<Seq<char>>,
    kind: MergeKind<Seq<char>>,
    seen: Seen,
    home: Seq<char>,
    end: spec_fn(Result<(), Fault>, Seen) -> bool,
)
    requires
        published.workflow == VcsWorkflow::Jj,
        published.repo == home,
        ws.path != home,
        forall|v: Result<(), Fault>, s: Seen| placed(seen, v, s) ==> #[trigger] end(v, s),
    ensures
        #[trigger] shows(wf.merging(published, ws, revs, kind), seen, home, end),
{
    broadcast use {group_shows, shows_parents, shows_resolution, shows_publication};

}

broadcast proof fn shows_committing(
    dir: Seq<char>,
    answer: Seq<char>,
    task_id: Seq<char>,
    question: Seq<char>,
    seen: Seen,
    home: Seq<char>,
    end: spec_fn(Result<Staged<Seq<char>>, Fault>, Seen) -> bool,
)
    requires
        dir != home,
        forall|v: Result<Staged<Seq<char>>, Fault>|
            (v is Err || v->Ok_0 is Changed) ==> #[trigger] end(v, seen),
    ensures
        #[trigger] shows(workflow::committing(dir, answer, task_id, question), seen, home, end),
{
    broadcast use {group_shows, shows_commit_id};

}

/// What the agent's work can come to.
pub open spec fn worked(
    before: Seen,
    v: Result<Staged<Seq<char>>, Fault>,
    seen: Seen,
) -> bool {
    &&& seen.moved == before.moved
    &&& v matches Ok(staged) ==> (seen.changed <==> staged is Changed)
}

broadcast proof fn shows_staging(
    wf: Workflow<Seq<char>>,
    prompt: Seq<char>,
    task_id: Seq<char>,
    question: Seq<char>,
    seen: Seen,
    home: Seq<char>,
    end: spec_fn(Result<Staged<Seq<char>>, Fault>, Seen) -> bool,
)
    requires
        workspace::research_workspace(wf.workspace_root, task_id).path != home,
        forall|v: Result<Staged<Seq<char>>, Fault>, s: Seen|
            worked(seen, v, s) ==> #[trigger] end(v, s),
    ensures
        #[trigger] shows(wf.staging(prompt, task_id, question), seen, home, end),
{
    broadcast use {group_shows, shows_research_opening, shows_committing};

}

broadcast proof fn shows_integration(
    wf: Workflow<Seq<char>>,
    published: PublishedWikiRepo<Seq<char>>,
    task_id: Seq<char>,
    question: Seq<char>,
    rev: Seq<char>,
    parent: Seq<char>,
    seen: Seen,
    home: Seq<char>,
    end: spec_fn(Integrated<Fault>, Seen) -> bool,
)
    requires
        published.workflow == VcsWorkflow::Jj,
        published.repo == home,
        wf.wiki_repo == home,
        workspace::research_workspace(wf.workspace_root, task_id).path != home,
        workspace::merge_workspace(wf.workspace_root, task_id).path != home,
        forall|v: Integrated<Fault>, s: Seen|
            placed(seen, v.outcome, s) ==> #[trigger] end(v, s),
    ensures
        #[trigger] shows(
            wf.integration(published, task_id, question, rev, parent),
            seen,
            home,
            end,
        ),
{
    broadcast use {group_shows, shows_main, shows_publication, shows_merging};

}

/// What the end of research says: where there is an answer, the published workspace is clean and
/// stands on `main`, and `main` moved if and only if the agent changed something; where there is
/// none, `main` is where it was, or was told to go back, or it is not known where it was.
pub open spec fn research_end(v: Result<Seq<char>, Fault>, seen: Seen) -> bool {
    match v {
        Ok(_) => {
            &&& is_published(seen)
            &&& seen.changed ==> seen.moved is Away
            &&& !seen.changed ==> seen.moved is Untouched
        },
        Err(_) => is_kept(seen.moved),
    }
}

/// Research is answered only when what the agent changed is in `main` and the published workspace
/// is clean and stands on it. Research that fails leaves `main` where it was, puts it back, or did
/// not learn where it was.
pub proof fn answered_research_is_published(
    wf: Workflow<Seq<char>>,
    published: PublishedWikiRepo<Seq<char>>,
    prompt: Seq<char>,
    task_id: Seq<char>,
    question: Seq<char>,
)
    requires
        published.workflow == VcsWorkflow::Jj,
        published.repo == wf.wiki_repo,
        workspace::research_workspace(wf.workspace_root, task_id).path != wf.wiki_repo,
        workspace::merge_workspace(wf.workspace_root, task_id).path != wf.wiki_repo,
    ensures
        shows(
            wf.research(published, prompt, task_id, question),
            nothing_seen(),
            wf.wiki_repo,
            |v: Result<Seq<char>, Fault>, seen: Seen| research_end(v, seen),
        ),
{
    broadcast use {
        group_shows,
        shows_preparation,
        shows_staging,
        shows_integration,
        shows_discarding,
    };

}

broadcast proof fn shows_heads_reading(
    wf: Workflow<Seq<char>>,
    remote: Seq<char>,
    old_main: Option<Seq<char>>,
    seen: Seen,
    home: Seq<char>,
    end: spec_fn(Result<Fetched<Seq<char>, Seq<Seq<char>>>, Fault>, Seen) -> bool,
)
    requires
        forall|v: Result<Fetched<Seq<char>, Seq<Seq<char>>>, Fault>, s: Seen| #[trigger] end(v, s),
    ensures
        #[trigger] shows(wf.heads_reading(remote, old_main), seen, home, end),
{
    broadcast use {group_shows};

}

broadcast proof fn shows_fetching(
    wf: Workflow<Seq<char>>,
    published: PublishedWikiRepo<Seq<char>>,
    sync: GitSyncConfig<Seq<char>>,
    seen: Seen,
    home: Seq<char>,
    end: spec_fn(Result<Fetched<Seq<char>, Seq<Seq<char>>>, Fault>, Seen) -> bool,
)
    requires
        published.workflow == VcsWorkflow::Jj,
        published.repo == home,
        forall|v: Result<Fetched<Seq<char>, Seq<Seq<char>>>, Fault>, s: Seen| #[trigger] end(v, s),
    ensures
        #[trigger] shows(wf.fetching(published, sync), seen, home, end),
{
    broadcast use {group_shows, shows_preparation, shows_heads_reading};

}

broadcast proof fn shows_settling(
    wf: Workflow<Seq<char>>,
    published: PublishedWikiRepo<Seq<char>>,
    remote: Seq<char>,
    run_id: Seq<char>,
    fetched: Fetched<Seq<char>, Seq<Seq<char>>>,
    seen: Seen,
    home: Seq<char>,
    end: spec_fn(Integrated<Fault>, Seen) -> bool,
)
    requires
        published.workflow == VcsWorkflow::Jj,
        published.repo == home,
        workspace::remote_sync_workspace(wf.workspace_root, run_id).path != home,
        forall|v: Integrated<Fault>, s: Seen| #[trigger] end(v, s),
    ensures
        #[trigger] shows(wf.settling(published, remote, run_id, fetched), seen, home, end),
{
    broadcast use {group_shows, shows_merging};

}

broadcast proof fn shows_pushing(
    wf: Workflow<Seq<char>>,
    published: PublishedWikiRepo<Seq<char>>,
    sync: GitSyncConfig<Seq<char>>,
    outcome: Result<(), Fault>,
    seen: Seen,
    home: Seq<char>,
    end: spec_fn(Result<(), Fault>, Seen) -> bool,
)
    requires
        published.workflow == VcsWorkflow::Jj,
        published.repo == home,
        forall|v: Result<(), Fault>, s: Seen|
            (v is Ok ==> is_published(s)) ==> #[trigger] end(v, s),
    ensures
        #[trigger] shows(wf.pushing(published, sync, outcome), seen, home, end),
{
    broadcast use {group_shows, shows_preparation};

}

/// What is pushed to a remote is published: a synchronisation pushes `main` only when the published
/// workspace is clean and stands on it, and succeeds only then.
pub proof fn pushed_main_is_published(
    wf: Workflow<Seq<char>>,
    published: PublishedWikiRepo<Seq<char>>,
    sync: GitSyncConfig<Seq<char>>,
    run_id: Seq<char>,
)
    requires
        published.workflow == VcsWorkflow::Jj,
        published.repo == wf.wiki_repo,
        workspace::remote_sync_workspace(wf.workspace_root, run_id).path != wf.wiki_repo,
    ensures
        shows(
            wf.remote_sync(published, sync, run_id),
            nothing_seen(),
            wf.wiki_repo,
            |v: Result<(), Fault>, seen: Seen| v is Ok ==> is_published(seen),
        ),
{
    broadcast use {
        group_shows,
        shows_fetching,
        shows_settling,
        shows_pushing,
        shows_discarding,
    };

}

} // verus!
