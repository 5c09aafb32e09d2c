//! What makes a wiki ready, for a reader and when the server starts.

use vstd::prelude::*;

use crate::config::VcsWorkflow;
use crate::flow;
use crate::flow::{Program, Status};
use crate::research_task::jj::command;
use crate::research_task::jj::command::Effect;
use crate::research_task::jj::publication;
use crate::research_task::jj::watch;
use crate::research_task::jj::workflow::Workflow;
use crate::research_task::jj::workspace;
use crate::research_task::jj::Error;
use crate::research_task::published;
use crate::research_task::published::PublishedWikiRepo;
use crate::research_task::steps;
use crate::research_task::steps::{Act, Action, Fault, Lock, Rep};

verus! {

/// What is known of the published workspace, and of the workspaces that flows left behind.
pub struct Look {
    /// Whether the lock of the published workspace is held.
    pub held: bool,
    /// Whether the published workspace was found without edits, when it was last looked at.
    pub clean: bool,
    /// The commit below the published workspace, when it was last read.
    pub parent: Option<Seq<char>>,
    /// The commit that `main` stands on, when it was last read.
    pub main: Option<Seq<char>>,
    /// Whether the published workspace was moved onto `main`.
    pub moved: bool,
    /// The workspaces that were listed.
    pub listed: Seq<Seq<char>>,
    pub forgotten: Set<Seq<char>>,
    /// The directories that were removed.
    pub removed: Set<Seq<char>>,
}

/// Nothing known yet.
pub open spec fn start() -> Look {
    Look {
        held: false,
        clean: false,
        parent: None,
        main: None,
        moved: false,
        listed: Seq::empty(),
        forgotten: Set::empty(),
        removed: Set::empty(),
    }
}

/// What is known after the reply to an action.
pub open spec fn look_after(look: Look, action: Act, reply: Rep) -> Look {
    match action {
        Action::Acquire(Lock::Published) => Look { held: true, ..look },
        Action::Release(Lock::Published) => Look { held: false, ..look },
        Action::RemoveDir { path } => if reply is Failed {
            look
        } else {
            Look { removed: look.removed.insert(path), ..look }
        },
        Action::Jj { repo: _, call } => match command::effect_of(call.args()) {
            Effect::ListsChanges { rev: _ } => Look {
                clean: publication::no_edits_in(reply),
                ..look
            },
            Effect::ListsCommits { revset } => if revset == "main"@ {
                Look { main: publication::id_in(reply), ..look }
            } else {
                Look { parent: publication::id_in(reply), ..look }
            },
            Effect::Moves { rev: _, onto: _ } => Look {
                moved: look.moved || !(reply is Failed),
                ..look
            },
            Effect::ListsWorkspaces => match steps::text_reply(reply) {
                Ok(output) => Look { listed: command::entries(output), ..look },
                Err(_) => look,
            },
            Effect::ForgetsWorkspace { name } => if reply is Failed {
                look
            } else {
                Look { forgotten: look.forgotten.insert(name), ..look }
            },
            _ => look,
        },
        _ => look,
    }
}

/// Which actions make a wiki ready: the published workspace alone is looked at and moved, under its
/// lock, and only where it holds no edits.
pub open spec fn may(home: Seq<char>, action: Act, look: Look) -> bool {
    match action {
        Action::Acquire(lock) => lock == Lock::Published && !look.held,
        Action::Release(lock) => lock == Lock::Published && look.held,
        Action::RemoveDir { path: _ } => true,
        Action::Jj { repo, call } => repo == home && match command::effect_of(call.args()) {
            Effect::ListsChanges { rev } => look.held && rev == "@"@,
            Effect::ListsCommits { revset } => revset == "main"@ || look.held && revset == "@-"@,
            Effect::Moves { rev, onto } => look.held && look.clean && rev == "@"@ && onto
                == "main"@,
            Effect::ListsWorkspaces => true,
            Effect::ForgetsWorkspace { name } => look.listed.contains(name)
                && workspace::is_owned_name(name),
            _ => false,
        },
        _ => false,
    }
}

/// Whether the published workspace was found without edits and on `main`.
pub open spec fn is_ready(look: Look) -> bool {
    look.clean && (look.moved || look.parent is Some && look.parent == look.main)
}

/// What is known after the reply to an action.
pub open spec fn follows() -> spec_fn(Look, Act, Rep) -> Look {
    |look: Look, action: Act, reply: Rep| look_after(look, action, reply)
}

/// The rule that [`may`] states.
pub open spec fn rule(home: Seq<char>) -> spec_fn(Act, Look) -> bool {
    |action: Act, look: Look| may(home, action, look)
}

broadcast group group_look {
    watch::group_watched,
    command::calls_do_what_flows_rely_on,
}

proof fn lemma_revsets()
    ensures
        "main"@ != "@-"@,
{
    reveal_strlit("main");
    reveal_strlit("@-");
    assert("main"@.len() == 4);
    assert("@-"@.len() == 2);
}

/// What looking at the published workspace leaves as it was.
pub open spec fn apart(before: Look, after: Look) -> bool {
    &&& after.held == before.held
    &&& after.listed == before.listed
    &&& after.forgotten == before.forgotten
    &&& after.removed == before.removed
}

broadcast proof fn look_clean(
    home: Seq<char>,
    look: Look,
    end: spec_fn(Result<(), Fault>, Look) -> bool,
)
    requires
        look.held,
        forall|v: Result<(), Fault>, l: Look|
            l == (Look { clean: l.clean, ..look }) && (v is Ok ==> l.clean) ==> #[trigger] end(v, l),
    ensures
        #[trigger] watch::watched(
            published::ensure_clean(home),
            look,
            follows(),
            rule(home),
            end,
        ),
{
    broadcast use group_look;

}

broadcast proof fn look_parent(
    home: Seq<char>,
    op: Seq<char>,
    look: Look,
    end: spec_fn(Result<Seq<char>, Fault>, Look) -> bool,
)
    requires
        look.held,
        forall|v: Result<Seq<char>, Fault>, l: Look|
            l == (Look { parent: l.parent, ..look }) && (v matches Ok(id) ==> l.parent == Some(id))
                ==> #[trigger] end(v, l),
    ensures
        #[trigger] watch::watched(
            published::commit_id(home, "@-"@, op),
            look,
            follows(),
            rule(home),
            end,
        ),
{
    broadcast use group_look;

    lemma_revsets();
}

broadcast proof fn look_main(
    home: Seq<char>,
    op: Seq<char>,
    look: Look,
    end: spec_fn(Result<Seq<char>, Fault>, Look) -> bool,
)
    requires
        forall|v: Result<Seq<char>, Fault>, l: Look|
            l == (Look { main: l.main, ..look }) && (v matches Ok(id) ==> l.main == Some(id))
                ==> #[trigger] end(v, l),
    ensures
        #[trigger] watch::watched(
            published::commit_id(home, "main"@, op),
            look,
            follows(),
            rule(home),
            end,
        ),
{
    broadcast use group_look;

    lemma_revsets();
}

broadcast proof fn look_follow(
    home: Seq<char>,
    look: Look,
    end: spec_fn(Result<(), Fault>, Look) -> bool,
)
    requires
        look.held,
        forall|v: Result<(), Fault>, l: Look|
            apart(look, l) && (v is Ok ==> is_ready(l)) ==> #[trigger] end(v, l),
    ensures
        #[trigger] watch::watched(
            published::follow_main(home),
            look,
            follows(),
            rule(home),
            end,
        ),
{
    broadcast use {group_look, look_clean, look_parent, look_main};

}

/// A reader sees a published workspace without edits that stands on `main`, and holds its lock;
/// where it cannot be made ready the lock is given back.
pub proof fn readers_see_main(published: PublishedWikiRepo<Seq<char>>)
    requires
        published.workflow == VcsWorkflow::Jj,
    ensures
        watch::watched(
            published.read_preparation(),
            start(),
            follows(),
            rule(published.repo),
            |v: Result<(), Fault>, l: Look|
                if v is Ok {
                    l.held && is_ready(l)
                } else {
                    !l.held
                },
        ),
{
    broadcast use {group_look, look_follow};

}

/// Without version control a reader only takes the lock of the published workspace.
pub proof fn readers_of_plain_directories_hold_the_lock(
    published: PublishedWikiRepo<Seq<char>>,
    reply: Rep,
)
    requires
        published.workflow == VcsWorkflow::Unversioned,
    ensures
        flow::run(published.read_preparation(), Seq::empty()).0 == Status::<
            Act,
            Result<(), Fault>,
        >::Waiting(Action::Acquire(Lock::Published)),
        flow::run(published.read_preparation(), seq![reply]).0 == Status::<
            Act,
            Result<(), Fault>,
        >::Finished(Ok(())),
{
    broadcast use {flow::lemma_run_bind, steps::lemma_run_quietly};

    assert(seq![reply].drop_first() =~= Seq::empty());
}

broadcast proof fn look_forgetting(
    wf: Workflow<Seq<char>>,
    names: Seq<Seq<char>>,
    look: Look,
    end: spec_fn(Result<(), Fault>, Look) -> bool,
)
    requires
        forall|i: int| 0 <= i < names.len() ==> look.listed.contains(#[trigger] names[i]),
        forall|v: Result<(), Fault>, l: Look|
            l == (Look { forgotten: l.forgotten, ..look }) && look.forgotten.subset_of(l.forgotten)
                && (v is Ok ==> forall|i: int|
                0 <= i < names.len() && workspace::is_owned_name(#[trigger] names[i])
                    ==> l.forgotten.contains(names[i])) ==> #[trigger] end(v, l),
    ensures
        #[trigger] watch::watched(
            wf.forgetting(names),
            look,
            follows(),
            rule(wf.wiki_repo),
            end,
        ),
    decreases names.len(),
{
    broadcast use group_look;

    if names.len() > 0 {
        let rest = names.drop_first();
        assert(look.listed.contains(names[0]));
        assert forall|i: int| 0 <= i < rest.len() implies look.listed.contains(
            #[trigger] rest[i],
        ) by {
            assert(rest[i] == names[i + 1]);
        }
        let after = Look { forgotten: look.forgotten.insert(names[0]), ..look };
        assert forall|v: Result<(), Fault>, l: Look|
            l == (Look { forgotten: l.forgotten, ..look }) && look.forgotten.subset_of(l.forgotten)
                && (!workspace::is_owned_name(names[0]) || l.forgotten.contains(names[0])) && (v
                is Ok ==> forall|i: int|
                0 <= i < rest.len() && workspace::is_owned_name(#[trigger] rest[i])
                    ==> l.forgotten.contains(rest[i])) implies #[trigger] end(v, l) by {
            assert forall|i: int|
                v is Ok && 0 <= i < names.len() && workspace::is_owned_name(
                    #[trigger] names[i],
                ) implies l.forgotten.contains(names[i]) by {
                if i > 0 {
                    assert(rest[i - 1] == names[i]);
                }
            }
        }
        if workspace::is_owned_name(names[0]) {
            look_forgetting(wf, rest, after, end);
        } else {
            look_forgetting(wf, rest, look, end);
        }
    }
}

/// A server starts with a wiki whose `main` can be read: every workspace that an earlier flow left
/// behind is forgotten and their directory removed, and the published workspace stands on `main`
/// without edits. No lock is kept.
pub proof fn starts_leave_nothing_behind(
    wf: Workflow<Seq<char>>,
    published: PublishedWikiRepo<Seq<char>>,
)
    requires
        published.workflow == VcsWorkflow::Jj,
        published.repo == wf.wiki_repo,
    ensures
        watch::watched(
            wf.startup(published, true),
            start(),
            follows(),
            rule(wf.wiki_repo),
            |v: Result<(), Fault>, l: Look|
                !l.held && (v is Ok ==> {
                    &&& is_ready(l)
                    &&& l.removed.contains(wf.workspace_root)
                    &&& forall|i: int|
                        0 <= i < l.listed.len() && workspace::is_owned_name(#[trigger] l.listed[i])
                            ==> l.forgotten.contains(l.listed[i])
                }),
        ),
        wf.startup(published, false) == Program::<Act, Rep, Result<(), Fault>>::Return(
            Err(Error::NotJjWorkspace(wf.wiki_repo)),
        ),
{
    broadcast use {group_look, look_main, look_forgetting, look_follow};

}

} // verus!
