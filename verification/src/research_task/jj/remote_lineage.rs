//! Where the commits come from that a synchronisation with a remote brings into `main`.

use vstd::prelude::*;

use crate::config::GitSyncConfig;
use crate::research_task::jj;
use crate::research_task::jj::command;
use crate::research_task::jj::command::Effect;
use crate::research_task::jj::lineage;
use crate::research_task::jj::publication;
use crate::research_task::jj::watch;
use crate::research_task::jj::workflow;
use crate::research_task::jj::workflow::{Fetched, Integrated, Workflow};
use crate::research_task::jj::workspace;
use crate::research_task::jj::workspace::OwnedWorkspace;
use crate::research_task::jj::MergeKind;
use crate::research_task::published;
use crate::research_task::published::PublishedWikiRepo;
use crate::research_task::steps;
use crate::research_task::steps::{Act, Action, Fault, Rep, Steps};
use crate::text;

verus! {

/// A synchronisation: where it works, and with which remote.
pub struct Visit {
    /// The published workspace.
    pub home: Seq<char>,
    /// The workspace in which heads are merged.
    pub merge: OwnedWorkspace<Seq<char>>,
    pub remote: Seq<char>,
    pub ssh_command: Option<Seq<char>>,
}

/// What is known of a synchronisation.
pub struct Tour {
    /// The commit that `main` stood on when it was last read before the fetch.
    pub before: Option<Seq<char>>,
    pub fetched: bool,
    /// Whether the remote's `main` is followed from now on.
    pub followed: bool,
    /// The heads of the local and the remote `main`.
    pub heads: Option<Seq<Seq<char>>>,
    /// Whether a workspace was created that merges the heads.
    pub merged: bool,
    /// The commit of that workspace, when it was last read.
    pub merge: Option<Seq<char>>,
    /// Whether that workspace was found to be without conflicts since an agent last worked in it.
    pub settled: bool,
    /// Whether that workspace was recorded since an agent last worked in it.
    pub settling: bool,
    /// Whether `main` was moved to the merge.
    pub moved: bool,
    /// Whether `main` was pushed.
    pub pushed: bool,
}

/// Nothing known yet.
pub open spec fn start() -> Tour {
    Tour {
        before: None,
        fetched: false,
        followed: false,
        heads: None,
        merged: false,
        merge: None,
        settled: false,
        settling: true,
        moved: false,
        pushed: false,
    }
}

/// The commit ids in a reply, of which there is at least one.
pub open spec fn ids_in(reply: Rep) -> Option<Seq<Seq<char>>> {
    match steps::text_reply(reply) {
        Ok(output) => if command::entries(output).len() > 0 {
            Some(command::entries(output))
        } else {
            None
        },
        Err(_) => None,
    }
}

/// What is known after the reply to an action.
pub open spec fn tour_after(visit: Visit, tour: Tour, action: Act, reply: Rep) -> Tour {
    match action {
        Action::Agent { prompt: _, dir: _ } => Tour { settled: false, settling: false, ..tour },
        Action::Jj { repo, call } => match command::effect_of(call.args()) {
            Effect::Fetches { remote: _ } => Tour { fetched: !(reply is Failed), ..tour },
            Effect::TracksBookmark { remote_bookmark: _ } => Tour {
                followed: tour.fetched && !(reply is Failed),
                ..tour
            },
            Effect::AddsWorkspace { name: _, on, message: _, path: _ } => if reply is Failed {
                tour
            } else {
                Tour { merged: tour.heads == Some(on), settled: false, settling: true, ..tour }
            },
            Effect::RecordsWorkingCopy => if reply is Failed {
                tour
            } else {
                Tour { settling: true, ..tour }
            },
            Effect::ListsConflicts => Tour {
                settled: tour.settling && lineage::no_conflicts_in(reply),
                ..tour
            },
            Effect::ListsCommits { revset } => if revset == "main"@ {
                if tour.fetched {
                    tour
                } else {
                    Tour { before: publication::id_in(reply), ..tour }
                }
            } else if revset == "@-"@ {
                tour
            } else if revset == "@"@ {
                Tour { merge: publication::id_in(reply), ..tour }
            } else {
                Tour { heads: ids_in(reply), ..tour }
            },
            Effect::SetsBookmark { bookmark: _, rev: _ } => Tour {
                moved: tour.moved || repo == visit.merge.path && !(reply is Failed),
                ..tour
            },
            Effect::Pushes { remote: _, bookmark: _ } => Tour {
                pushed: !(reply is Failed),
                ..tour
            },
            _ => tour,
        },
        _ => tour,
    }
}

/// Which actions a synchronisation takes, given what is known.
///
/// It speaks to the configured remote alone, with the configured SSH command. The heads that count
/// are those of the local `main` and of the remote's, read after the fetch. `main` is moved to the
/// only head, or to a commit without conflicts that merges all heads; before the heads are merged it
/// goes back to where it was before the fetch. Only then is `main` pushed.
pub open spec fn leads_on(visit: Visit, action: Act, tour: Tour) -> bool {
    match action {
        Action::Agent { prompt, dir } => dir == visit.merge.path && tour.merged && !tour.settled
            && text::contains(prompt, visit.remote),
        Action::Jj { repo, call } => match command::effect_of(call.args()) {
            Effect::Fetches { remote } => remote == visit.remote && call.ssh() == visit.ssh_command,
            Effect::TracksBookmark { remote_bookmark } => remote_bookmark == "main@"@ + visit.remote,
            Effect::Pushes { remote, bookmark } => remote == visit.remote && bookmark == "main"@
                && call.ssh() == visit.ssh_command && tour.fetched && tour.followed && tour.heads
                is Some,
            Effect::ListsCommits { revset } => {
                ||| revset == "main"@ || revset == "@-"@ || revset == "@"@
                ||| revset == "heads(main | main@"@ + visit.remote + ")"@ && tour.fetched
                    && tour.followed
            },
            Effect::AddsWorkspace { name, on, message, path } => {
                &&& (OwnedWorkspace { name, path }) == visit.merge
                &&& tour.heads == Some(on)
                &&& on.len() != 1
                &&& message == Some("wikidesk remote sync: "@ + visit.remote + "/main"@)
            },
            Effect::SetsBookmark { bookmark, rev } => bookmark == "main"@ && (tour.moved || {
                ||| repo == visit.home && tour.heads == Some(seq![rev])
                ||| {
                    &&& repo == visit.home
                    &&& tour.heads is Some && tour.heads->0.len() != 1
                    &&& tour.before == Some(rev)
                }
                ||| {
                    &&& repo == visit.merge.path
                    &&& tour.merge == Some(rev)
                    &&& tour.merged && tour.settled
                }
            }),
            _ => true,
        },
        _ => true,
    }
}

/// What is known after the reply to an action of a visit.
pub open spec fn follows(visit: Visit) -> spec_fn(Tour, Act, Rep) -> Tour {
    |tour: Tour, action: Act, reply: Rep| tour_after(visit, tour, action, reply)
}

/// The rule that [`leads_on`] states for a visit.
pub open spec fn leads(visit: Visit) -> spec_fn(Act, Tour) -> bool {
    |action: Act, tour: Tour| leads_on(visit, action, tour)
}

broadcast group group_tour {
    watch::group_watched,
    command::calls_do_what_flows_rely_on,
}

proof fn lemma_revsets(remote: Seq<char>)
    ensures
        "main"@ != "@"@,
        "main"@ != "@-"@,
        "@"@ != "@-"@,
        "heads(main | main@"@ + remote + ")"@ != "main"@,
        "heads(main | main@"@ + remote + ")"@ != "@"@,
        "heads(main | main@"@ + remote + ")"@ != "@-"@,
{
    reveal_strlit("main");
    reveal_strlit("@");
    reveal_strlit("@-");
    reveal_strlit("heads(main | main@");
    reveal_strlit(")");
    assert("main"@.len() == 4);
    assert("@"@.len() == 1);
    assert("@-"@.len() == 2);
    assert(("heads(main | main@"@ + remote + ")"@).len() > 4);
}

broadcast proof fn tour_own_id(
    dir: Seq<char>,
    op: Seq<char>,
    tour: Tour,
    visit: Visit,
    end: spec_fn(Result<Seq<char>, Fault>, Tour) -> bool,
)
    requires
        forall|v: Result<Seq<char>, Fault>, t: Tour|
            t == (Tour { merge: workflow::known(v), ..tour }) ==> #[trigger] end(v, t),
    ensures
        #[trigger] watch::watched(
            published::commit_id(dir, "@"@, op),
            tour,
            follows(visit),
            leads(visit),
            end,
        ),
{
    broadcast use group_tour;

    lemma_revsets(visit.remote);
}

broadcast proof fn tour_main(
    repo: Seq<char>,
    op: Seq<char>,
    tour: Tour,
    visit: Visit,
    end: spec_fn(Result<Seq<char>, Fault>, Tour) -> bool,
)
    requires
        forall|v: Result<Seq<char>, Fault>, t: Tour|
            t == (if tour.fetched {
                tour
            } else {
                Tour { before: workflow::known(v), ..tour }
            }) ==> #[trigger] end(v, t),
    ensures
        #[trigger] watch::watched(
            published::commit_id(repo, "main"@, op),
            tour,
            follows(visit),
            leads(visit),
            end,
        ),
{
    broadcast use group_tour;

    lemma_revsets(visit.remote);
}

broadcast proof fn tour_parent(
    repo: Seq<char>,
    op: Seq<char>,
    tour: Tour,
    visit: Visit,
    end: spec_fn(Result<Seq<char>, Fault>, Tour) -> bool,
)
    requires
        forall|v: Result<Seq<char>, Fault>| #[trigger] end(v, tour),
    ensures
        #[trigger] watch::watched(
            published::commit_id(repo, "@-"@, op),
            tour,
            follows(visit),
            leads(visit),
            end,
        ),
{
    broadcast use group_tour;

    lemma_revsets(visit.remote);
}

broadcast proof fn tour_ensure_clean(
    repo: Seq<char>,
    tour: Tour,
    visit: Visit,
    end: spec_fn(Result<(), Fault>, Tour) -> bool,
)
    requires
        forall|v: Result<(), Fault>| #[trigger] end(v, tour),
    ensures
        #[trigger] watch::watched(
            published::ensure_clean(repo),
            tour,
            follows(visit),
            leads(visit),
            end,
        ),
{
    broadcast use group_tour;

}

/// What following `main` leaves known.
pub open spec fn apart_from_before(before: Tour, after: Tour) -> bool {
    if before.fetched {
        after == before
    } else {
        after == (Tour { before: after.before, ..before })
    }
}

broadcast proof fn tour_follow_main(
    repo: Seq<char>,
    tour: Tour,
    visit: Visit,
    end: spec_fn(Result<(), Fault>, Tour) -> bool,
)
    requires
        forall|v: Result<(), Fault>, t: Tour| apart_from_before(tour, t) ==> #[trigger] end(v, t),
    ensures
        #[trigger] watch::watched(
            published::follow_main(repo),
            tour,
            follows(visit),
            leads(visit),
            end,
        ),
{
    broadcast use {group_tour, tour_main, tour_parent, tour_ensure_clean};

}

broadcast proof fn tour_preparation(
    published: PublishedWikiRepo<Seq<char>>,
    tour: Tour,
    visit: Visit,
    end: spec_fn(Result<(), Fault>, Tour) -> bool,
)
    requires
        forall|v: Result<(), Fault>, t: Tour| apart_from_before(tour, t) ==> #[trigger] end(v, t),
    ensures
        #[trigger] watch::watched(
            published.preparation(),
            tour,
            follows(visit),
            leads(visit),
            end,
        ),
{
    broadcast use {group_tour, tour_follow_main};

}

/// What is known of the remote stays known.
pub open spec fn still_fetched(before: Tour, after: Tour) -> bool {
    &&& after.fetched == before.fetched
    &&& after.followed == before.followed
    &&& after.heads == before.heads
}

broadcast proof fn tour_undone(
    dir: Seq<char>,
    old_main: Result<Seq<char>, Fault>,
    outcome: Result<(), Fault>,
    tour: Tour,
    visit: Visit,
    end: spec_fn(Result<(), Fault>, Tour) -> bool,
)
    requires
        tour.moved,
        forall|v: Result<(), Fault>, t: Tour| still_fetched(tour, t) ==> #[trigger] end(v, t),
    ensures
        #[trigger] watch::watched(
            published::undone_on_failure(dir, old_main, outcome),
            tour,
            follows(visit),
            leads(visit),
            end,
        ),
{
    broadcast use group_tour;

}

broadcast proof fn tour_move_main(
    repo: Seq<char>,
    tour: Tour,
    visit: Visit,
    end: spec_fn(Result<(), Fault>, Tour) -> bool,
)
    requires
        tour.fetched,
        tour.merged,
        tour.settled,
        forall|v: Result<(), Fault>, t: Tour| still_fetched(tour, t) ==> #[trigger] end(v, t),
    ensures
        #[trigger] watch::watched(
            published::move_main(repo, visit.merge.path, "@"@),
            tour,
            follows(visit),
            leads(visit),
            end,
        ),
{
    broadcast use {
        group_tour,
        tour_main,
        tour_own_id,
        tour_ensure_clean,
        tour_follow_main,
        tour_undone,
    };

}

broadcast proof fn tour_publication(
    published: PublishedWikiRepo<Seq<char>>,
    tour: Tour,
    visit: Visit,
    end: spec_fn(Result<(), Fault>, Tour) -> bool,
)
    requires
        tour.fetched,
        tour.merged,
        tour.settled,
        forall|v: Result<(), Fault>, t: Tour| still_fetched(tour, t) ==> #[trigger] end(v, t),
    ensures
        #[trigger] watch::watched(
            published.publication(visit.merge.path, "@"@),
            tour,
            follows(visit),
            leads(visit),
            end,
        ),
{
    broadcast use {group_tour, tour_move_main};

}

broadcast proof fn tour_recording(
    dir: Seq<char>,
    kind: MergeKind<Seq<char>>,
    answer: Option<Seq<char>>,
    tour: Tour,
    visit: Visit,
    end: spec_fn(Result<(), Fault>, Tour) -> bool,
)
    requires
        forall|v: Result<(), Fault>| #[trigger] end(v, tour),
    ensures
        #[trigger] watch::watched(
            workflow::recording(dir, kind, answer),
            tour,
            follows(visit),
            leads(visit),
            end,
        ),
{
    broadcast use group_tour;

}

proof fn lemma_prompt_holds(remote: Seq<char>, conflicts: Seq<char>)
    ensures
        text::contains(jj::remote_sync_prompt_of(remote, conflicts), remote),
{
    let prompt = jj::remote_sync_prompt_of(remote, conflicts);
    let first =
        "You are resolving a wikidesk jj remote sync merge.\n\nThe current workspace merges local main with fetched "@;
    let a = first.len() as int;
    assert(prompt.subrange(a, a + remote.len()) =~= remote);
    assert(text::occurs_at(prompt, remote, a));
}

broadcast proof fn tour_resolution(
    kind: MergeKind<Seq<char>>,
    tour: Tour,
    visit: Visit,
    end: spec_fn(Result<(), Fault>, Tour) -> bool,
)
    requires
        kind == (MergeKind::RemoteSync { remote: visit.remote }),
        tour.merged,
        tour.settling,
        forall|v: Result<(), Fault>, t: Tour|
            still_fetched(tour, t) && (v is Ok ==> t.merged && t.settled) ==> #[trigger] end(v, t),
    ensures
        #[trigger] watch::watched(
            workflow::resolution(visit.merge.path, kind),
            tour,
            follows(visit),
            leads(visit),
            end,
        ),
{
    broadcast use {group_tour, tour_recording};

    assert forall|conflicts: Seq<char>|
        text::contains(#[trigger] kind.prompt_of(conflicts), visit.remote) by {
        lemma_prompt_holds(visit.remote, conflicts);
    }
}

broadcast proof fn tour_parents(
    path: Seq<char>,
    tour: Tour,
    visit: Visit,
    end: spec_fn(Result<(), Fault>, Tour) -> bool,
)
    requires
        forall|v: Result<(), Fault>| #[trigger] end(v, tour),
    ensures
        #[trigger] watch::watched(
            workflow::parents(path),
            tour,
            follows(visit),
            leads(visit),
            end,
        ),
{
    broadcast use group_tour;

}

broadcast proof fn tour_discarding<T>(
    wf: Workflow<Seq<char>>,
    ws: OwnedWorkspace<Seq<char>>,
    next: Steps<T>,
    tour: Tour,
    visit: Visit,
    end: spec_fn(T, Tour) -> bool,
)
    requires
        watch::watched(next, tour, follows(visit), leads(visit), end),
    ensures
        #[trigger] watch::watched(
            wf.discarding(ws, next),
            tour,
            follows(visit),
            leads(visit),
            end,
        ),
{
    broadcast use group_tour;

}

broadcast proof fn tour_merging(
    wf: Workflow<Seq<char>>,
    published: PublishedWikiRepo<Seq<char>>,
    revs: Seq<Seq<char>>,
    kind: MergeKind<Seq<char>>,
    tour: Tour,
    visit: Visit,
    end: spec_fn(Result<(), Fault>, Tour) -> bool,
)
    requires
        kind == (MergeKind::RemoteSync { remote: visit.remote }),
        tour.fetched,
        tour.heads == Some(revs),
        revs.len() != 1,
        forall|v: Result<(), Fault>, t: Tour| still_fetched(tour, t) ==> #[trigger] end(v, t),
    ensures
        #[trigger] watch::watched(
            wf.merging(published, visit.merge, revs, kind),
            tour,
            follows(visit),
            leads(visit),
            end,
        ),
{
    broadcast use {group_tour, tour_parents, tour_resolution, tour_publication};

}

/// What a fetch leaves known.
pub open spec fn is_fetched(
    v: Result<Fetched<Seq<char>, Seq<Seq<char>>>, Fault>,
    tour: Tour,
) -> bool {
    v matches Ok(fetched) ==> {
        &&& tour.fetched && tour.followed && !tour.moved
        &&& tour.heads == Some(fetched.heads)
        &&& tour.before == fetched.old_main
    }
}

broadcast proof fn tour_heads_reading(
    wf: Workflow<Seq<char>>,
    old_main: Option<Seq<char>>,
    tour: Tour,
    visit: Visit,
    end: spec_fn(Result<Fetched<Seq<char>, Seq<Seq<char>>>, Fault>, Tour) -> bool,
)
    requires
        tour.fetched,
        tour.followed,
        !tour.moved,
        tour.before == old_main,
        forall|v: Result<Fetched<Seq<char>, Seq<Seq<char>>>, Fault>, t: Tour|
            is_fetched(v, t) ==> #[trigger] end(v, t),
    ensures
        #[trigger] watch::watched(
            wf.heads_reading(visit.remote, old_main),
            tour,
            follows(visit),
            leads(visit),
            end,
        ),
{
    broadcast use {group_tour, tour_main};

    lemma_revsets(visit.remote);
}

broadcast proof fn tour_fetching(
    wf: Workflow<Seq<char>>,
    published: PublishedWikiRepo<Seq<char>>,
    sync: GitSyncConfig<Seq<char>>,
    tour: Tour,
    visit: Visit,
    end: spec_fn(Result<Fetched<Seq<char>, Seq<Seq<char>>>, Fault>, Tour) -> bool,
)
    requires
        sync.remote == visit.remote,
        sync.ssh_command == visit.ssh_command,
        !tour.fetched,
        !tour.moved,
        forall|v: Result<Fetched<Seq<char>, Seq<Seq<char>>>, Fault>, t: Tour|
            is_fetched(v, t) ==> #[trigger] end(v, t),
    ensures
        #[trigger] watch::watched(
            wf.fetching(published, sync),
            tour,
            follows(visit),
            leads(visit),
            end,
        ),
{
    broadcast use {group_tour, tour_preparation, tour_main, tour_heads_reading};

}

broadcast proof fn tour_settling(
    wf: Workflow<Seq<char>>,
    published: PublishedWikiRepo<Seq<char>>,
    run_id: Seq<char>,
    fetched: Fetched<Seq<char>, Seq<Seq<char>>>,
    tour: Tour,
    visit: Visit,
    end: spec_fn(Integrated<Fault>, Tour) -> bool,
)
    requires
        wf.wiki_repo == visit.home,
        visit.merge == workspace::remote_sync_workspace(wf.workspace_root, run_id),
        is_fetched(Ok(fetched), tour),
        forall|v: Integrated<Fault>, t: Tour| still_fetched(tour, t) ==> #[trigger] end(v, t),
    ensures
        #[trigger] watch::watched(
            wf.settling(published, visit.remote, run_id, fetched),
            tour,
            follows(visit),
            leads(visit),
            end,
        ),
{
    broadcast use {group_tour, tour_merging};

    if fetched.heads.len() == 1 {
        assert(fetched.heads =~= seq![fetched.heads[0]]);
    }
}

broadcast proof fn tour_pushing(
    wf: Workflow<Seq<char>>,
    published: PublishedWikiRepo<Seq<char>>,
    sync: GitSyncConfig<Seq<char>>,
    outcome: Result<(), Fault>,
    tour: Tour,
    visit: Visit,
    end: spec_fn(Result<(), Fault>, Tour) -> bool,
)
    requires
        sync.remote == visit.remote,
        sync.ssh_command == visit.ssh_command,
        tour.fetched,
        tour.followed,
        tour.heads is Some,
        forall|v: Result<(), Fault>, t: Tour| (v is Ok ==> t.pushed) ==> #[trigger] end(v, t),
    ensures
        #[trigger] watch::watched(
            wf.pushing(published, sync, outcome),
            tour,
            follows(visit),
            leads(visit),
            end,
        ),
{
    broadcast use {group_tour, tour_preparation};

}

broadcast proof fn tour_sync_closing(
    wf: Workflow<Seq<char>>,
    run_id: Seq<char>,
    outcome: Result<(), Fault>,
    merging: bool,
    tour: Tour,
    visit: Visit,
    end: spec_fn(Result<(), Fault>, Tour) -> bool,
)
    requires
        end(outcome, tour),
    ensures
        #[trigger] watch::watched(
            wf.sync_closing(run_id, outcome, merging),
            tour,
            follows(visit),
            leads(visit),
            end,
        ),
{
    broadcast use {group_tour, tour_discarding};

}

broadcast proof fn tour_sync_ending(
    wf: Workflow<Seq<char>>,
    published: PublishedWikiRepo<Seq<char>>,
    sync: GitSyncConfig<Seq<char>>,
    run_id: Seq<char>,
    fetched: Fetched<Seq<char>, Seq<Seq<char>>>,
    tour: Tour,
    visit: Visit,
    end: spec_fn(Result<(), Fault>, Tour) -> bool,
)
    requires
        wf.wiki_repo == visit.home,
        visit.merge == workspace::remote_sync_workspace(wf.workspace_root, run_id),
        visit.remote == sync.remote,
        visit.ssh_command == sync.ssh_command,
        is_fetched(Ok(fetched), tour),
        forall|v: Result<(), Fault>, t: Tour| (v is Ok ==> t.pushed) ==> #[trigger] end(v, t),
    ensures
        #[trigger] watch::watched(
            wf.sync_ending(published, sync, run_id, fetched),
            tour,
            follows(visit),
            leads(visit),
            end,
        ),
{
    broadcast use {group_tour, tour_settling, tour_pushing, tour_sync_closing};

}

/// A synchronisation brings the heads of the local and the remote `main` together: it speaks to the
/// configured remote alone, moves `main` to the only head or to a merge of all heads that is without
/// conflicts, and pushes `main` only after it has fetched. One that succeeds has pushed `main`.
pub proof fn synchronisation_brings_the_heads_together(
    wf: Workflow<Seq<char>>,
    published: PublishedWikiRepo<Seq<char>>,
    sync: GitSyncConfig<Seq<char>>,
    run_id: Seq<char>,
    visit: Visit,
)
    requires
        wf.wiki_repo == visit.home,
        visit.merge == workspace::remote_sync_workspace(wf.workspace_root, run_id),
        visit.remote == sync.remote,
        visit.ssh_command == sync.ssh_command,
    ensures
        watch::watched(
            wf.remote_sync(published, sync, run_id),
            start(),
            follows(visit),
            leads(visit),
            |v: Result<(), Fault>, t: Tour| v is Ok ==> t.pushed,
        ),
{
    broadcast use {group_tour, tour_fetching, tour_sync_ending};

}

} // verus!
