//! What the outcome of a flow says about the replies that it got.

use vstd::prelude::*;

use crate::config::VcsWorkflow;
use crate::flow;
use crate::flow::Status;
use crate::research_task::jj::command::JjCall;
use crate::research_task::jj::workflow;
use crate::research_task::jj::workflow::{Staged, Workflow};
use crate::research_task::jj::workspace;
use crate::research_task::jj::Error;
use crate::research_task::published;
use crate::research_task::published::PublishedWikiRepo;
use crate::research_task::steps;
use crate::research_task::steps::{Act, Action, Fault, Rep, Reply};
use crate::text;

verus! {

/// The answer in what the agent left.
pub open spec fn answer_of(staged: Staged<Seq<char>>) -> Seq<char> {
    match staged {
        Staged::Unchanged { answer } => answer,
        Staged::Changed { answer, rev: _, parent: _ } => answer,
    }
}

proof fn lemma_agent_asked(prompt: Seq<char>, dir: Seq<char>, log: Seq<Rep>)
    requires
        run_value(flow::run(steps::agent(prompt, dir), log).0) matches Some(Ok(Some(a))),
    ensures
        log.len() > 0,
        run_value(flow::run(steps::agent(prompt, dir), log).0) matches Some(Ok(Some(a)))
            && log[0] == Reply::Text(a),
        flow::asked(steps::agent(prompt, dir), log, Action::Agent { prompt, dir }, log[0]),
{
    reveal_with_fuel(flow::run, 2);
    assert(flow::run(steps::agent(prompt, dir), log.take(0)).0 == Status::<
        Act,
        Result<Option<Seq<char>>, Fault>,
    >::Waiting(Action::Agent { prompt, dir }));
}

/// The value of a flow that has finished.
pub open spec fn run_value<T>(status: Status<Act, T>) -> Option<T> {
    match status {
        Status::Finished(v) => Some(v),
        Status::Waiting(a) => None,
    }
}

proof fn lemma_committed_answer(
    dir: Seq<char>,
    answer: Seq<char>,
    task_id: Seq<char>,
    question: Seq<char>,
    log: Seq<Rep>,
)
    ensures
        run_value(
            flow::run(workflow::committing(dir, answer, task_id, question), log).0,
        ) matches Some(Ok(staged)) ==> answer_of(staged) == answer,
{
    broadcast use flow::lemma_run_bind;

}

proof fn lemma_staged_answer(
    wf: Workflow<Seq<char>>,
    prompt: Seq<char>,
    task_id: Seq<char>,
    question: Seq<char>,
    log: Seq<Rep>,
)
    ensures
        run_value(
            flow::run(wf.staging(prompt, task_id, question), log).0,
        ) matches Some(Ok(staged)) ==> flow::asked(
            wf.staging(prompt, task_id, question),
            log,
            Action::Agent {
                prompt,
                dir: workspace::research_workspace(wf.workspace_root, task_id).path,
            },
            Reply::Text(answer_of(staged)),
        ),
{
    broadcast use {flow::lemma_run_bind, flow::lemma_asked_first, flow::lemma_asked_second};

    let ws = workspace::research_workspace(wf.workspace_root, task_id);
    assert forall|l: Seq<Rep>|
        run_value(#[trigger] flow::run(steps::agent(prompt, ws.path), l).0) matches Some(
            Ok(Some(a)),
        ) implies flow::asked(
        steps::agent(prompt, ws.path),
        l,
        Action::Agent { prompt, dir: ws.path },
        Reply::Text(run_value(flow::run(steps::agent(prompt, ws.path), l).0)->0->Ok_0->0),
    ) by {
        lemma_agent_asked(prompt, ws.path, l);
    }
    assert forall|answer: Seq<char>, l: Seq<Rep>|
        run_value(
            #[trigger] flow::run(
                workflow::committing(ws.path, answer, task_id, question),
                l,
            ).0,
        ) matches Some(Ok(staged)) implies answer_of(
        run_value(
            flow::run(workflow::committing(ws.path, answer, task_id, question), l).0,
        )->0->Ok_0,
    ) == answer by {
        lemma_committed_answer(ws.path, answer, task_id, question, l);
    }
}

proof fn lemma_ending_answer(
    wf: Workflow<Seq<char>>,
    published: PublishedWikiRepo<Seq<char>>,
    task_id: Seq<char>,
    question: Seq<char>,
    staged: Result<Staged<Seq<char>>, Fault>,
    log: Seq<Rep>,
)
    ensures
        run_value(
            flow::run(wf.research_ending(published, task_id, question, staged), log).0,
        ) matches Some(Ok(answer)) ==> staged is Ok && answer == answer_of(staged->Ok_0),
{
    broadcast use {flow::lemma_run_bind, steps::lemma_run_quietly};

}

/// The answer of a research flow is what the agent replied to the prompt, in the workspace of the
/// task.
pub proof fn research_answers_what_the_agent_said(
    wf: Workflow<Seq<char>>,
    published: PublishedWikiRepo<Seq<char>>,
    prompt: Seq<char>,
    task_id: Seq<char>,
    question: Seq<char>,
    log: Seq<Rep>,
    answer: Seq<char>,
)
    requires
        flow::run(wf.research(published, prompt, task_id, question), log).0
            == Status::<Act, Result<Seq<char>, Fault>>::Finished(Ok(answer)),
    ensures
        flow::asked(
            wf.research(published, prompt, task_id, question),
            log,
            Action::Agent {
                prompt,
                dir: workspace::research_workspace(wf.workspace_root, task_id).path,
            },
            Reply::Text(answer),
        ),
{
    broadcast use {flow::lemma_run_bind, flow::lemma_asked_first, flow::lemma_asked_second};

    let ready = flow::run(published.preparation(), log);
    let staging = wf.staging(prompt, task_id, question);
    let staged = flow::run(staging, ready.1);
    lemma_staged_answer(wf, prompt, task_id, question, ready.1);
    lemma_ending_answer(
        wf,
        published,
        task_id,
        question,
        run_value(staged.0)->0,
        staged.1,
    );
}

/// A published workspace with edits refuses research before anything else is tried.
pub proof fn dirty_published_workspace_refuses_research(
    wf: Workflow<Seq<char>>,
    published: PublishedWikiRepo<Seq<char>>,
    prompt: Seq<char>,
    task_id: Seq<char>,
    question: Seq<char>,
    summary: Seq<char>,
    acquired: Rep,
    released: Rep,
)
    requires
        published.workflow == VcsWorkflow::Jj,
        !text::is_blank(summary),
    ensures
        flow::run(
            wf.research(published, prompt, task_id, question),
            seq![acquired, Reply::Text(summary), released],
        ) == (
            Status::<Act, Result<Seq<char>, Fault>>::Finished(
                Err(Error::PublishedDirty { repo: published.repo, summary }),
            ),
            Seq::<Rep>::empty(),
        ),
{
    broadcast use {flow::lemma_run_bind, steps::lemma_run_quietly};

    reveal_with_fuel(flow::run, 2);
    let log = seq![acquired, Reply::Text(summary), released];
    assert(log.drop_first() =~= seq![Reply::Text(summary), released]);
    assert(log.drop_first().drop_first() =~= seq![released]);
    assert(log.drop_first().drop_first().drop_first() =~= Seq::empty());
    assert(flow::run(steps::jj(published.repo, JjCall::DiffSummary), log.drop_first()) == (
        Status::<Act, Result<Seq<char>, Fault>>::Finished(Ok(summary)),
        log.drop_first().drop_first(),
    ));
}

/// A publication that moved `main` and then failed to bring the published workspace along puts
/// `main` back to where it was, and reports the failure.
pub proof fn failed_publication_restores_main(
    repo: Seq<char>,
    dir: Seq<char>,
    rev: Seq<char>,
    old_main: Seq<char>,
    new_main: Seq<char>,
    error: Fault,
    log: Seq<Rep>,
    cleared: Seq<Rep>,
    read: Seq<Rep>,
    found: Seq<Rep>,
    moved: Seq<Rep>,
    failed: Seq<Rep>,
)
    requires
        flow::run(published::ensure_clean(repo), log) == (
            Status::<Act, Result<(), Fault>>::Finished(Ok(())),
            cleared,
        ),
        flow::run(
            published::commit_id(repo, "main"@, "reading main before publish"@),
            cleared,
        ) == (Status::<Act, Result<Seq<char>, Fault>>::Finished(Ok(old_main)), read),
        flow::run(
            published::commit_id(dir, rev, "reading revision before publish"@),
            read,
        ) == (Status::<Act, Result<Seq<char>, Fault>>::Finished(Ok(new_main)), found),
        flow::run(steps::jj_do(dir, JjCall::SetMain { rev: new_main }), found) == (
            Status::<Act, Result<(), Fault>>::Finished(Ok(())),
            moved,
        ),
        flow::run(published::follow_main(repo), moved) == (
            Status::<Act, Result<(), Fault>>::Finished(Err(error)),
            failed,
        ),
    ensures
        flow::run(published::move_main(repo, dir, rev), log) == (if failed.len() == 0 {
            (
                Status::<Act, Result<(), Fault>>::Waiting(
                    Action::Jj { repo: dir, call: JjCall::SetMain { rev: old_main } },
                ),
                failed,
            )
        } else {
            (Status::Finished(Err(error)), failed.drop_first())
        }),
{
    broadcast use {flow::lemma_run_bind, steps::lemma_run_quietly};

}

} // verus!
