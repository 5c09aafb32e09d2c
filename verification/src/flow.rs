//! Flows of steps whose outcome decides what comes next.
//!
//! A flow is modelled as a [`Program`]: a tree whose nodes are the actions to perform and whose
//! branches are the replies that may come back. Running it over the replies received so far gives
//! the next action or the result.

use vstd::prelude::*;

verus! {

/// A flow: finished with a value, or an action to perform and what follows each reply to it.
#[verifier::reject_recursive_types(R)]
pub enum Program<A, R, T> {
    Return(T),
    Do { action: A, then: spec_fn(R) -> Program<A, R, T> },
}

/// How far a flow has come: finished with a value, or waiting for the reply to an action.
pub enum Status<A, T> {
    Finished(T),
    Waiting(A),
}

/// One flow and then another, chosen by the value that the first finished with.
pub open spec fn bind<A, R, T, U>(
    p: Program<A, R, T>,
    next: spec_fn(T) -> Program<A, R, U>,
) -> Program<A, R, U>
    decreases p,
{
    match p {
        Program::Return(v) => next(v),
        Program::Do { action, then } => Program::Do {
            action,
            then: |reply: R| bind(then(reply), next),
        },
    }
}

/// Where a flow stands after the replies of a log, and the replies that it left unread.
pub open spec fn run<A, R, T>(p: Program<A, R, T>, log: Seq<R>) -> (Status<A, T>, Seq<R>)
    decreases p,
{
    match p {
        Program::Return(v) => (Status::Finished(v), log),
        Program::Do { action, then } => if log.len() == 0 {
            (Status::Waiting(action), log)
        } else {
            run(then(log[0]), log.drop_first())
        },
    }
}

/// Running one flow after another reads the log in the same order.
pub broadcast proof fn lemma_run_bind<A, R, T, U>(
    p: Program<A, R, T>,
    next: spec_fn(T) -> Program<A, R, U>,
    log: Seq<R>,
)
    ensures
        #[trigger] run(bind(p, next), log) == (match run(p, log) {
            (Status::Finished(v), rest) => run(next(v), rest),
            (Status::Waiting(a), rest) => (Status::Waiting(a), rest),
        }),
    decreases p,
{
    match p {
        Program::Return(v) => {},
        Program::Do { action, then } => {
            if log.len() > 0 {
                lemma_run_bind(then(log[0]), next, log.drop_first());
            }
        },
    }
}

/// Whether a flow, run over a log, came to an action and got a reply to it.
pub open spec fn asked<A, R, T>(p: Program<A, R, T>, log: Seq<R>, action: A, reply: R) -> bool {
    exists|k: int|
        0 <= k < log.len() && #[trigger] run(p, log.take(k)).0 == Status::<A, T>::Waiting(action)
            && log[k] == reply
}

/// What a flow leaves unread is the end of the log.
pub proof fn lemma_run_rest<A, R, T>(p: Program<A, R, T>, log: Seq<R>)
    ensures
        run(p, log).1.len() <= log.len(),
        run(p, log).1 == log.skip(log.len() - run(p, log).1.len()),
    decreases p,
{
    match p {
        Program::Return(v) => {
            assert(log.skip(0) =~= log);
        },
        Program::Do { action, then } => {
            if log.len() > 0 {
                lemma_run_rest(then(log[0]), log.drop_first());
                let rest = run(p, log).1;
                assert(log.drop_first().skip(log.drop_first().len() - rest.len()) =~= log.skip(
                    log.len() - rest.len(),
                ));
            } else {
                assert(log.skip(0) =~= log);
            }
        },
    }
}

/// A flow that has finished finishes the same with any part of the log that holds what it read.
pub proof fn lemma_run_take<A, R, T>(p: Program<A, R, T>, log: Seq<R>, k: int)
    requires
        run(p, log).0 is Finished,
        log.len() - run(p, log).1.len() <= k <= log.len(),
    ensures
        run(p, log.take(k)) == (
            run(p, log).0,
            run(p, log).1.take(k - (log.len() - run(p, log).1.len())),
        ),
    decreases p,
{
    lemma_run_rest(p, log);
    let rest = run(p, log).1;
    match p {
        Program::Return(v) => {},
        Program::Do { action, then } => {
            if log.len() > 0 {
                lemma_run_rest(then(log[0]), log.drop_first());
                lemma_run_take(then(log[0]), log.drop_first(), k - 1);
                assert(log.take(k)[0] == log[0]);
                assert(log.take(k).drop_first() =~= log.drop_first().take(k - 1));
            }
        },
    }
}

/// What the first of two flows asked, both asked.
pub broadcast proof fn lemma_asked_first<A, R, T, U>(
    p: Program<A, R, T>,
    next: spec_fn(T) -> Program<A, R, U>,
    log: Seq<R>,
    action: A,
    reply: R,
)
    requires
        asked(p, log, action, reply),
    ensures
        #[trigger] asked(bind(p, next), log, action, reply),
{
    let k = choose|k: int|
        0 <= k < log.len() && #[trigger] run(p, log.take(k)).0 == Status::<A, T>::Waiting(action)
            && log[k] == reply;
    lemma_run_bind(p, next, log.take(k));
}

/// What the second of two flows asked, both asked.
pub broadcast proof fn lemma_asked_second<A, R, T, U>(
    p: Program<A, R, T>,
    next: spec_fn(T) -> Program<A, R, U>,
    log: Seq<R>,
    action: A,
    reply: R,
)
    requires
        run(p, log).0 matches Status::Finished(v) && asked(next(v), run(p, log).1, action, reply),
    ensures
        #[trigger] asked(bind(p, next), log, action, reply),
{
    let v = run(p, log).0->Finished_0;
    let rest = run(p, log).1;
    let k = choose|k: int|
        0 <= k < rest.len() && #[trigger] run(next(v), rest.take(k)).0
            == Status::<A, U>::Waiting(action) && rest[k] == reply;
    lemma_run_rest(p, log);
    let read = log.len() - rest.len();
    lemma_run_take(p, log, read + k);
    lemma_run_bind(p, next, log.take(read + k));
    assert(log[read + k] == rest[k]);
}

} // verus!
