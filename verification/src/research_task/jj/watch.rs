//! Watching a flow: what is known at each of its steps, and which steps may follow.

use vstd::prelude::*;

use crate::flow;
use crate::flow::{Program, Status};
use crate::research_task::jj::command::JjCall;
use crate::research_task::steps;
use crate::research_task::steps::{Act, Action, Fault, Rep, Steps};

verus! {

/// Whether every action that a flow can come to obeys a rule, given what is known from the actions
/// and replies before it, and `end` holds of its value and of what is known when it finishes.
pub open spec fn watched<S, T>(
    p: Steps<T>,
    known: S,
    step: spec_fn(S, Act, Rep) -> S,
    rule: spec_fn(Act, S) -> bool,
    end: spec_fn(T, S) -> bool,
) -> bool
    decreases p,
{
    match p {
        Program::Return(v) => end(v, known),
        Program::Do { action, then } => {
            &&& rule(action, known)
            &&& forall|reply: Rep| #![trigger then(reply)]
                watched(then(reply), step(known, action, reply), step, rule, end)
        },
    }
}

/// What is known of a flow after the replies of a log.
pub open spec fn known_after<S, T>(
    p: Steps<T>,
    log: Seq<Rep>,
    known: S,
    step: spec_fn(S, Act, Rep) -> S,
) -> S
    decreases p,
{
    match p {
        Program::Return(v) => known,
        Program::Do { action, then } => if log.len() == 0 {
            known
        } else {
            known_after(then(log[0]), log.drop_first(), step(known, action, log[0]), step)
        },
    }
}

/// A watched flow obeys the rule at each action that it comes to, whatever replies it got, and where
/// it finishes, `end` holds.
pub proof fn watched_runs_obey<S, T>(
    p: Steps<T>,
    known: S,
    step: spec_fn(S, Act, Rep) -> S,
    rule: spec_fn(Act, S) -> bool,
    end: spec_fn(T, S) -> bool,
    log: Seq<Rep>,
)
    requires
        watched(p, known, step, rule, end),
    ensures
        match flow::run(p, log).0 {
            Status::Waiting(action) => rule(action, known_after(p, log, known, step)),
            Status::Finished(v) => end(v, known_after(p, log, known, step)),
        },
    decreases p,
{
    match p {
        Program::Return(v) => {},
        Program::Do { action, then } => {
            if log.len() > 0 {
                watched_runs_obey(
                    then(log[0]),
                    step(known, action, log[0]),
                    step,
                    rule,
                    end,
                    log.drop_first(),
                );
            }
        },
    }
}

pub broadcast proof fn watched_return<S, T>(
    v: T,
    known: S,
    step: spec_fn(S, Act, Rep) -> S,
    rule: spec_fn(Act, S) -> bool,
    end: spec_fn(T, S) -> bool,
)
    ensures
        #[trigger] watched(Program::Return(v), known, step, rule, end) == end(v, known),
{
}

pub broadcast proof fn watched_quietly<S, T>(
    action: Act,
    next: Steps<T>,
    known: S,
    step: spec_fn(S, Act, Rep) -> S,
    rule: spec_fn(Act, S) -> bool,
    end: spec_fn(T, S) -> bool,
)
    requires
        rule(action, known),
        forall|reply: Rep|
            watched(next, #[trigger] step(known, action, reply), step, rule, end),
    ensures
        #[trigger] watched(steps::quietly(action, next), known, step, rule, end),
{
    let then = steps::quietly(action, next)->then;
    assert(forall|reply: Rep| #[trigger] then(reply) == next);
}

pub broadcast proof fn watched_bind<S, T, U>(
    p: Steps<T>,
    next: spec_fn(T) -> Steps<U>,
    known: S,
    step: spec_fn(S, Act, Rep) -> S,
    rule: spec_fn(Act, S) -> bool,
    end: spec_fn(U, S) -> bool,
)
    ensures
        #[trigger] watched(flow::bind(p, next), known, step, rule, end) == watched(
            p,
            known,
            step,
            rule,
            |v: T, s: S| watched(next(v), s, step, rule, end),
        ),
    decreases p,
{
    let mid = |v: T, s: S| watched(next(v), s, step, rule, end);
    match p {
        Program::Return(v) => {
            assert(mid(v, known) == watched(next(v), known, step, rule, end));
        },
        Program::Do { action, then } => {
            let later = flow::bind(p, next)->then;
            assert forall|reply: Rep|
                #![trigger then(reply)]
                #![trigger later(reply)]
                watched(then(reply), step(known, action, reply), step, rule, mid) == watched(
                    later(reply),
                    step(known, action, reply),
                    step,
                    rule,
                    end,
                ) by {
                assert(later(reply) == flow::bind(then(reply), next));
                watched_bind(then(reply), next, step(known, action, reply), step, rule, end);
            }
        },
    }
}

pub broadcast proof fn watched_jj<S>(
    repo: Seq<char>,
    call: JjCall<Seq<char>, Seq<Seq<char>>>,
    known: S,
    step: spec_fn(S, Act, Rep) -> S,
    rule: spec_fn(Act, S) -> bool,
    end: spec_fn(Result<Seq<char>, Fault>, S) -> bool,
)
    requires
        rule(Action::Jj { repo, call }, known),
        forall|reply: Rep| #[trigger]
            end(steps::text_reply(reply), step(known, Action::Jj { repo, call }, reply)),
    ensures
        #[trigger] watched(steps::jj(repo, call), known, step, rule, end),
{
    reveal_with_fuel(watched, 2);
}

pub broadcast proof fn watched_agent<S>(
    prompt: Seq<char>,
    dir: Seq<char>,
    known: S,
    step: spec_fn(S, Act, Rep) -> S,
    rule: spec_fn(Act, S) -> bool,
    end: spec_fn(Result<Option<Seq<char>>, Fault>, S) -> bool,
)
    requires
        rule(Action::Agent { prompt, dir }, known),
        forall|reply: Rep| #[trigger]
            end(steps::answer_reply(reply), step(known, Action::Agent { prompt, dir }, reply)),
    ensures
        #[trigger] watched(steps::agent(prompt, dir), known, step, rule, end),
{
    reveal_with_fuel(watched, 2);
}

pub broadcast proof fn watched_plain<S>(
    action: Act,
    known: S,
    step: spec_fn(S, Act, Rep) -> S,
    rule: spec_fn(Act, S) -> bool,
    end: spec_fn(Result<(), Fault>, S) -> bool,
)
    requires
        rule(action, known),
        forall|reply: Rep| #[trigger]
            end(steps::plain_reply(reply), step(known, action, reply)),
    ensures
        #[trigger] watched(steps::plain(action), known, step, rule, end),
{
    reveal_with_fuel(watched, 2);
}

pub broadcast group group_watched {
    watched_return,
    watched_quietly,
    watched_bind,
    watched_jj,
    watched_agent,
    watched_plain,
}

} // verus!
