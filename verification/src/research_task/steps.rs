//! The steps of a flow: the actions that it asks for and the replies that it gets.

use vstd::prelude::*;

use crate::flow;
use crate::flow::{Program, Status};
use crate::research_task::jj::command::JjCall;
use crate::research_task::jj::Error;
use crate::views;

verus! {

/// A lock that a flow holds over some of its steps.
#[derive(Debug, Clone, Copy, PartialEq, Eq, Structural)]
pub enum Lock {
    /// Held while `main` may move.
    Integration,
    /// Held while the published workspace is in use.
    Published,
}

/// What a flow asks for.
#[derive(Debug, PartialEq, Eq)]
pub enum Action<S = String, L = Vec<String>> {
    /// Run `jj` on a repository.
    Jj { repo: S, call: JjCall<S, L> },
    /// Run the agent in a directory.
    Agent { prompt: S, dir: S },
    /// Create a directory and those above it.
    CreateDir { path: S },
    /// Remove a directory with all it holds, if it exists.
    RemoveDir { path: S },
    /// Wait for a lock and take it.
    Acquire(Lock),
    Release(Lock),
}

/// The reply to an action.
#[derive(Debug, PartialEq, Eq)]
pub enum Reply<S = String> {
    /// The output of `jj`, or the answer of the agent.
    Text(S),
    /// Done, with nothing to say.
    Nothing,
    Failed(Error<S>),
}

/// An action by its views.
pub type Act = Action<Seq<char>, Seq<Seq<char>>>;

/// A reply by its views.
pub type Rep = Reply<Seq<char>>;

/// An error by its views.
pub type Fault = Error<Seq<char>>;

/// A flow of these steps.
pub type Steps<T> = Program<Act, Rep, T>;

/// A flow of these steps that may fail.
pub type Tries<T> = Program<Act, Rep, Result<T, Fault>>;

impl DeepView for Action<String, Vec<String>> {
    type V = Action<Seq<char>, Seq<Seq<char>>>;

    open spec fn deep_view(&self) -> Action<Seq<char>, Seq<Seq<char>>> {
        match self {
            Action::Jj { repo, call } => Action::Jj { repo: repo@, call: call.deep_view() },
            Action::Agent { prompt, dir } => Action::Agent { prompt: prompt@, dir: dir@ },
            Action::CreateDir { path } => Action::CreateDir { path: path@ },
            Action::RemoveDir { path } => Action::RemoveDir { path: path@ },
            Action::Acquire(lock) => Action::Acquire(*lock),
            Action::Release(lock) => Action::Release(*lock),
        }
    }
}

impl DeepView for Reply<String> {
    type V = Reply<Seq<char>>;

    open spec fn deep_view(&self) -> Reply<Seq<char>> {
        match self {
            Reply::Text(text) => Reply::Text(text@),
            Reply::Nothing => Reply::Nothing,
            Reply::Failed(error) => Reply::Failed(error.deep_view()),
        }
    }
}

impl Clone for Reply<String> {
    fn clone(&self) -> (res: Self)
        ensures
            res == *self,
    {
        match self {
            Reply::Text(text) => Reply::Text(text.clone()),
            Reply::Nothing => Reply::Nothing,
            Reply::Failed(error) => Reply::Failed(error.clone()),
        }
    }
}

/// The flow that is done at once.
pub open spec fn done() -> Tries<()> {
    Program::Return(Ok(()))
}

/// The flow that fails at once.
pub open spec fn fail<T>(error: Fault) -> Tries<T> {
    Program::Return(Err(error))
}

/// One flow and, unless it fails, another.
pub open spec fn attempt<T, U>(p: Tries<T>, next: spec_fn(T) -> Tries<U>) -> Tries<U> {
    flow::bind(
        p,
        |r: Result<T, Fault>|
            match r {
                Ok(v) => next(v),
                Err(e) => fail(e),
            },
    )
}

/// What a reply says where text is asked for.
pub open spec fn text_reply(reply: Rep) -> Result<Seq<char>, Fault> {
    match reply {
        Reply::Text(text) => Ok(text),
        Reply::Nothing => Ok(Seq::empty()),
        Reply::Failed(error) => Err(error),
    }
}

/// What a reply says where an answer may be missing.
pub open spec fn answer_reply(reply: Rep) -> Result<Option<Seq<char>>, Fault> {
    match reply {
        Reply::Text(text) => Ok(Some(text)),
        Reply::Nothing => Ok(None),
        Reply::Failed(error) => Err(error),
    }
}

/// What a reply says where nothing but success counts.
pub open spec fn plain_reply(reply: Rep) -> Result<(), Fault> {
    match reply {
        Reply::Failed(error) => Err(error),
        _ => Ok(()),
    }
}

/// A call of `jj` for its output.
pub open spec fn jj(repo: Seq<char>, call: JjCall<Seq<char>, Seq<Seq<char>>>) -> Tries<Seq<char>> {
    Program::Do {
        action: Action::Jj { repo, call },
        then: |reply: Rep| Program::Return(text_reply(reply)),
    }
}

/// A call of `jj` for its effect.
pub open spec fn jj_do(repo: Seq<char>, call: JjCall<Seq<char>, Seq<Seq<char>>>) -> Tries<()> {
    plain(Action::Jj { repo, call })
}

/// A run of the agent.
pub open spec fn agent(prompt: Seq<char>, dir: Seq<char>) -> Tries<Option<Seq<char>>> {
    Program::Do {
        action: Action::Agent { prompt, dir },
        then: |reply: Rep| Program::Return(answer_reply(reply)),
    }
}

/// An action for its effect.
pub open spec fn plain(action: Act) -> Tries<()> {
    Program::Do { action, then: |reply: Rep| Program::Return(plain_reply(reply)) }
}

/// An action that cannot fail the flow.
pub open spec fn quietly<T>(action: Act, next: Steps<T>) -> Steps<T> {
    Program::Do { action, then: |reply: Rep| next }
}

/// Where a flow behind such an action stands.
pub broadcast proof fn lemma_run_quietly<T>(action: Act, next: Steps<T>, log: Seq<Rep>)
    ensures
        #[trigger] flow::run(quietly(action, next), log) == (if log.len() == 0 {
            (Status::Waiting(action), log)
        } else {
            flow::run(next, log.drop_first())
        }),
{
}

/// A flow under a lock, which is taken before it and given back after it.
pub open spec fn locked<T>(lock: Lock, p: Steps<T>) -> Steps<T> {
    quietly(
        Action::Acquire(lock),
        flow::bind(p, |v: T| quietly(Action::Release(lock), Program::Return(v))),
    )
}

/// The replies that a flow has received, read from the start.
pub struct Log<'a> {
    replies: &'a Vec<Reply>,
    next: usize,
}

/// What a step of a flow gives: its value, or the action to wait for.
pub type Stepped<T> = Result<T, Action>;

/// Where a flow that may fail stands.
pub open spec fn tried<T: DeepView, E: DeepView>(res: Stepped<Result<T, E>>) -> Status<
    Act,
    Result<T::V, E::V>,
> {
    match res {
        Ok(r) => Status::Finished(views::outcome(r)),
        Err(action) => Status::Waiting(action.deep_view()),
    }
}

/// Where a flow that cannot fail stands.
pub open spec fn stands<T: DeepView>(res: Stepped<T>) -> Status<Act, T::V> {
    match res {
        Ok(v) => Status::Finished(v.deep_view()),
        Err(action) => Status::Waiting(action.deep_view()),
    }
}

impl<'a> Log<'a> {
    /// The replies that are still unread.
    pub closed spec fn rest(self) -> Seq<Rep> {
        self.replies.deep_view().skip(self.next as int)
    }

    #[verifier::type_invariant]
    spec fn wf(self) -> bool {
        self.next <= self.replies@.len()
    }

    /// The log of all replies, none of them read.
    pub fn new(replies: &'a Vec<Reply>) -> (res: Self)
        ensures
            res.rest() == replies.deep_view(),
    {
        let res = Log { replies, next: 0 };
        assert(res.rest() =~= replies.deep_view());
        res
    }

    /// The reply to an action, or the action where it has not come.
    pub fn reply_to(&mut self, action: Action) -> (res: Stepped<Reply>)
        ensures
            match res {
                Ok(reply) => {
                    &&& old(self).rest().len() > 0
                    &&& reply.deep_view() == old(self).rest()[0]
                    &&& final(self).rest() == old(self).rest().drop_first()
                },
                Err(waiting) => {
                    &&& old(self).rest().len() == 0
                    &&& waiting == action
                    &&& final(self).rest() == old(self).rest()
                },
            },
    {
        proof {
            use_type_invariant(&*self);
        }
        let ghost before = self.rest();
        let at: usize = self.next;
        if at < self.replies.len() {
            let reply = self.replies[at].clone();
            assert(before[0] == self.replies.deep_view()[at as int]);
            self.next = at + 1;
            assert(self.rest() =~= before.drop_first());
            Ok(reply)
        } else {
            Err(action)
        }
    }
}

/// An action that cannot fail the flow.
pub fn run_quietly(action: Action, log: &mut Log) -> (res: Stepped<()>)
    ensures
        match res {
            Ok(()) => {
                &&& old(log).rest().len() > 0
                &&& final(log).rest() == old(log).rest().drop_first()
            },
            Err(waiting) => {
                &&& old(log).rest().len() == 0
                &&& waiting == action
                &&& final(log).rest() == old(log).rest()
            },
        },
{
    match log.reply_to(action) {
        Ok(_) => Ok(()),
        Err(action) => Err(action),
    }
}

/// A call of `jj` for its output.
pub fn run_jj(repo: &str, call: JjCall, log: &mut Log) -> (res: Stepped<Result<String, Error>>)
    ensures
        flow::run(jj(repo@, call.deep_view()), old(log).rest()) == (
            tried(res),
            final(log).rest(),
        ),
{
    reveal_with_fuel(flow::run, 2);
    match log.reply_to(Action::Jj { repo: repo.to_string(), call }) {
        Ok(Reply::Text(text)) => Ok(Ok(text)),
        Ok(Reply::Nothing) => Ok(Ok(String::new())),
        Ok(Reply::Failed(error)) => Ok(Err(error)),
        Err(action) => Err(action),
    }
}

/// An action for its effect.
pub fn run_plain(action: Action, log: &mut Log) -> (res: Stepped<Result<(), Error>>)
    ensures
        flow::run(plain(action.deep_view()), old(log).rest()) == (tried(res), final(log).rest()),
{
    reveal_with_fuel(flow::run, 2);
    match log.reply_to(action) {
        Ok(Reply::Failed(error)) => Ok(Err(error)),
        Ok(_) => Ok(Ok(())),
        Err(action) => Err(action),
    }
}

/// A call of `jj` for its effect.
pub fn do_jj(repo: &str, call: JjCall, log: &mut Log) -> (res: Stepped<Result<(), Error>>)
    ensures
        flow::run(jj_do(repo@, call.deep_view()), old(log).rest()) == (
            tried(res),
            final(log).rest(),
        ),
{
    run_plain(Action::Jj { repo: repo.to_string(), call }, log)
}

/// A run of the agent.
pub fn run_agent(prompt: String, dir: &str, log: &mut Log) -> (res: Stepped<
    Result<Option<String>, Error>,
>)
    ensures
        flow::run(agent(prompt@, dir@), old(log).rest()) == (tried(res), final(log).rest()),
{
    reveal_with_fuel(flow::run, 2);
    match log.reply_to(Action::Agent { prompt, dir: dir.to_string() }) {
        Ok(Reply::Text(text)) => Ok(Ok(Some(text))),
        Ok(Reply::Nothing) => Ok(Ok(None)),
        Ok(Reply::Failed(error)) => Ok(Err(error)),
        Err(action) => Err(action),
    }
}

/// What a reply says: output is taken as it is, and none where there is none; an agent that said
/// nothing gave no answer; and what failed failed.
pub proof fn replies_are_read(text: Seq<char>, error: Fault)
    ensures
        text_reply(Reply::Text(text)) == Ok::<_, Fault>(text),
        text_reply(Reply::Nothing) == Ok::<_, Fault>(Seq::<char>::empty()),
        text_reply(Reply::Failed(error)) == Err::<Seq<char>, _>(error),
        answer_reply(Reply::Text(text)) == Ok::<_, Fault>(Some(text)),
        answer_reply(Reply::Nothing) == Ok::<_, Fault>(None::<Seq<char>>),
        answer_reply(Reply::Failed(error)) == Err::<Option<Seq<char>>, _>(error),
        plain_reply(Reply::Text(text)) == Ok::<(), Fault>(()),
        plain_reply(Reply::Nothing) == Ok::<(), Fault>(()),
        plain_reply(Reply::Failed(error)) == Err::<(), _>(error),
{
}

} // verus!
